use lightspeed::depcache::{decode, encode, Settled};
use lightspeed::depgraph::{
    build_scene, cut, degrees, draw_order, hit_test, import_edges, label_of, label_rows,
    label_sequence, pane_marks, settle_graph, DependencyFrame, DependencyGraph, ImportEdge, Mark,
    Scene, Stamp, LABEL_CAP, LABEL_FLOOR,
};
use lightspeed::numbers::Single;

fn single(x: f32) -> Single {
    Single { bits: x.to_bits() }
}

fn graph_of(files: &[&str], edges: &[(&str, &str)]) -> DependencyGraph {
    DependencyGraph {
        files: files.iter().map(|file| file.to_string()).collect(),
        edges: edges
            .iter()
            .map(|(from, to)| ImportEdge { from: from.to_string(), to: to.to_string() })
            .collect(),
        truncated: false,
    }
}

fn settled_of(files: &[&str], edges: &[(&str, &str)]) -> Settled {
    let positions = (0..files.len())
        .map(|at| (single(at as f32 * 10.0), single(at as f32 * -2.5)))
        .collect();
    settle_graph(&graph_of(files, edges), positions)
}

fn scene_of(files: &[&str], edges: &[(&str, &str)]) -> Scene {
    let names: Vec<String> =
        files.iter().map(|file| file.rsplit('/').next().unwrap().to_string()).collect();
    build_scene(&settled_of(files, edges), &names)
}

fn stamp(row: i64, column: i64, text: &str) -> Stamp {
    Stamp { row, column, text: text.to_string() }
}

#[test]
fn a_graph_becomes_a_node_per_file_and_an_edge_per_import() {
    let scene = scene_of(
        &["main.rs", "parser.rs", "token.rs"],
        &[("main.rs", "parser.rs"), ("parser.rs", "token.rs")],
    );
    assert_eq!(scene.nodes.len(), 3);
    assert_eq!(scene.edges.len(), 2);
    assert!(scene.nodes.iter().any(|node| node.name == "main.rs"));
}

#[test]
fn an_imported_file_and_an_entry_point_are_marked_differently() {
    let scene = scene_of(&["main.rs", "parser.rs"], &[("main.rs", "parser.rs")]);
    let entry = scene.nodes.iter().find(|node| node.name == "main.rs").expect("main.rs");
    let used = scene.nodes.iter().find(|node| node.name == "parser.rs").expect("parser.rs");
    assert!(!entry.imported, "nothing imports main.rs");
    assert!(used.imported);

    let marks = pane_marks(&scene, &vec![], None);
    assert!(marks.iter().any(|mark| matches!(mark, Mark::Circle { imported: false, .. })));
    assert!(marks.iter().any(|mark| matches!(mark, Mark::Circle { imported: true, .. })));
}

#[test]
fn a_busy_file_is_drawn_larger_than_a_quiet_one() {
    let mut names = vec!["hub.rs"];
    let leaves: Vec<String> = (0..10).map(|index| format!("leaf{index}.rs")).collect();
    names.extend(leaves.iter().map(String::as_str));
    let edges: Vec<(&str, &str)> = leaves.iter().map(|leaf| ("hub.rs", leaf.as_str())).collect();
    let scene = scene_of(&names, &edges);
    let hub = scene.nodes.iter().find(|node| node.name == "hub.rs").expect("hub");
    let leaf = scene.nodes.iter().find(|node| node.name == "leaf3.rs").expect("leaf");
    assert!(hub.degree > leaf.degree, "{} vs {}", hub.degree, leaf.degree);
    assert_eq!(scene.nodes[0].name, "hub.rs", "and drawn first, under the small ones");
}

#[test]
fn files_are_drawn_by_degree_and_those_as_busy_in_their_order() {
    assert_eq!(draw_order(&vec![1, 3, 0, 3, 40, 12, 13]), vec![4, 5, 6, 1, 3, 0, 2]);
    assert_eq!(degrees(3, &vec![(0, 1), (1, 1)]), vec![1, 3, 0]);
}

#[test]
fn an_import_of_an_unknown_file_is_left_out() {
    let graph = graph_of(&["a.rs", "b.rs", "a.rs"], &[("a.rs", "b.rs"), ("b.rs", "nowhere.rs")]);
    assert_eq!(import_edges(&graph), vec![(2, 1)], "the last of two files of one name");
}

#[test]
fn edges_follow_their_files_into_the_order_of_drawing() {
    let scene = scene_of(&["leaf.rs", "hub.rs", "other.rs"], &[
        ("hub.rs", "leaf.rs"),
        ("hub.rs", "other.rs"),
    ]);
    for (at, edge) in scene.edges.iter().enumerate() {
        assert_eq!(scene.nodes[edge.0].name, "hub.rs");
        assert_eq!(scene.nodes[edge.1].name, ["leaf.rs", "other.rs"][at]);
    }
    let hub = scene.nodes.iter().position(|node| node.name == "hub.rs").unwrap();
    assert_eq!(scene.connections(hub), (2, 0));
    assert!(scene.touches(0, hub) && scene.touches(1, hub));
    assert!(!scene.touches(7, hub));
}

#[test]
fn an_empty_graph_produces_an_empty_scene_rather_than_panicking() {
    let scene = scene_of(&[], &[]);
    assert!(scene.nodes.is_empty());
    assert!(pane_marks(&scene, &vec![], None).is_empty());
    assert_eq!(label_rows(4, 20, &vec![]).trim(), "");
}

#[test]
fn two_files_that_import_each_other_are_both_imported() {
    let scene = scene_of(&["a.py", "b.py"], &[("a.py", "b.py"), ("b.py", "a.py")]);
    assert_eq!(scene.nodes.len(), 2);
    assert!(scene.nodes.iter().all(|node| node.imported && node.degree == 2));
}

#[test]
fn a_click_finds_the_node_under_it_and_nothing_when_there_is_none() {
    for at in 0..3 {
        let under: Vec<bool> = (0..3).map(|node| node == at).collect();
        assert_eq!(hit_test(true, &under), Some(at));
    }
    assert_eq!(hit_test(true, &vec![true, true, false]), Some(1), "the one drawn on top");
    assert_eq!(hit_test(true, &vec![false; 3]), None, "the corner is empty");
}

#[test]
fn a_click_outside_the_pane_hits_nothing() {
    assert_eq!(hit_test(false, &vec![true, true]), None);
}

#[test]
fn the_traced_node_and_its_edges_are_picked_out() {
    let scene =
        scene_of(&["a.rs", "b.rs", "c.rs"], &[("a.rs", "b.rs"), ("b.rs", "c.rs")]);
    // A shaft and two barbs to each edge.
    let segments = vec![0, 0, 0, 1, 1, 1];
    let plain = pane_marks(&scene, &segments, None);
    let traced = pane_marks(&scene, &segments, Some(0));
    assert_eq!(traced.len(), plain.len() + 1, "the ring adds a mark");
    assert!(traced.contains(&Mark::Ring { node: 0 }));
    assert!(traced.iter().any(|mark| matches!(mark, Mark::Stroke { lit: true, .. })));
    assert!(!plain.iter().any(|mark| matches!(mark, Mark::Stroke { lit: true, .. })));
}

#[test]
fn zooming_in_fills_names_out() {
    assert_eq!(label_of("workspace_search.rs", 28).unwrap(), "workspace_search.rs");
    assert_eq!(label_of("workspace_search.rs", 9).unwrap(), "workspac\u{2026}");
    assert_eq!(label_of("workspace_search.rs", 2), None, "too little room to say anything");
    assert_eq!(label_of("app.rs", 0).unwrap(), "app.\u{2026}");
    assert_eq!(label_of("", 20), None);
    assert_eq!(label_of(&"x".repeat(60), 900).unwrap().chars().count(), LABEL_CAP);
    assert_eq!(label_of("abcdefghij", 1).unwrap().chars().count(), LABEL_FLOOR);
}

#[test]
fn the_traced_node_keeps_its_label_whatever_else_wanted_the_room() {
    assert_eq!(label_sequence(4, Some(2)), vec![2, 0, 1, 3]);
    assert_eq!(label_sequence(3, None), vec![0, 1, 2]);
    let rows = label_rows(3, 40, &vec![stamp(1, 4, "c.rs"), stamp(1, 3, "a.rs")]);
    assert!(rows.contains("c.rs"), "{rows}");
    assert!(!rows.contains("a.rs"), "{rows}");
}

#[test]
fn labels_that_would_touch_are_kept_a_space_apart() {
    let rows = label_rows(3, 40, &vec![stamp(1, 4, "aaa"), stamp(1, 7, "bbb")]);
    assert!(!rows.contains("aaabbb"), "ran together: {rows}");
    assert!(rows.contains("aaa"));
    assert!(!rows.contains("bbb"));
    let apart = label_rows(3, 40, &vec![stamp(1, 4, "aaa"), stamp(1, 8, "bbb")]);
    assert_eq!(apart, "\n    aaa bbb\n");
}

#[test]
fn a_label_off_the_pane_is_not_stamped() {
    for away in [stamp(-1, 2, "far.rs"), stamp(3, 2, "far.rs"), stamp(1, -1, "far.rs"),
        stamp(1, 35, "far.rs")] {
        assert_eq!(label_rows(3, 40, &vec![away]).trim(), "");
    }
    assert_eq!(label_rows(1, 40, &vec![stamp(0, 34, "far.rs")]).trim(), "far.rs");
}

#[test]
fn a_name_is_cut_with_an_ellipsis_that_counts_towards_the_room() {
    assert_eq!(cut("workspace_search.rs", 8), "workspa\u{2026}");
    assert_eq!(cut("app.rs", 8), "app.rs");
}

#[test]
fn the_pane_shows_its_message_until_there_is_a_graph() {
    let waiting =
        DependencyFrame { scene: None, traced: None, placeholder: "Reading the workspace..." };
    assert_eq!(waiting.text(3, 10, &vec![]), "Reading the workspace...");
    assert!(waiting.marks(&vec![]).is_empty());

    let scene = scene_of(&["a.rs"], &[]);
    let shown = DependencyFrame { scene: Some(&scene), traced: None, placeholder: "unused" };
    assert_eq!(shown.text(1, 10, &vec![stamp(0, 2, "a.rs")]), "  a.rs");
    assert_eq!(shown.marks(&vec![]), vec![Mark::Circle { node: 0, imported: false }]);
}

#[test]
fn a_settled_graph_survives_the_round_trip() {
    let root = "/work/app";
    let settled = settled_of(
        &["main.rs", "src/parser.rs", "a file with spaces.rs"],
        &[("main.rs", "src/parser.rs")],
    );
    let decoded = decode(root, &encode(root, &settled)).expect("its own output reads back");
    assert_eq!(decoded.files, settled.files, "paths with spaces survive");
    assert_eq!(decoded.edges, settled.edges);
    assert_eq!(decoded.truncated, settled.truncated);
    assert_eq!(decoded.positions, settled.positions);
    assert_eq!(
        encode(root, &settled),
        "lightspeed-depgraph 1\nroot /work/app\ntruncated false\nfiles 3\n\
         0.000 -0.000 main.rs\n10.000 -2.500 src/parser.rs\n20.000 -5.000 a file with spaces.rs\n\
         edges 1\n0 1\n"
    );
}

#[test]
fn a_cache_written_for_another_folder_is_refused() {
    let settled = settled_of(&["a.rs"], &[]);
    let text = encode("/work/app", &settled);
    assert!(decode("/play/app", &text).is_none());
    assert!(decode("/work/app", &text).is_some());
}

#[test]
fn a_cache_from_another_version_is_refused() {
    let settled = settled_of(&["a.rs"], &[]);
    let text =
        encode("/work/app", &settled).replace("lightspeed-depgraph 1", "lightspeed-depgraph 0");
    assert!(decode("/work/app", &text).is_none());
}

#[test]
fn a_damaged_cache_is_refused_rather_than_half_read() {
    let root = "/work/app";
    let settled = settled_of(&["a.rs", "b.rs"], &[("a.rs", "b.rs")]);
    let whole = encode(root, &settled);

    // Cut off part-way through.
    for kept in 0..whole.lines().count() {
        let cut = whole.lines().take(kept).collect::<Vec<_>>().join("\n");
        assert!(decode(root, &cut).is_none(), "a truncated file is not half-read");
    }

    // An edge pointing at a file that is not there.
    let bent = whole.replace("\n0 1\n", "\n0 99\n");
    assert!(decode(root, &bent).is_none(), "an out-of-range edge is refused");

    // Junk where a number should be.
    let junk = whole.replace("files 2", "files banana");
    assert!(decode(root, &junk).is_none());
    let endless = whole.replace("files 2", "files 18446744073709551615");
    assert!(decode(root, &endless).is_none());
}

#[test]
fn an_empty_graph_caches_and_reads_back_as_empty() {
    let root = "/work/empty";
    let settled = settled_of(&[], &[]);
    let decoded = decode(root, &encode(root, &settled)).expect("an empty graph is cacheable");
    assert!(decoded.files.is_empty());
}

#[test]
fn a_file_without_a_position_rests_at_the_origin() {
    let mut settled = settled_of(&["a.rs", "b.rs"], &[]);
    settled.positions.truncate(1);
    settled.truncated = true;
    let decoded = decode("/w", &encode("/w", &settled)).unwrap();
    assert_eq!(decoded.positions[1], (single(0.0), single(0.0)));
    assert!(decoded.truncated);
}

#[test]
fn one_position_that_is_not_finite_spoils_the_cache() {
    let whole = encode("/w", &settled_of(&["a.rs", "b.rs"], &[]));
    assert!(decode("/w", &whole).is_some());
    let row = "0.000 -0.000 a.rs";
    assert!(whole.contains(row));
    for word in [
        "1.5", "-2", "+3", ".5", "5.", "1e10", "1E-400", "340282346638528859811704183484516925440",
        "3.4028235e38", "340282356779733661637539395458142568447", "-3.4028236e38", "3.4028236e+38",
        "340282356779733661637539395458142568448", "3.5e38", "1e39", "-1e39", "1e400", "inf", "nan",
        "NaN", "infinity", "banana", "", ".", "-", "1e", "0x10", "1.2.3",
    ] {
        let finite = word.parse::<f32>().is_ok_and(f32::is_finite);
        for line in [format!("{word} 0.000 a.rs"), format!("0.000 {word} a.rs")] {
            let read = decode("/w", &whole.replace(row, &line));
            assert_eq!(read.is_some(), finite, "{line}");
        }
    }
}

#[test]
fn a_position_is_kept_to_the_nearest_thousandth() {
    let mut settled = settled_of(&["a.rs"], &[]);
    for x in [
        0.0f32, -0.0, 1.5, -2.25, 0.0625, 0.1875, 0.3125, -0.0001, 0.0004, 0.0006, 0.1, 123.4567,
        -9876.543, 16777215.0, 16777216.0, 1.0e10, -3.4028235e38, f32::MIN_POSITIVE, 1.0e-45,
        8388607.5, 4194303.75, 2097151.9,
    ] {
        settled.positions[0] = (single(x), single(-x));
        let text = encode("/w", &settled);
        assert_eq!(text.lines().nth(4), Some(format!("{x:.3} {:.3} a.rs", -x).as_str()));
        let read = decode("/w", &text).expect("a finite position reads back").positions[0];
        let expected: f32 = format!("{x:.3}").parse().unwrap();
        assert_eq!(read.0.bits, expected.to_bits(), "{x}");
        assert_eq!(read.1.bits, (-expected).to_bits(), "{x}");
    }
    let text = encode("/w", &settled_of(&["a.rs"], &[]));
    let read = decode("/w", &text.replace("0.000 -0.000 a.rs", "1.5 2 a.rs")).unwrap();
    assert_eq!(read.positions[0], (single(1.5), single(2.0)));
    assert_eq!(encode("/w", &read).lines().nth(4), Some("1.500 2.000 a.rs"));
}

#[test]
fn a_position_that_is_not_finite_is_written_but_not_read() {
    let mut settled = settled_of(&["a.rs"], &[]);
    settled.positions[0] = (single(f32::NEG_INFINITY), single(f32::NAN));
    let text = encode("/w", &settled);
    assert_eq!(text.lines().nth(4), Some("-inf NaN a.rs"));
    assert!(decode("/w", &text).is_none());
}
