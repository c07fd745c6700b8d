use lightspeed::args::Arguments;
use lightspeed::clock::{Duration, Instant};
use lightspeed::devpanel;
use lightspeed::devpanel::{
    file_part_of, status_summary, truncate, wants_continuous_frames, Current, Heartbeat, LoadEnd,
    LoadRecord, PanelFacts, PendingLoad, SchedulerCounts, LISTED_LOADS,
};
use lightspeed::quads::{
    bytes_of_words, is_visible, power_of_two_from, Instances, QuadBits, FIRST_CAPACITY,
    INSTANCE_SIZE,
};
use lightspeed::resources;
use lightspeed::resources::{bytes, subsystems, BasePriorities, ResourceFacts, Subsystem, TaskRecord};

fn at(millis: u64) -> Instant {
    Instant { nanos: 0 }.plus(Duration::from_millis(millis))
}

fn scheduler() -> SchedulerCounts {
    SchedulerCounts { workers: 4, queued: 1, capacity: 256, running: 2, dropped: 0 }
}

fn panel(current: Current, recent: Vec<LoadRecord>) -> PanelFacts {
    PanelFacts {
        ticks: 12,
        since_last_tick: "0.4 ms".to_string(),
        longest_gap: "16.7 ms".to_string(),
        scheduler: scheduler(),
        current,
        loading: 0,
        tabs: 0,
        recent,
    }
}

fn record(name: &str, state: &str, end: LoadEnd) -> LoadRecord {
    LoadRecord {
        document: 1,
        path: format!("/tmp/tests/{name}"),
        task: 9,
        state: state.to_string(),
        end,
        joined: false,
        joins: 1,
        total: Some("1.5 ms".to_string()),
        queue_wait: None,
        wall_time: Some("1.2 ms".to_string()),
        error: None,
    }
}

fn pending(name: &str) -> PendingLoad {
    PendingLoad { name: name.to_string(), task: 42, elapsed: "3.0 ms".to_string(), joins: 2 }
}

fn facts() -> ResourceFacts {
    ResourceFacts {
        scheduler: scheduler(),
        submitted: 10,
        rejected: 0,
        bases: BasePriorities {
            document_io: 800,
            language: 600,
            search: 500,
            git: 400,
            indexing: 200,
        },
        records: vec![],
        memory: "150".to_string(),
        processor: "4".to_string(),
    }
}

#[test]
fn the_heartbeat_counts_frames_and_remembers_the_worst_gap() {
    let mut heartbeat = Heartbeat::new(at(0));
    assert_eq!(heartbeat.ticks(), 0);
    heartbeat.tick(at(30));
    assert_eq!(heartbeat.ticks(), 1);
    // The first tick measures startup and must not become the worst gap.
    assert_eq!(heartbeat.longest_gap(), Duration::zero());

    let gap = heartbeat.tick(at(35));
    assert_eq!(gap, Duration::from_millis(5));
    assert_eq!(heartbeat.ticks(), 2);
    assert!(heartbeat.longest_gap().nanos >= Duration::from_millis(4).nanos);
    heartbeat.tick(at(36));
    assert_eq!(heartbeat.longest_gap(), Duration::from_millis(5));
    assert_eq!(heartbeat.since_last_tick(at(40)), Duration::from_millis(4));
}

#[test]
fn the_panel_renders_with_an_empty_editor() {
    let rendered = devpanel::lines(&panel(Current::NoTab, vec![]));
    assert!(rendered[0].contains("async document loading"));
    assert!(rendered.iter().any(|line| line.contains("heartbeat")));
    assert!(rendered.iter().any(|line| line.contains("nothing loaded yet")));
    assert_eq!(
        rendered[1],
        "heartbeat       12   since last frame    0.4 ms   worst gap   16.7 ms"
    );
    assert_eq!(rendered[3], "current    (no tab)");
}

#[test]
fn the_panel_shows_a_loading_document_with_its_task_and_joins() {
    let mut facts = panel(Current::Loading(pending("panel-loading.txt")), vec![]);
    facts.loading = 1;
    let rendered = devpanel::lines(&facts);
    let current = rendered.iter().find(|line| line.starts_with("current")).unwrap();
    assert!(current.contains("LOADING"), "{current}");
    assert!(current.contains("task 42"), "{current}");
    assert!(current.contains("joined requests 2"), "{current}");
    assert!(rendered.iter().any(|line| line.contains("loads in flight 1")));
}

#[test]
fn the_panel_marks_joined_loads_in_the_recent_list() {
    let mut joined = record("panel-join.txt", "loaded", LoadEnd::Otherwise);
    joined.joined = true;
    joined.joins = 4;
    let rendered = devpanel::lines(&panel(Current::NoDocument, vec![joined]));
    let row = rendered
        .iter()
        .find(|line| line.starts_with("panel-join.txt") && line.contains("loaded"))
        .expect("the load appears in the recent list");
    assert!(row.contains("loaded*"), "a joined load is marked: {row}");
    assert!(row.contains(" 4 "), "four requests shared it: {row}");
}

#[test]
fn the_panel_describes_a_loaded_document() {
    let current = Current::Document {
        name: "a.rs".to_string(),
        lines: 12,
        encoding: "UTF-8".to_string(),
        dirty: true,
    };
    let rendered = devpanel::lines(&panel(current, vec![]));
    assert_eq!(rendered[3], "current    a.rs   12 lines   UTF-8   modified");
}

#[test]
fn the_panel_lists_the_most_recent_loads_and_no_more() {
    let recent: Vec<LoadRecord> = (0..20)
        .map(|index| record(&format!("file{index}.rs"), "loaded", LoadEnd::Otherwise))
        .collect();
    let rendered = devpanel::lines(&panel(Current::NoTab, recent));
    let listed = rendered.iter().filter(|line| line.starts_with("file")).count();
    assert_eq!(listed, LISTED_LOADS);
}

#[test]
fn the_status_summary_reports_loading_then_clears() {
    let loading = Some(pending("panel-status.txt"));
    let summary = status_summary(Some(1), &loading, &vec![]).unwrap();
    assert!(summary.starts_with("Loading panel-status.txt"), "{summary}");
    assert!(summary.contains("Esc to cancel"));

    let done = vec![record("panel-status.txt", "loaded", LoadEnd::Otherwise)];
    assert_eq!(
        status_summary(Some(1), &None, &done),
        None,
        "a loaded document needs no status line"
    );
    assert_eq!(status_summary(None, &loading, &done), None);
}

#[test]
fn the_status_summary_reports_a_failure() {
    let mut failed = record("panel-fail.txt", "failed", LoadEnd::Failed);
    failed.error = Some("disk on fire".to_string());
    assert_eq!(
        status_summary(Some(1), &None, &vec![failed]).unwrap(),
        "Failed to open /tmp/tests/panel-fail.txt: disk on fire"
    );
    let cancelled = record("c.txt", "cancelled", LoadEnd::Cancelled);
    assert_eq!(
        status_summary(Some(1), &None, &vec![cancelled]).unwrap(),
        "Cancelled loading /tmp/tests/c.txt"
    );

    let mut shown = record("panel-fail.txt", "failed", LoadEnd::Failed);
    shown.error = Some("disk on fire".to_string());
    let rendered = devpanel::lines(&panel(Current::NoTab, vec![shown]));
    assert!(
        rendered.iter().any(|line| line.contains("failed")),
        "the failure shows in the recent list"
    );
    assert!(rendered.iter().any(|line| line == "  disk on fire"));
}

#[test]
fn continuous_frames_are_requested_only_when_something_is_happening() {
    assert!(!wants_continuous_frames(0, false), "an idle editor draws nothing");
    assert!(wants_continuous_frames(0, true), "an open panel keeps its timers live");
    assert!(wants_continuous_frames(1, false), "a load in flight keeps frames coming");
    assert!(!wants_continuous_frames(0, false), "and stops when it settles");
}

#[test]
fn long_names_are_truncated_rather_than_wrapping() {
    assert_eq!(truncate("short", 22), "short");
    let long = "a-very-long-file-name-that-will-not-fit.txt";
    let truncated = truncate(long, 22);
    assert_eq!(truncated.chars().count(), 22);
    assert!(truncated.ends_with('~'));
}

#[test]
fn a_path_is_listed_by_what_follows_its_last_separator() {
    assert_eq!(file_part_of("/tmp/a/b.txt"), "b.txt");
    assert_eq!(file_part_of(r"C:\a\b.txt"), "b.txt");
    assert_eq!(file_part_of("b.txt"), "b.txt");
    assert_eq!(file_part_of("dir/"), "");
}

#[test]
fn the_panel_reports_queue_depth_and_capacity() {
    let lines = resources::lines(&facts());
    let queue_line = lines.iter().find(|line| line.contains("queue ")).expect("a queue line");
    assert_eq!(lines[3], "  queue 1 / 256    running 2    workers 4");
    assert!(queue_line.contains("queue"));
}

#[test]
fn the_panel_lists_every_subsystems_base_priority() {
    let lines = resources::lines(&facts());
    for subsystem in subsystems() {
        assert!(
            lines.iter().any(|line| line.contains(subsystem.name())),
            "{} is missing from the fairness table",
            subsystem.name()
        );
    }
    let table: Vec<&String> = lines.iter().filter(|line| line.contains(" base ")).collect();
    assert_eq!(
        table,
        [
            "  document_io base 800",
            "  language    base 600",
            "  search      base 500",
            "  git         base 400",
            "  indexing    base 200",
        ]
    );
    assert_eq!(subsystems()[0], Subsystem::DocumentIo);
}

#[test]
fn document_io_reports_the_documented_base_priority() {
    let lines = resources::lines(&facts());
    let line =
        lines.iter().find(|line| line.contains("document_io")).expect("document_io is listed");
    assert!(line.contains("800"));
    assert_eq!(line, "  document_io base 800");
}

#[test]
fn an_empty_history_says_so_rather_than_an_empty_section() {
    let lines = resources::lines(&facts());
    assert!(lines.iter().any(|line| line.contains("none yet")));
}

#[test]
fn process_memory_is_reported_in_megabytes() {
    let lines = resources::lines(&facts());
    assert!(lines.iter().any(|line| line.contains("RSS 150 MB")));
}

#[test]
fn a_completed_load_appears_in_recent_task_accounting() {
    let task = |subsystem: &str, read| TaskRecord {
        subsystem: subsystem.to_string(),
        outcome: "Completed".to_string(),
        queue_wait: "0.1".to_string(),
        wall_time: "2.0".to_string(),
        bytes_read: read,
        bytes_written: 0,
        cost_ratio: None,
    };
    let mut facts = facts();
    facts.records = (0..9).map(|index| task("document_io", index)).collect();
    let lines = resources::lines(&facts);
    let tasks: Vec<&String> = lines.iter().filter(|line| line.contains("Completed")).collect();
    assert_eq!(tasks.len(), 6, "the last six");
    assert_eq!(tasks[0], "  document_io Completed   wait 0.1 ms   run 2.0 ms   8 B   -");
    assert!(!lines.iter().any(|line| line.contains("none yet")));
    facts.records[8].cost_ratio = Some("1.5".to_string());
    assert!(resources::lines(&facts).iter().any(|line| line.ends_with("   8 B   1.5x estimate")));
}

#[test]
fn a_rejection_is_explained_once_there_was_one() {
    let quiet = resources::lines(&facts());
    let mut rejected = facts();
    rejected.rejected = 3;
    let loud = resources::lines(&rejected);
    assert_eq!(loud.len(), quiet.len() + 1);
    assert!(loud.iter().any(|line| line.contains("rejected (overload) 3")));
}

#[test]
fn bytes_formats_across_units() {
    assert_eq!(bytes(500), "500 B");
    assert_eq!(bytes(2048), "2.0 KB");
    assert_eq!(bytes(5 * 1024 * 1024), "5.0 MB");
}

#[test]
fn sizes_round_as_their_decimals_do() {
    // Halfway between two tenths, the even one.
    assert_eq!(bytes(1024 + 256), "1.2 KB");
    assert_eq!(bytes(1024 + 768), "1.8 KB");
    for value in [1023, 1024, 1075, 1126, 123_456, 99_999_999, 1 << 40, (1 << 53) + 1, u64::MAX] {
        let mut size = value as f64;
        let mut unit = 0;
        while size >= 1024.0 && unit < 3 {
            size /= 1024.0;
            unit += 1;
        }
        let expected = if unit == 0 {
            format!("{value} B")
        } else {
            format!("{size:.1} {}", ["B", "KB", "MB", "GB"][unit])
        };
        assert_eq!(bytes(value), expected);
    }
}

#[test]
fn arguments_collect_paths() {
    let arguments = Arguments::parse(&vec!["a.rs".to_string(), "b/c.py".to_string()]);
    assert_eq!(arguments.paths.len(), 2);
    assert!(!arguments.help && !arguments.version);
    assert_eq!(arguments.paths, vec!["a.rs".to_string(), "b/c.py".to_string()]);
}

#[test]
fn flags_are_recognized() {
    assert!(Arguments::parse(&vec!["--help".to_string()]).help);
    assert!(Arguments::parse(&vec!["-v".to_string()]).version);
}

#[test]
fn unknown_options_fall_back_to_usage() {
    let arguments = Arguments::parse(&vec!["--wat".to_string()]);
    assert!(arguments.help);
    assert!(arguments.paths.is_empty());
    assert_eq!(arguments.unknown, vec!["--wat".to_string()]);
}

#[test]
fn float_bytes_are_little_endian() {
    let values = vec![1.0f32.to_bits(), (-2.5f32).to_bits()];
    let bytes = bytes_of_words(&values);
    assert_eq!(bytes.len(), 8);
    assert_eq!(&bytes[0..4], &1.0f32.to_le_bytes());
    assert_eq!(&bytes[4..8], &(-2.5f32).to_le_bytes());
}

#[test]
fn instance_size_matches_the_shader_layout() {
    // Four floats of rect plus four of color.
    assert_eq!(INSTANCE_SIZE, 8 * std::mem::size_of::<f32>() as u64);
}

fn quad(width: f32, height: f32, alpha: u8) -> QuadBits {
    QuadBits {
        x: 1.0f32.to_bits(),
        y: 2.0f32.to_bits(),
        width: width.to_bits(),
        height: height.to_bits(),
        red: 0,
        green: 0,
        blue: 0,
        opacity: 1.0f32.to_bits(),
        alpha,
    }
}

#[test]
fn only_what_has_an_extent_and_a_colour_is_visible() {
    assert!(is_visible(&quad(4.0, 2.0, 255)));
    assert!(is_visible(&quad(f32::INFINITY, f32::MIN_POSITIVE, 1)));
    assert!(!is_visible(&quad(0.0, 2.0, 255)));
    assert!(!is_visible(&quad(-0.0, 2.0, 255)));
    assert!(!is_visible(&quad(4.0, -2.0, 255)));
    assert!(!is_visible(&quad(4.0, f32::NAN, 255)));
    assert!(!is_visible(&quad(4.0, 2.0, 0)));
}

#[test]
fn the_instance_buffer_holds_both_layers_and_grows_when_it_must() {
    let mut instances = Instances::new();
    let base = vec![quad(1.0, 1.0, 255), quad(0.0, 1.0, 255), quad(2.0, 1.0, 255)];
    let overlay = vec![quad(3.0, 1.0, 255)];
    let upload = instances.prepare(&base, &overlay);
    assert_eq!(instances.instance_count(), 3);
    assert_eq!(instances.base_range(), Some((0, 2)));
    assert_eq!(instances.overlay_range(), Some((2, 3)));
    assert_eq!(upload.staging.len(), 96);
    assert_eq!(upload.grow, None);
    assert_eq!(&upload.staging[8..12], &1.0f32.to_le_bytes());
    assert_eq!(&upload.staging[40..44], &2.0f32.to_le_bytes());
    assert_eq!(&upload.staging[72..76], &3.0f32.to_le_bytes());

    let many: Vec<QuadBits> = (0..300).map(|_| quad(1.0, 1.0, 9)).collect();
    let upload = instances.prepare(&many, &vec![]);
    assert_eq!(upload.grow, Some(512 * INSTANCE_SIZE));
    assert_eq!(instances.overlay_range(), None);

    let upload = instances.prepare(&vec![], &vec![]);
    assert!(upload.staging.is_empty());
    assert_eq!(instances.base_range(), None);
    assert_eq!(instances.capacity, 512, "it never shrinks");
}

#[test]
fn a_power_of_two_is_found_for_every_count() {
    assert_eq!(power_of_two_from(0), 1);
    assert_eq!(power_of_two_from(1), 1);
    assert_eq!(power_of_two_from(257), 512);
    assert_eq!(power_of_two_from(512), 512);
    assert_eq!(power_of_two_from(u32::MAX), 1 << 32);
    assert_eq!(FIRST_CAPACITY, 256);
}
