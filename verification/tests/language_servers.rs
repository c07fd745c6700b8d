use lightspeed::framing::{frame, read_one_message, Headers, Reader};
use lightspeed::json::parse;
use lightspeed::lsp::{
    language_id_for, parse_publish_diagnostics, path_from_uri, servers_for, severity_from,
    should_apply_lsp_diagnostics, uri_for, AppliedVersions, DiagnosticSeverity, DocumentSync,
    Language, LspClient, LspManager, PersistenceState, Published, ServerPlan, SyncAction,
    SyncFacts, MAX_SERVERS,
};

fn reader(text: &str) -> Reader {
    Reader { bytes: text.as_bytes().to_vec(), at: 0 }
}

#[test]
fn a_newer_diagnostics_version_is_applied() {
    assert!(should_apply_lsp_diagnostics(Some(5), Some(6)));
    assert!(should_apply_lsp_diagnostics(None, Some(1)), "the first version ever seen applies");
}

#[test]
fn an_older_diagnostics_version_is_dropped() {
    assert!(!should_apply_lsp_diagnostics(Some(45), Some(41)));
}

#[test]
fn the_same_version_reapplying_is_allowed() {
    assert!(should_apply_lsp_diagnostics(Some(5), Some(5)));
}

#[test]
fn a_server_that_never_sends_a_version_is_always_applied() {
    assert!(should_apply_lsp_diagnostics(Some(100), None));
}

#[test]
fn a_windows_path_round_trips_through_a_file_uri() {
    let path = r"C:\proj\src\main.rs";
    let uri = uri_for(path);
    assert_eq!(uri, "file:///C:/proj/src/main.rs");
    let back = path_from_uri(&uri, '\\').unwrap();
    assert_eq!(back.replace('\\', "/"), "C:/proj/src/main.rs");
    assert_eq!(back, path);
}

#[test]
fn an_absolute_path_round_trips_through_a_file_uri() {
    let uri = uri_for("/home/me/main.rs");
    assert_eq!(uri, "file:///home/me/main.rs");
    assert_eq!(path_from_uri(&uri, '/').unwrap(), "/home/me/main.rs");
    assert_eq!(path_from_uri("https://example.com", '/'), None);
}

#[test]
fn severity_codes_map_to_the_right_variant() {
    assert_eq!(severity_from(Some(1)), DiagnosticSeverity::Error);
    assert_eq!(severity_from(Some(2)), DiagnosticSeverity::Warning);
    assert_eq!(severity_from(Some(3)), DiagnosticSeverity::Information);
    assert_eq!(severity_from(Some(4)), DiagnosticSeverity::Hint);
    assert_eq!(severity_from(None), DiagnosticSeverity::Hint);
}

#[test]
fn parses_a_publish_diagnostics_notification_into_core_diagnostics() {
    let text = r#"{
            "jsonrpc": "2.0",
            "method": "textDocument/publishDiagnostics",
            "params": {
                "uri": "file:///C:/proj/src/main.rs",
                "version": 7,
                "diagnostics": [
                    {"range": {"start": {"line": 2, "character": 4}, "end": {"line": 2, "character": 10}},
                     "severity": 1, "message": "unused variable: `x`"}
                ]
            }
        }"#;
    let value = parse(text).unwrap();
    let published = parse_publish_diagnostics(&value, '\\').unwrap();
    assert_eq!(published.path.replace('\\', "/"), "C:/proj/src/main.rs");
    assert_eq!(published.version, Some(7));
    assert_eq!(published.diagnostics.len(), 1);
    assert_eq!(published.diagnostics[0].line, 2);
    assert_eq!(published.diagnostics[0].start_column_chars, 4);
    assert_eq!(published.diagnostics[0].severity, DiagnosticSeverity::Error);
    assert_eq!(published.diagnostics[0].message, "unused variable: `x`");
}

#[test]
fn a_missing_version_field_parses_as_none_rather_than_failing() {
    let text = r#"{
            "jsonrpc": "2.0",
            "method": "textDocument/publishDiagnostics",
            "params": {"uri": "file:///C:/proj/src/main.rs", "diagnostics": []}
        }"#;
    let value = parse(text).unwrap();
    let published = parse_publish_diagnostics(&value, '/').unwrap();
    assert_eq!(
        published.version, None,
        "a server that never echoes a version is a supported case, not an error"
    );
}

#[test]
fn a_non_diagnostics_message_is_not_mistaken_for_one() {
    let value = parse(r#"{"jsonrpc":"2.0","id":1,"result":{}}"#).unwrap();
    assert!(parse_publish_diagnostics(&value, '/').is_none());
}

#[test]
fn a_content_length_framed_message_round_trips() {
    let body = r#"{"jsonrpc":"2.0","method":"x","params":{}}"#;
    let framed = format!("Content-Length: {}\r\n\r\n{}", body.len(), body);
    let mut reader = reader(&framed);
    let read = read_one_message(&mut reader).unwrap();
    assert_eq!(read, body);
    assert_eq!(frame(body), framed);
}

#[test]
fn messages_are_read_one_after_the_other() {
    let mut reader = reader(&format!("{}{}", frame("one"), frame("zw\u{f6}lf")));
    assert_eq!(read_one_message(&mut reader).unwrap(), "one");
    assert_eq!(read_one_message(&mut reader).unwrap(), "zw\u{f6}lf");
    assert_eq!(read_one_message(&mut reader), None);
}

#[test]
fn a_message_that_breaks_off_or_is_not_text_is_refused() {
    assert_eq!(read_one_message(&mut reader("Content-Length: 10\r\n\r\nshort")), None);
    assert_eq!(read_one_message(&mut reader("Content-Type: x\r\n\r\n{}")), None);
    assert_eq!(read_one_message(&mut reader("Content-Length: many\r\n\r\n{}")), None);
    let mut garbled = Reader { bytes: b"Content-Length: 2\r\n\r\n\xff\xfe".to_vec(), at: 0 };
    assert_eq!(read_one_message(&mut garbled), None);
}

#[test]
fn reading_goes_on_behind_what_was_refused() {
    let mut without_length = reader(&format!("Content-Type: x\r\n\r\n{}", frame("next")));
    assert_eq!(read_one_message(&mut without_length), None);
    assert_eq!(read_one_message(&mut without_length).as_deref(), Some("next"));

    let mut bytes = b"Content-Length: 2\r\n\r\n\xff\xfe".to_vec();
    bytes.extend(frame("next").into_bytes());
    let mut garbled_body = Reader { bytes, at: 0 };
    assert_eq!(read_one_message(&mut garbled_body), None);
    assert_eq!(read_one_message(&mut garbled_body).as_deref(), Some("next"));

    let mut bytes = b"\xff\xfe\n".to_vec();
    bytes.extend(frame("next").into_bytes());
    let mut garbled_header = Reader { bytes, at: 0 };
    assert_eq!(read_one_message(&mut garbled_header), None);
    assert_eq!(garbled_header.at, 3);
    assert_eq!(read_one_message(&mut garbled_header).as_deref(), Some("next"));

    let mut cut = reader("Content-Length: 10\r\n\r\nshort");
    assert_eq!(read_one_message(&mut cut), None);
    assert_eq!(cut.at, cut.bytes.len(), "nothing is left");
}

#[test]
fn the_last_length_header_counts() {
    let mut headers = Headers::new();
    assert!(!headers.read("Content-Length: 5\r\n"));
    assert!(!headers.read("Content-Type: text\r\n"));
    assert_eq!(headers.length, Some(5));
    assert!(!headers.read("Content-Length: 7\r\n"));
    assert!(headers.read("\r\n"));
    assert_eq!(headers.length, Some(7));
}

#[test]
fn no_server_is_configured_for_plain_text() {
    assert!(servers_for(Language::PlainText).is_empty());
}

#[test]
fn every_language_but_plain_text_has_a_server_configured() {
    for language in Language::all() {
        let servers = servers_for(language);
        if language == Language::PlainText {
            assert!(servers.is_empty(), "plain text has no language to serve");
            continue;
        }
        assert!(!servers.is_empty(), "{} has no server configured", language.name());
    }
}

#[test]
fn every_server_spec_is_runnable_as_written() {
    for language in Language::all() {
        for server in servers_for(language) {
            assert!(!server.binary.is_empty(), "{} has a nameless binary", language.name());
            assert!(
                !server.binary.contains(' '),
                "{}: binary {:?} smuggles arguments into the executable name",
                language.name(),
                server.binary
            );
            assert!(!server.language_id.is_empty(), "{} has an empty languageId", language.name());
            assert_eq!(
                server.language_id.to_ascii_lowercase(),
                server.language_id,
                "{}: languageId {:?} is not the protocol's lowercase form",
                language.name(),
                server.language_id
            );
        }
    }
}

#[test]
fn every_candidate_for_a_language_agrees_on_its_language_id() {
    for language in Language::all() {
        let servers = servers_for(language);
        let Some(first) = servers.first() else { continue };
        for server in &servers {
            assert_eq!(
                server.language_id,
                first.language_id,
                "{} candidates disagree on languageId",
                language.name()
            );
        }
        assert_eq!(language_id_for(language), Some(first.language_id));
    }
}

#[test]
fn language_ids_are_the_names_the_protocol_actually_uses() {
    let id = |language| language_id_for(language);
    assert_eq!(id(Language::Rust), Some("rust"));
    assert_eq!(id(Language::Python), Some("python"));
    assert_eq!(id(Language::C), Some("c"));
    assert_eq!(id(Language::Cpp), Some("cpp"));
    assert_eq!(id(Language::CSharp), Some("csharp"));
    assert_eq!(id(Language::Go), Some("go"));
    assert_eq!(id(Language::JavaScript), Some("javascript"));
    assert_eq!(id(Language::TypeScript), Some("typescript"));
    assert_eq!(id(Language::Json), Some("json"));
    assert_eq!(id(Language::Yaml), Some("yaml"));
    assert_eq!(id(Language::Toml), Some("toml"));
    assert_eq!(id(Language::Markdown), Some("markdown"));
    assert_eq!(id(Language::Shell), Some("shellscript"));
    assert_eq!(id(Language::PlainText), None);
}

#[test]
fn a_language_with_no_server_never_becomes_a_client() {
    let manager = LspManager::new();
    assert_eq!(manager.client_for(Language::PlainText), ServerPlan::Without);
    assert!(manager.is_empty());
    assert!(manager.running().is_empty());
}

#[test]
fn a_language_whose_server_is_not_installed_is_only_attempted_once() {
    let mut manager = LspManager::new();
    assert_eq!(manager.client_for(Language::Go), ServerPlan::Start);
    manager.failed(Language::Go);
    assert_eq!(manager.client_for(Language::Go), ServerPlan::Without);
    assert!(manager.is_empty(), "a failed spawn must not leave a client behind");
}

#[test]
fn the_manager_holds_one_client_per_language_not_one_overall() {
    let mut manager = LspManager::new();
    assert!(manager.running().is_empty());
    let rust = servers_for(Language::Rust)[0].binary;
    let python = servers_for(Language::Python)[0].binary;
    assert_ne!(rust, python);

    manager.started(Language::Rust);
    assert_eq!(manager.client_for(Language::Rust), ServerPlan::Reuse);
    assert_eq!(manager.client_for(Language::Python), ServerPlan::Start);
    manager.started(Language::Python);
    assert_eq!(manager.running().len(), 2);
    manager.retire_dead(&vec![Language::Rust]);
    assert_eq!(manager.running(), vec![Language::Python]);
    assert_eq!(manager.client_for(Language::Rust), ServerPlan::Start);
}

#[test]
fn no_more_servers_run_than_may() {
    let mut manager = LspManager::new();
    let languages = [
        Language::Rust,
        Language::Python,
        Language::Go,
        Language::C,
        Language::Json,
    ];
    for language in languages.into_iter().take(MAX_SERVERS) {
        assert_eq!(manager.client_for(language), ServerPlan::Start);
        manager.started(language);
    }
    assert_eq!(manager.client_for(Language::Json), ServerPlan::Without);
    assert_eq!(manager.client_for(Language::Rust), ServerPlan::Reuse);
}

#[test]
fn what_is_sent_is_framed_json_a_server_can_read() {
    let mut client = LspClient::new();
    let mut pipe = client.initialize("/home/me/project");
    pipe.push_str(&client.initialized());
    pipe.push_str(&client.notify_opened("/home/me/a.rs", Language::Rust, "fn \"x\"\n").unwrap());
    pipe.push_str(&client.notify_saved("/home/me/a.rs", "changed"));
    assert!(client.notify_opened("/home/me/a.txt", Language::PlainText, "hi").is_none());
    assert!(client.can_send());

    let mut reader = reader(&pipe);
    let first = parse(&read_one_message(&mut reader).unwrap()).unwrap();
    assert_eq!(first.get("method").unwrap().as_str(), Some("initialize"));
    assert_eq!(first.get("id").unwrap().as_u64(), Some(1));
    let params = first.get("params").unwrap();
    assert_eq!(params.get("rootUri").unwrap().as_str(), Some("file:///home/me/project"));

    let second = parse(&read_one_message(&mut reader).unwrap()).unwrap();
    assert_eq!(second.get("method").unwrap().as_str(), Some("initialized"));
    assert!(second.get("id").is_none(), "a notification is not answered");

    let third = parse(&read_one_message(&mut reader).unwrap()).unwrap();
    let document = third.get("params").unwrap().get("textDocument").unwrap();
    assert_eq!(document.get("languageId").unwrap().as_str(), Some("rust"));
    assert_eq!(document.get("text").unwrap().as_str(), Some("fn \"x\"\n"));
    assert_eq!(document.get("version").unwrap().as_u64(), Some(1));

    let fourth = parse(&read_one_message(&mut reader).unwrap()).unwrap();
    assert_eq!(fourth.get("method").unwrap().as_str(), Some("textDocument/didChange"));
    let params = fourth.get("params").unwrap();
    assert_eq!(params.get("textDocument").unwrap().get("version").unwrap().as_u64(), Some(3));
    assert_eq!(read_one_message(&mut reader), None);
}

#[test]
fn versions_applied_to_a_file_never_go_down() {
    let mut applied = AppliedVersions::new();
    assert!(applied.accept("a.rs", Some(3)));
    assert!(!applied.accept("a.rs", Some(2)));
    assert!(applied.accept("b.rs", Some(2)), "each file has versions of its own");
    assert!(applied.accept("a.rs", None));
    assert!(!applied.accept("a.rs", Some(2)));
    let update = |version| Published { path: "a.rs".to_string(), version, diagnostics: vec![] };
    let kept = applied.screen(vec![update(Some(2)), update(Some(5)), update(Some(4))]);
    assert_eq!(kept, vec![update(Some(5))]);
}

#[test]
fn a_document_is_announced_once_and_its_saves_each_once() {
    let facts = |persistence| {
        Some(SyncFacts { document: 7, loading: false, has_path: true, persistence })
    };
    let mut sync = DocumentSync::new();
    assert_eq!(sync.sync(None), SyncAction::Quiet);
    assert_eq!(sync.sync(facts(PersistenceState::NeverSaved)), SyncAction::Opened);
    assert_eq!(sync.sync(facts(PersistenceState::NeverSaved)), SyncAction::Quiet);
    assert_eq!(sync.sync(facts(PersistenceState::Saving)), SyncAction::Quiet);
    assert_eq!(sync.sync(facts(PersistenceState::SaveSucceeded)), SyncAction::Saved);
    assert_eq!(sync.sync(facts(PersistenceState::SaveSucceeded)), SyncAction::Quiet);
    sync.retire(&vec![(7, Language::Rust)], Language::Rust);
    assert_eq!(sync.sync(facts(PersistenceState::SaveSucceeded)), SyncAction::Opened);
}
