use wm::codex::CodexReadError;
use wm::commands::{compile_message, compression_message, hook_response, parse_compression_response, status_report, PushResult, push_outcome};
use wm::distill::{categorization_message, empty_extraction, extraction_message, pass1_record, pass1_try_cached, session_status, session_transcript, Pass1State};
use wm::checkpoint::{ExtractionCache, SessionExtraction};
use wm::transcript::decode_line;
use wm::dive::{default_prep_content, dive_document, git_context_summary, prep_list_line};
use wm::session::{get_project_dir, select_codex_sessions, session_id_from_file_name, CodexSessionInfo, SessionInfo};
use wm::time::Timestamp;
use wm::state::{prep_name_of_file, Config};
use wm::transcript::ReadError;

#[test]
fn error_messages() {
    assert_eq!(ReadError::Io("gone".to_string()).message(), "IO error: gone");
    assert_eq!(CodexReadError::IoError("denied".to_string()).message(), "IO error: denied");
}

#[test]
fn project_and_file_names() {
    assert_eq!(get_project_dir("/home/u/.cfg/projects", "/a/b"), "/home/u/.cfg/projects/-a-b");
    assert_eq!(session_id_from_file_name("1234-abcd.jsonl"), Some("1234-abcd".to_string()));
    assert_eq!(session_id_from_file_name(".jsonl"), None);
    assert_eq!(session_id_from_file_name("notes.txt"), None);
    assert_eq!(prep_name_of_file("focus.md"), Some("focus".to_string()));
    assert_eq!(prep_name_of_file(".md"), None);
}

#[test]
fn requests_are_framed() {
    assert_eq!(compile_message("K", None), "ACCUMULATED KNOWLEDGE:\nK\n\nUSER'S CURRENT INTENT:\ngeneral coding task\n\nRELEVANT KNOWLEDGE:");
    assert_eq!(compression_message("S"), "CURRENT STATE TO COMPRESS:\n\nS\n\nOUTPUT:");
    assert_eq!(extraction_message("T"), "TRANSCRIPT:\nT\n\nOUTPUT:");
    assert_eq!(categorization_message("R"), "Categorize these extracted insights:\n\nR\n\nOUTPUT:");
    assert_eq!(session_status(false, true), "new/changed");
    assert_eq!(session_status(false, false), "cached");
}

#[test]
fn compression_reply_is_read_through_the_envelope() {
    let r = parse_compression_response(r#"{"result":"WAS_COMPRESSED: YES\nshort"}"#).unwrap();
    assert!(r.was_compressed);
    assert_eq!(r.content, "short");
    assert!(parse_compression_response("{}").is_err());
}

#[test]
fn hook_and_status_output() {
    let r = hook_response(Some("ctx".to_string()));
    let o = r.hook_specific_output.unwrap();
    assert_eq!(o.hook_event_name, "UserPromptSubmit");
    assert_eq!(o.additional_context, Some("ctx".to_string()));
    assert!(hook_response(None).hook_specific_output.is_none());
    let mut c = Config::default();
    c.operations.compile = false;
    assert_eq!(status_report(&c), "extract: running\ncompile: paused");
}

#[test]
fn push_outcome_fails_only_when_nothing_went_through() {
    let mut r = PushResult::new();
    assert!(push_outcome(&r).is_ok());
    r.record_failure(&"x".repeat(60), "boom".to_string());
    assert_eq!(r.errors[0].0, format!("{}...", "x".repeat(50)));
    assert_eq!(push_outcome(&r), Err("All items failed to push to OH".to_string()));
    r.record_success(true);
    assert!(push_outcome(&r).is_ok());
}

#[test]
fn dive_scaffolding() {
    assert_eq!(default_prep_content("x"), "# Dive: x\n\nIntent: \n\n## Focus\n\n## Constraints\n");
    assert_eq!(prep_list_line("a", Some("a")), "* a");
    assert_eq!(prep_list_line("a", None), "  a");
    assert_eq!(
        git_context_summary(Some("main\n"), Some(" M a\n?? b\n"), Some("abc one\ndef two\n")),
        Ok("- Branch: `main`\n- 2 uncommitted change(s)\n\nRecent commits:\n  abc one\n  def two".to_string())
    );
    assert_eq!(git_context_summary(None, Some(""), None), Ok("- Working tree clean".to_string()));
    assert_eq!(git_context_summary(None, None, None), Err("Not a git repository".to_string()));
    let doc = dive_document("ship", "2025-01-01", Some("release"), None, Some("- Branch: `x`"));
    assert!(doc.starts_with("# Dive Session\n\n**Intent:** ship\n**Started:** 2025-01-01\n**Focus:** release\n\n## Context\n\n### Git State\n\n- Branch: `x`\n\n## Workflow\n\n1. Verify all tests pass"));
}

#[test]
fn codex_sessions_filter_by_working_directory_newest_first() {
    let mk = |id: &str, cwd: Option<&str>, secs: i64| CodexSessionInfo {
        session_id: id.to_string(),
        session_path: format!("/s/{}.jsonl", id),
        cwd: cwd.map(String::from),
        modified_at: Timestamp { secs, nanos: 0 },
        size_bytes: 1,
    };
    let all = || vec![mk("a", Some("/work/wm"), 1), mk("b", None, 3), mk("c", Some("/work/wm/sub"), 2), mk("d", Some("/other"), 4)];
    let ids = |v: Vec<CodexSessionInfo>| v.into_iter().map(|s| s.session_id).collect::<Vec<_>>();
    assert_eq!(ids(select_codex_sessions(all(), Some("/work/wm"))), vec!["c", "a"]);
    assert_eq!(ids(select_codex_sessions(all(), None)), vec!["d", "b", "c", "a"]);
}

#[test]
fn first_pass_steps() {
    let info = |id: &str, size: u64| SessionInfo {
        session_id: id.to_string(),
        transcript_path: String::new(),
        modified_at: Timestamp { secs: 0, nanos: 0 },
        size_bytes: size,
    };
    let done = |id: &str, size: u64| SessionExtraction {
        session_id: id.to_string(),
        extracted_at: Timestamp { secs: 1_700_000_000, nanos: 0 },
        has_knowledge: true,
        content: format!("k-{}", id),
        file_size_bytes: size,
    };
    let mut cache = ExtractionCache::new();
    cache.insert(done("a", 5));
    let mut state = Pass1State::new(cache);
    assert!(pass1_try_cached(&mut state, &info("a", 5), false));
    assert_eq!(state.skipped, 1);
    assert_eq!(state.results[0].content, "k-a");
    assert!(!pass1_try_cached(&mut state, &info("a", 5), true));
    assert!(!pass1_try_cached(&mut state, &info("b", 1), false));
    assert_eq!(pass1_record(&mut state, &info("b", 1), Ok(done("b", 1)), "T"), None);
    assert_eq!(state.processed, 1);
    assert_eq!(state.cache.get("b").unwrap().content, "k-b");
    let line = pass1_record(&mut state, &info("c", 1), Err("bad\nthing".to_string()), "T");
    assert_eq!(line, Some("[T] Session c: bad | thing\n".to_string()));
    assert_eq!(state.failed, 1);
    assert_eq!(state.results.len(), 2);
    assert!(state.cache.get("c").is_none());
}

#[test]
fn a_session_without_records_needs_no_call() {
    let other = decode_line(r#"{"type":"user","sessionId":"x","timestamp":"2025-01-15T10:00:00Z","message":{"role":"user","content":"hi"}}"#).unwrap();
    let entries = vec![other];
    assert_eq!(session_transcript(&entries, "s"), None);
    assert_eq!(session_transcript(&entries, "x"), Some("USER: hi\n\n".to_string()));
    let e = empty_extraction(&SessionInfo { session_id: "s".to_string(), transcript_path: String::new(), modified_at: Timestamp { secs: 0, nanos: 0 }, size_bytes: 7 }, Timestamp { secs: 1, nanos: 0 });
    assert!(!e.has_knowledge && e.content.is_empty() && e.file_size_bytes == 7);
}
