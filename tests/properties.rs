use wm::checkpoint::{decode_cache, encode_cache, encode_checkpoint, needs_extraction, read_checkpoint, ExtractionCache, SessionExtraction};
use wm::codex::{format_context as codex_format_context, parse_codex_session, read_session_cwd};
use wm::commands::{apply_operation_switch, combine_working_set, intent_from_hook_input, plan_compile_hook, reduction_percent, run, HookPlan, ShowTarget};
use wm::distill::{accumulate_extractions, error_log_line, pass1_summary, should_extract, validate_options, DistillOptions};
use wm::dive::{config_value, dive_pack_markdown, get_workflow, is_valid_prep_name, summarize_claude_md, truncate};
use wm::extract::{finish_extraction, generative_extraction_message, plan_extraction};
use wm::oracle::{parse_marker_response, parse_oracle_output, MarkerResponse, OracleOutputError};
use wm::render::{format_context, strip_xml_tags, truncate_output_text};
use wm::select::{get_messages_in_window, get_messages_since};
use wm::session::{find_projects_by_filter, sort_by_name, sort_newest_first, str_before, ProjectInfo, SessionInfo};
use wm::state::{dive_prep_path, session_dir, wm_path, Config};
use wm::time::{carryover_start, Timestamp};
use wm::transcript::{decode_line, parse_transcript, TranscriptEntry};

fn entry(json: &str) -> TranscriptEntry {
    decode_line(json).unwrap()
}

fn user(session: &str, ts: &str, text: &str) -> TranscriptEntry {
    entry(&format!(
        r#"{{"type":"user","sessionId":"{}","timestamp":"{}","message":{{"role":"user","content":"{}"}}}}"#,
        session, ts, text
    ))
}

fn summary(text: &str) -> TranscriptEntry {
    entry(&format!(r#"{{"type":"summary","summary":"{}","leafUuid":"x"}}"#, text))
}

fn ts(s: &str) -> Timestamp {
    user("s", s, "x").instant().unwrap()
}

#[test]
fn parse_keeps_decodable_lines_in_order_and_counts_the_rest() {
    let text = [
        r#"{"type":"user","sessionId":"s","timestamp":"2025-01-15T10:00:00Z","message":{"role":"user","content":"one"}}"#,
        "\n{not json\n\n   \n",
        r#"{"type":"summary","summary":"sum"}"#,
        "\n[1,2]\n",
        r#"{"type":"user","message":{"role":"user"}}"#,
        "\n",
        r#"{"type":"file-history-snapshot"}"#,
        "\n",
    ]
    .join("");
    let parsed = parse_transcript(&text);
    assert_eq!(parsed.entries.len(), 3);
    assert_eq!(parsed.skipped_lines, vec![2, 6, 7]);
    assert_eq!(parsed.entries[0].user_text(), Some("one".to_string()));
    assert_eq!(parsed.entries[1].summary_text(), Some("sum"));
    assert!(matches!(parsed.entries[2], TranscriptEntry::Unknown));
}

#[test]
fn parse_of_empty_text_is_empty() {
    let parsed = parse_transcript("");
    assert!(parsed.entries.is_empty());
    assert!(parsed.skipped_lines.is_empty());
}

#[test]
fn since_keeps_newer_messages_of_the_session_and_all_summaries() {
    let entries = vec![
        user("s1", "2025-01-15T10:00:00Z", "old"),
        user("s1", "2025-01-15T10:10:00Z", "new"),
        user("s2", "2025-01-15T10:10:00Z", "other"),
        summary("compacted"),
        user("s1", "2025-01-15T10:05:00Z", "at cursor"),
    ];
    let cursor = ts("2025-01-15T10:05:00Z");
    let r = get_messages_since(&entries, Some(cursor), Some("s1"));
    assert_eq!(r.len(), 2);
    assert_eq!(r[0].user_text(), Some("new".to_string()));
    assert_eq!(r[1].summary_text(), Some("compacted"));
}

#[test]
fn checkpoint_scenario_splits_new_and_carryover() {
    let t0 = "2025-01-15T10:00:00Z";
    let t10 = "2025-01-15T10:10:00Z";
    let entries = vec![user("s", t0, "first"), user("s", t10, "second")];
    let cursor = ts("2025-01-15T10:05:00Z");
    let since = get_messages_since(&entries, Some(cursor), Some("s"));
    assert_eq!(since.len(), 1);
    assert_eq!(since[0].user_text(), Some("second".to_string()));
    let window = get_messages_in_window(&entries, ts(t0), cursor, Some("s"));
    assert_eq!(window.len(), 1);
    assert_eq!(window[0].user_text(), Some("first".to_string()));
    let start = carryover_start(&cursor);
    assert_eq!(start.secs, cursor.secs - 300);
    let plan = plan_extraction(&entries, Some(cursor), Some("s"));
    assert_eq!(plan.carryover, Some("USER: first\n\n".to_string()));
    assert_eq!(plan.transcript, Some("USER: second\n\n".to_string()));
    assert_eq!(plan.message_count, 1);
}

#[test]
fn first_run_reads_everything() {
    let entries = vec![user("s", "2025-01-15T10:00:00Z", "a")];
    let plan = plan_extraction(&entries, None, None);
    assert_eq!(plan.carryover, None);
    assert_eq!(plan.transcript, Some("USER: a\n\n".to_string()));
}

#[test]
fn rich_format_renders_labelled_blocks() {
    let assistant = entry(
        r#"{"type":"assistant","sessionId":"s","timestamp":"2025-01-15T10:00:01Z","message":{"role":"assistant","content":[{"type":"thinking","thinking":"hmm"},{"type":"tool_use","id":"t1","name":"Bash","input":{"command":"ls"}},{"type":"tool_use","id":"t2","name":"Other","input":{}},{"type":"text","text":"done"}]}}"#,
    );
    let long = "x".repeat(600);
    let result = entry(&format!(
        r#"{{"type":"user","sessionId":"s","timestamp":"2025-01-15T10:00:02Z","message":{{"role":"user","content":[{{"type":"tool_result","tool_use_id":"t1","content":"{}"}}]}}}}"#,
        long
    ));
    let u = entry(
        r#"{"type":"user","sessionId":"s","timestamp":"2025-01-15T10:00:00Z","message":{"role":"user","content":"hi <system-reminder>x</system-reminder>"}}"#,
    );
    let s = summary("earlier");
    let all = vec![&s, &u, &assistant, &result];
    let out = format_context(&all);
    let expected = format!(
        "SUMMARY: earlier\n\nUSER: hi\n\nTHINKING: hmm\n\nTOOLS: Bash(ls) Other \nASSISTANT: done\n\nTOOL_RESULT: {}...[truncated]\n\n",
        "x".repeat(500)
    );
    assert_eq!(out, expected);
    let none: Vec<&TranscriptEntry> = vec![];
    assert_eq!(format_context(&none), "");
}

#[test]
fn truncation_keeps_whole_characters() {
    let text = "é".repeat(300);
    let cut = truncate_output_text(&text);
    assert_eq!(cut, format!("{}...[truncated]", "é".repeat(250)));
    let four = format!("a{}", "🎉".repeat(200));
    let cut = truncate_output_text(&four);
    assert_eq!(cut, format!("a{}...[truncated]", "🎉".repeat(124)));
    assert_eq!(truncate_output_text("short"), "short");
    let exact = "y".repeat(500);
    assert_eq!(truncate_output_text(&exact), exact);
}

#[test]
fn stripping_twice_equals_stripping_once() {
    let text = "  a <environment_context>x</environment_context> b <environment_context>y";
    let once = strip_xml_tags(text, "<environment_context>", "</environment_context>");
    assert_eq!(once, "a  b");
    let twice = strip_xml_tags(&once, "<environment_context>", "</environment_context>");
    assert_eq!(once, twice);
}

#[test]
fn marker_scenarios() {
    let r = parse_marker_response("HAS_KNOWLEDGE: YES\n- a\n- b", "HAS_KNOWLEDGE");
    assert!(r.is_positive);
    assert_eq!(r.content, "- a\n- b");
    let r = parse_marker_response("## HAS_RELEVANT: TRUE\nX", "HAS_RELEVANT");
    assert!(r.is_positive);
    assert_eq!(r.content, "X");
    let r = parse_marker_response("no marker here", "HAS_KNOWLEDGE");
    assert!(!r.is_positive);
    assert_eq!(r.content, "");
}

#[test]
fn marker_value_is_case_insensitive_and_first_marker_decides() {
    let r = parse_marker_response("intro\n>**HAS_KNOWLEDGE: yes\n\n  body  \n", "HAS_KNOWLEDGE");
    assert!(r.is_positive);
    assert_eq!(r.content, "body");
    let r = parse_marker_response("HAS_KNOWLEDGE: false\nHAS_KNOWLEDGE: YES\nx", "HAS_KNOWLEDGE");
    assert!(!r.is_positive);
    assert_eq!(r.content, "");
}

fn info(id: &str, size: u64) -> SessionInfo {
    SessionInfo {
        session_id: id.to_string(),
        transcript_path: format!("/p/{}.jsonl", id),
        modified_at: Timestamp { secs: 1_700_000_000, nanos: 0 },
        size_bytes: size,
    }
}

fn extraction(id: &str, size: u64, content: &str) -> SessionExtraction {
    SessionExtraction {
        session_id: id.to_string(),
        extracted_at: Timestamp { secs: 1_700_000_100, nanos: 5_000 },
        has_knowledge: !content.is_empty(),
        content: content.to_string(),
        file_size_bytes: size,
    }
}

#[test]
fn needs_extraction_follows_cache_and_size() {
    let mut cache = ExtractionCache::new();
    assert!(needs_extraction(&info("a", 10), &cache));
    cache.insert(extraction("a", 10, "k"));
    assert!(!needs_extraction(&info("a", 10), &cache));
    assert!(needs_extraction(&info("a", 11), &cache));
    assert!(needs_extraction(&info("b", 10), &cache));
    assert!(should_extract(&info("a", 10), &cache, true));
    assert!(!should_extract(&info("a", 10), &cache, false));
    cache.insert(extraction("a", 12, "k2"));
    assert_eq!(cache.entries.len(), 1);
    assert_eq!(cache.get("a").unwrap().file_size_bytes, 12);
}

#[test]
fn checkpoint_round_trip() {
    let t = Timestamp { secs: 1_736_935_200, nanos: 123_456_789 };
    let text = encode_checkpoint(&t);
    assert!(text.contains("last_extracted"));
    assert_eq!(read_checkpoint(Some(&text)), Some(t));
    let whole = Timestamp { secs: 1_736_935_200, nanos: 0 };
    assert_eq!(read_checkpoint(Some(&encode_checkpoint(&whole))), Some(whole));
    assert_eq!(read_checkpoint(None), None);
    assert_eq!(read_checkpoint(Some("not json")), None);
    assert_eq!(read_checkpoint(Some(r#"{"last_extracted":"2025-01-15T10:00:00+02:00"}"#)), Some(ts("2025-01-15T08:00:00Z")));
}

#[test]
fn cache_file_round_trip() {
    let mut cache = ExtractionCache::new();
    cache.insert(extraction("a", 10, "know"));
    cache.insert(extraction("b", 18_446_744_073_709_551_615, ""));
    let text = encode_cache(&cache);
    assert!(text.contains("18446744073709551615"));
    let back = decode_cache(Some(&text));
    assert_eq!(back.entries.len(), 2);
    let a = back.get("a").unwrap();
    assert_eq!(a.file_size_bytes, 10);
    assert_eq!(a.content, "know");
    assert!(a.has_knowledge);
    assert_eq!(a.extracted_at, Timestamp { secs: 1_700_000_100, nanos: 5_000 });
    assert_eq!(back.get("b").unwrap().file_size_bytes, 18_446_744_073_709_551_615);
    assert!(decode_cache(None).entries.is_empty());
    assert!(decode_cache(Some(r#"{"a":{"session_id":"a"}}"#)).entries.is_empty());
}

#[test]
fn accumulate_keeps_sessions_with_knowledge() {
    let es = vec![extraction("a", 1, "alpha"), extraction("b", 1, ""), extraction("c", 1, "gamma")];
    assert_eq!(accumulate_extractions(&es), "## Session: a\n\nalpha\n\n## Session: c\n\ngamma");
}

#[test]
fn codex_format_covers_each_event_kind() {
    let text = [
        r#"{"timestamp":"t","type":"session_meta","payload":{"id":"x","cwd":"/w"}}"#, "\n",
        r#"{"timestamp":"t","type":"event_msg","payload":{"type":"user_message","message":"<environment_context>cwd</environment_context>\nDo it"}}"#, "\n",
        r#"{"timestamp":"t","type":"event_msg","payload":{"type":"agent_reasoning","text":"think"}}"#, "\n",
        r#"{"timestamp":"t","type":"event_msg","payload":{"type":"token_count","info":null}}"#, "\n",
        r#"{"timestamp":"t","type":"response_item","payload":{"type":"function_call","name":"read_file","arguments":"{\"path\":\"/a.rs\"}"}}"#, "\n",
        r#"{"timestamp":"t","type":"response_item","payload":{"type":"function_call_output","output":{"ok":true}}}"#, "\n",
        "garbage\n",
    ]
    .join("");
    let text = text.as_str();
    let parsed = parse_codex_session(text);
    assert_eq!(parsed.skipped_lines, vec![7]);
    let out = codex_format_context(&parsed.entries);
    assert_eq!(out, "USER: Do it\n\nTHINKING: think\n\nTOOL: read_file(/a.rs)\nTOOL_RESULT: {\"ok\":true}\n\n");
    assert_eq!(read_session_cwd(text), Some("/w".to_string()));
    let missing_payload = parse_codex_session(r#"{"timestamp":"t","type":"x"}"#);
    assert!(missing_payload.entries.is_empty());
    assert_eq!(missing_payload.skipped_lines, vec![1]);
}

#[test]
fn oracle_output_errors() {
    assert_eq!(parse_oracle_output(r#"{"result":"ok"}"#), Ok("ok".to_string()));
    assert_eq!(parse_oracle_output("nope"), Err(OracleOutputError::NotJson));
    assert_eq!(parse_oracle_output(r#"{"other":1}"#), Err(OracleOutputError::MissingResult));
}

#[test]
fn projects_match_ignoring_case() {
    let ps = vec![
        ProjectInfo { project_id: "-Users-me-WM".to_string(), project_dir: "/p/1".to_string(), session_count: 1 },
        ProjectInfo { project_id: "-Users-me-other".to_string(), project_dir: "/p/2".to_string(), session_count: 2 },
        ProjectInfo { project_id: "-srv-wm-tools".to_string(), project_dir: "/p/3".to_string(), session_count: 3 },
    ];
    let r = find_projects_by_filter(ps, "Wm");
    let ids: Vec<&str> = r.iter().map(|p| p.project_id.as_str()).collect();
    assert_eq!(ids, vec!["-Users-me-WM", "-srv-wm-tools"]);
}

#[test]
fn sessions_sort_newest_first() {
    let mut a = info("a", 1);
    a.modified_at = Timestamp { secs: 10, nanos: 0 };
    let mut b = info("b", 1);
    b.modified_at = Timestamp { secs: 30, nanos: 0 };
    let mut c = info("c", 1);
    c.modified_at = Timestamp { secs: 20, nanos: 0 };
    let r = sort_newest_first(vec![a, b, c]);
    let ids: Vec<&str> = r.iter().map(|s| s.session_id.as_str()).collect();
    assert_eq!(ids, vec!["b", "c", "a"]);
}

#[test]
fn command_decisions() {
    assert_eq!(run("state"), Ok(ShowTarget::State));
    assert_eq!(run("bogus"), Err("Unknown target: bogus. Use: state, working, sessions".to_string()));
    let mut config = Config::default();
    assert_eq!(apply_operation_switch(&mut config, Some("extract"), false), Ok("Paused: extract".to_string()));
    assert!(!config.operations.extract && config.operations.compile);
    assert!(apply_operation_switch(&mut config, Some("both"), true).is_err());
    assert_eq!(apply_operation_switch(&mut config, None, true), Ok("Resumed: extract, compile".to_string()));
    assert_eq!(reduction_percent(10, 4), 60);
    assert_eq!(reduction_percent(0, 4), 0);
    assert_eq!(reduction_percent(4, 10), 0);
    assert_eq!(plan_compile_hook(true, " ", "dive"), HookPlan::DiveContextOnly);
    assert_eq!(plan_compile_hook(false, "s", "dive"), HookPlan::Nothing);
    let answer = MarkerResponse { is_positive: true, content: "k".to_string() };
    assert_eq!(combine_working_set("D", &answer), Some("D\n\n---\n\n## Working Memory\n\nk".to_string()));
    assert_eq!(intent_from_hook_input(r#"{"prompt":"fix it"}"#), Some("fix it".to_string()));
    assert_eq!(intent_from_hook_input("  raw  "), Some("raw".to_string()));
    assert_eq!(intent_from_hook_input(""), None);
    let opts = DistillOptions { dry_run: false, force: false, push_to_oh: true, context_id: None, project: None };
    assert!(validate_options(&opts).is_err());
    assert_eq!(pass1_summary(3, 2, 0), "3 session(s) processed, 2 from cache");
    assert_eq!(error_log_line("T", "s", "a\nb"), "[T] Session s: a | b\n");
}

#[test]
fn extraction_outcome_moves_checkpoint_always() {
    let t = Timestamp { secs: 5, nanos: 0 };
    let neg = finish_extraction(MarkerResponse { is_positive: false, content: String::new() }, t);
    assert_eq!(neg.checkpoint, t);
    assert!(neg.new_state.is_none());
    let pos = finish_extraction(MarkerResponse { is_positive: true, content: "doc".to_string() }, t);
    assert_eq!(pos.new_state, Some("doc".to_string()));
    let m = generative_extraction_message("S", "T", Some("C"));
    assert_eq!(m, "CURRENT STATE:\nS\n\n--- PREVIOUS CONTEXT (for continuity) ---\nC\n--- END PREVIOUS CONTEXT ---\n\nNEW TRANSCRIPT:\nT\n\nOUTPUT:");
}

#[test]
fn paths_and_dive_helpers() {
    assert_eq!(wm_path(".wm", "state.md"), ".wm/state.md");
    assert_eq!(session_dir("/p/.wm", "abc"), "/p/.wm/sessions/abc");
    assert_eq!(dive_prep_path(".wm", "x"), ".wm/dives/x.md");
    assert!(is_valid_prep_name("my-prep-2"));
    assert!(!is_valid_prep_name("2prep"));
    assert!(!is_valid_prep_name("Bad"));
    assert!(!is_valid_prep_name(&"a".repeat(65)));
    assert!(get_workflow("fix").starts_with("1. Understand the issue"));
    assert!(get_workflow("anything").starts_with("1. Understand the problem space"));
    assert_eq!(truncate("héllo", 2), "h...");
    assert_eq!(truncate("hello", 10), "hello");
    assert_eq!(summarize_claude_md("intro\n# Title\nline one\nline two\n## Next\nlater"), "line one\nline two");
    assert_eq!(summarize_claude_md("no heading"), "no heading");
    assert_eq!(dive_pack_markdown(r##"{"rendered_md":"# Pack"}"##), Ok("# Pack".to_string()));
    assert_eq!(dive_pack_markdown(r#"{"error":"bad"}"#), Err("OH API error: \"bad\"".to_string()));
    assert_eq!(dive_pack_markdown("x"), Err("Failed to parse dive pack response".to_string()));
    assert_eq!(config_value(r#"{"api_url":"u"}"#, "api_url"), Ok("u".to_string()));
    assert_eq!(config_value(r#"{}"#, "k"), Err("Key 'k' not found in config".to_string()));
}

#[test]
fn names_sort_by_code_point() {
    let names = vec!["b".to_string(), "a-2".to_string(), "A".to_string(), "a".to_string(), "é".to_string()];
    let sorted = sort_by_name(names);
    assert_eq!(sorted, vec!["A", "a", "a-2", "b", "é"]);
    assert!(str_before("abc", "abd"));
    assert!(str_before("ab", "abc"));
    assert!(!str_before("abc", "abc"));
}

#[test]
fn cursor_excludes_unreadable_timestamps_but_keeps_missing_ones() {
    let bad = entry(r#"{"type":"user","sessionId":"s","timestamp":"yesterday","message":{"role":"user","content":"bad"}}"#);
    let none = entry(r#"{"type":"user","sessionId":"s","message":{"role":"user","content":"none"}}"#);
    let entries = vec![bad, none];
    let r = get_messages_since(&entries, Some(ts("2025-01-15T10:05:00Z")), Some("s"));
    assert_eq!(r.len(), 1);
    assert_eq!(r[0].user_text(), Some("none".to_string()));
}

#[test]
fn first_run_filters_summaries_by_session() {
    let own = entry(r#"{"type":"summary","summary":"own","sessionId":"s"}"#);
    let entries = vec![summary("foreign"), own, user("s", "2025-01-15T10:00:00Z", "m")];
    let r = get_messages_since(&entries, None, Some("s"));
    assert_eq!(r.len(), 2);
    assert_eq!(r[0].summary_text(), Some("own"));
    let all = get_messages_since(&entries, None, None);
    assert_eq!(all.len(), 3);
}

#[test]
fn stripping_reaches_a_fixpoint() {
    let text = "<sys<system-reminder>x</system-reminder>tem-reminder>y</system-reminder>";
    let once = strip_xml_tags(text, "<system-reminder>", "</system-reminder>");
    assert_eq!(once, "");
    assert_eq!(strip_xml_tags(&once, "<system-reminder>", "</system-reminder>"), once);
}

#[test]
fn marker_name_is_case_insensitive() {
    let r = parse_marker_response("has_knowledge: True\nX", "HAS_KNOWLEDGE");
    assert!(r.is_positive);
    assert_eq!(r.content, "X");
    let r = parse_marker_response("HAS_KNOWLEDGE yes\nX", "HAS_KNOWLEDGE");
    assert!(!r.is_positive);
}

#[test]
fn checkpoint_file_holds_one_member() {
    let t = Timestamp { secs: 1_736_935_200, nanos: 0 };
    let text = encode_checkpoint(&t);
    assert!(text.contains("\"last_extracted\": \"2025-01-15T10:00:00+00:00\""));
}

#[test]
fn sessions_of_the_same_time_keep_their_order() {
    let mk = |id: &str, secs: i64| {
        let mut s = info(id, 1);
        s.modified_at = Timestamp { secs, nanos: 0 };
        s
    };
    let r = sort_newest_first(vec![mk("x", 5), mk("y", 9), mk("z", 5), mk("w", 5)]);
    let ids: Vec<&str> = r.iter().map(|s| s.session_id.as_str()).collect();
    assert_eq!(ids, vec!["y", "x", "z", "w"]);
}
