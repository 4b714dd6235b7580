use wm::codex::{
    format_context as codex_format_context, is_codex_session_file, parse_codex_session,
    strip_environment_context, summarize_tool_args, CodexEntry,
};
use wm::commands::truncate_for_error;
use wm::distill::{format_categorized_output, parse_bullet_item, parse_categorization_response};
use wm::oracle::parse_marker_response;
use wm::render::strip_system_reminders;
use wm::select::get_messages_since;
use wm::session::compute_project_id;
use wm::transcript::{decode_line, TranscriptEntry};

fn codex(json: &str) -> CodexEntry {
    let mut parsed = parse_codex_session(json);
    assert!(parsed.skipped_lines.is_empty());
    parsed.entries.pop().unwrap()
}

fn entry(json: &str) -> TranscriptEntry {
    decode_line(json).unwrap()
}

#[test]
fn test_strip_environment_context() {
    let text = "<environment_context>\n  <cwd>/test</cwd>\n</environment_context>\n\nActual message";
    let cleaned = strip_environment_context(text);
    assert_eq!(cleaned, "Actual message");
}

#[test]
fn test_strip_environment_context_no_tag() {
    let text = "Just a normal message";
    let cleaned = strip_environment_context(text);
    assert_eq!(cleaned, "Just a normal message");
}

#[test]
fn test_summarize_shell_args() {
    let args = r#"{"command":["zsh","-lc","ls -la"],"workdir":"/test"}"#;
    let summary = summarize_tool_args("shell", args);
    assert_eq!(summary, "ls -la");
}

#[test]
fn test_format_context_basic() {
    let entries = vec![
        codex(r#"{"timestamp":"t","type":"event_msg","payload":{"type":"user_message","message":"Hello"}}"#),
        codex(r#"{"timestamp":"t","type":"event_msg","payload":{"type":"agent_message","message":"Hi there"}}"#),
    ];
    let formatted = codex_format_context(&entries);
    assert!(formatted.contains("USER: Hello"));
    assert!(formatted.contains("ASSISTANT: Hi there"));
}

#[test]
fn test_is_codex_session_file() {
    assert!(is_codex_session_file("rollout-2025-11-03T19-16-00-uuid.jsonl"));
    assert!(!is_codex_session_file("other.jsonl"));
    assert!(!is_codex_session_file("rollout-test.txt"));
}

#[test]
fn test_parse_session_meta() {
    let json = r#"{"timestamp":"2025-11-04T00:16:00.093Z","type":"session_meta","payload":{"id":"test-id","cwd":"/test/path"}}"#;
    let entry = codex(json);
    assert!(entry.is_session_meta());
    assert_eq!(entry.session_cwd(), Some("/test/path"));
    assert_eq!(entry.session_id(), Some("test-id"));
}

#[test]
fn test_parse_user_message() {
    let json = r#"{"timestamp":"2025-11-04T00:16:00.102Z","type":"event_msg","payload":{"type":"user_message","message":"Hello world","images":[]}}"#;
    let entry = codex(json);
    assert!(entry.is_user_message());
    assert_eq!(entry.user_message_text(), Some("Hello world"));
}

#[test]
fn test_parse_agent_reasoning() {
    let json = r#"{"timestamp":"2025-11-04T00:16:08.855Z","type":"event_msg","payload":{"type":"agent_reasoning","text":"**Thinking about this**"}}"#;
    let entry = codex(json);
    assert!(entry.is_agent_reasoning());
    assert_eq!(entry.agent_reasoning_text(), Some("**Thinking about this**"));
}

#[test]
fn test_parse_function_call() {
    let json = r#"{"timestamp":"2025-11-04T00:16:08.870Z","type":"response_item","payload":{"type":"function_call","name":"shell","arguments":"{\"command\":[\"ls\"]}","call_id":"test"}}"#;
    let entry = codex(json);
    assert!(entry.is_function_call());
    assert_eq!(entry.function_call_name(), Some("shell"));
}

#[test]
fn test_is_relevant() {
    let user_msg = r#"{"timestamp":"t","type":"event_msg","payload":{"type":"user_message","message":"test"}}"#;
    let token_count = r#"{"timestamp":"t","type":"event_msg","payload":{"type":"token_count","info":null}}"#;
    let user_entry = codex(user_msg);
    let token_entry = codex(token_count);
    assert!(user_entry.is_relevant());
    assert!(!token_entry.is_relevant());
}

#[test]
fn test_parse_categorization_response_basic() {
    let response = r#"GUARDRAILS:
- Never commit .env files
- Always run tests before pushing

METIS:
- Prefer functional approaches when possible
- Check existing patterns before adding new code"#;

    let result = parse_categorization_response(response).unwrap();

    assert_eq!(result.guardrails.len(), 2);
    assert_eq!(result.guardrails[0], "Never commit .env files");
    assert_eq!(result.guardrails[1], "Always run tests before pushing");

    assert_eq!(result.metis.len(), 2);
    assert_eq!(result.metis[0], "Prefer functional approaches when possible");
    assert_eq!(result.metis[1], "Check existing patterns before adding new code");
}

#[test]
fn test_parse_categorization_response_with_colons() {
    let response = r#"GUARDRAILS:
- Never do this: commit secrets
- Always do that: run linter

METIS:
- User preference: concise messages"#;

    let result = parse_categorization_response(response).unwrap();

    assert_eq!(result.guardrails.len(), 2);
    assert_eq!(result.guardrails[0], "Never do this: commit secrets");

    assert_eq!(result.metis.len(), 1);
    assert_eq!(result.metis[0], "User preference: concise messages");
}

#[test]
fn test_parse_categorization_response_empty_sections() {
    let response = r#"GUARDRAILS:

METIS:
- Only metis here"#;

    let result = parse_categorization_response(response).unwrap();

    assert_eq!(result.guardrails.len(), 0);
    assert_eq!(result.metis.len(), 1);
}

#[test]
fn test_parse_categorization_response_asterisk_bullets() {
    let response = r#"GUARDRAILS:
* Item with asterisk

METIS:
* Another asterisk item"#;

    let result = parse_categorization_response(response).unwrap();

    assert_eq!(result.guardrails.len(), 1);
    assert_eq!(result.guardrails[0], "Item with asterisk");
}

#[test]
fn test_parse_bullet_item() {
    assert_eq!(parse_bullet_item("- item"), Some("item".to_string()));
    assert_eq!(parse_bullet_item("* item"), Some("item".to_string()));
    assert_eq!(parse_bullet_item("• item"), Some("item".to_string()));
    assert_eq!(parse_bullet_item("  - indented"), Some("indented".to_string()));
    assert_eq!(parse_bullet_item(""), None);
    assert_eq!(parse_bullet_item("  "), None);
    assert_eq!(parse_bullet_item("-"), None);
}

#[test]
fn test_format_categorized_output() {
    let items = vec!["First item".to_string(), "Second item".to_string()];
    let output = format_categorized_output("Test", &items);

    assert!(output.starts_with("# Test\n\n"));
    assert!(output.contains("- First item\n"));
    assert!(output.contains("- Second item\n"));
}

#[test]
fn test_parse_marker_yes() {
    let text = "HAS_KNOWLEDGE: YES\n- First insight\n- Second insight";
    let result = parse_marker_response(text, "HAS_KNOWLEDGE");
    assert!(result.is_positive);
    assert_eq!(result.content, "- First insight\n- Second insight");
}

#[test]
fn test_parse_marker_no() {
    let text = "HAS_KNOWLEDGE: NO";
    let result = parse_marker_response(text, "HAS_KNOWLEDGE");
    assert!(!result.is_positive);
    assert!(result.content.is_empty());
}

#[test]
fn test_parse_marker_with_markdown() {
    let text = "## HAS_RELEVANT: TRUE\nSome content here";
    let result = parse_marker_response(text, "HAS_RELEVANT");
    assert!(result.is_positive);
    assert_eq!(result.content, "Some content here");
}

#[test]
fn test_parse_marker_not_found() {
    let text = "No markers here";
    let result = parse_marker_response(text, "HAS_KNOWLEDGE");
    assert!(!result.is_positive);
    assert!(result.content.is_empty());
}

#[test]
fn test_truncate_for_error_short() {
    assert_eq!(truncate_for_error("short"), "short");
}

#[test]
fn test_truncate_for_error_long() {
    let long = "a".repeat(100);
    let truncated = truncate_for_error(&long);
    assert!(truncated.ends_with("..."));
    assert_eq!(truncated.len(), 53);
}

#[test]
fn test_truncate_for_error_utf8() {
    let emoji_content = "🎉".repeat(60);
    let truncated = truncate_for_error(&emoji_content);
    assert!(truncated.ends_with("..."));
    assert_eq!(truncated.chars().count(), 53);
}

#[test]
fn test_compute_project_id() {
    let id = compute_project_id("/Users/drazen/playground/ai-omnibus/wm");
    assert!(id.starts_with("-"));
    assert!(id.contains("-wm"));
    assert!(!id.contains("/"));
}

#[test]
fn test_parse_user_entry() {
    let json = r#"{"type":"user","uuid":"abc","parentUuid":null,"sessionId":"sess-1","timestamp":"2025-01-15T10:00:00Z","message":{"role":"user","content":"hello"}}"#;
    let entry = entry(json);
    assert!(entry.is_user());
    assert_eq!(entry.session_id(), Some("sess-1"));
    assert_eq!(entry.user_text(), Some("hello".to_string()));
}

#[test]
fn test_parse_assistant_entry() {
    let json = r#"{"type":"assistant","uuid":"def","parentUuid":"abc","sessionId":"sess-1","timestamp":"2025-01-15T10:00:01Z","message":{"role":"assistant","content":[{"type":"text","text":"hi there"}]}}"#;
    let entry = entry(json);
    assert!(entry.is_assistant());
    assert_eq!(entry.assistant_text(), Some("hi there".to_string()));
}

#[test]
fn test_parse_unknown_type() {
    let json = r#"{"type":"some-new-type","data":"whatever"}"#;
    let entry = entry(json);
    assert!(matches!(entry, TranscriptEntry::Unknown));
}

#[test]
fn test_strip_system_reminders_single() {
    let text = "Hello <system-reminder>workflow stuff</system-reminder> world";
    assert_eq!(strip_system_reminders(text), "Hello  world");
}

#[test]
fn test_strip_system_reminders_multiple() {
    let text = "<system-reminder>first</system-reminder>content<system-reminder>second</system-reminder>";
    assert_eq!(strip_system_reminders(text), "content");
}

#[test]
fn test_strip_system_reminders_none() {
    let text = "Just normal text";
    assert_eq!(strip_system_reminders(text), "Just normal text");
}

#[test]
fn test_session_filtering() {
    let msg_s1 = r#"{"type":"user","uuid":"a","sessionId":"s1","timestamp":"2025-01-15T10:00:00Z","message":{"role":"user","content":"Session 1"}}"#;
    let msg_s2 = r#"{"type":"user","uuid":"b","sessionId":"s2","timestamp":"2025-01-15T10:00:00Z","message":{"role":"user","content":"Session 2"}}"#;

    let entries: Vec<TranscriptEntry> = vec![entry(msg_s1), entry(msg_s2)];

    let result = get_messages_since(&entries, None, Some("s1"));
    assert_eq!(result.len(), 1);
    assert_eq!(result[0].user_text(), Some("Session 1".to_string()));

    let result = get_messages_since(&entries, None, Some("s2"));
    assert_eq!(result.len(), 1);
    assert_eq!(result[0].user_text(), Some("Session 2".to_string()));

    let result = get_messages_since(&entries, None, None);
    assert_eq!(result.len(), 2);
}
