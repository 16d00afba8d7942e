use roleplay::chat::{extract_tagged_block, quote_lines, Chat, ChatOptions, LineOutcome, Message, Role};
use roleplay::hint::{CommandHint, ShellHelper, TabEventHandler};
use roleplay::interview::{join_lines, Interviews, RolePlayingInterview};

fn vocabulary() -> Vec<CommandHint> {
    vec![
        CommandHint::new(":help", ":help"),
        CommandHint::new(":exit", ":exit"),
        CommandHint::new(":quit", ":quit"),
        CommandHint::new(":edit", ":edit"),
        CommandHint::new(":retry", ":retry"),
        CommandHint::new(":param", ":param"),
    ]
}

fn helper() -> ShellHelper {
    ShellHelper { commands: vocabulary(), hints: vocabulary() }
}

fn chat_with(messages: Vec<&str>) -> Chat {
    let mut chat = Chat::new(ChatOptions::default(), Some("be kind".to_string()));
    for m in messages {
        chat.submit(m.to_string());
    }
    chat
}

#[test]
fn hint_new_records_prefix_length() {
    let h = CommandHint::new(":model", ":mo");
    assert_eq!(h.display, ":model");
    assert_eq!(h.complete_up_to, 3);
    assert_eq!(h.display(), ":model");
    assert_eq!(h.replacement(), ":model");
}

#[test]
fn hint_suffix_strips_display_and_length() {
    let h = CommandHint::new(":retry", ":retry");
    let s = h.suffix(2);
    assert_eq!(s.display, "etry");
    assert_eq!(s.complete_up_to, 4);
}

#[test]
fn hint_suffix_floors_at_zero() {
    let h = CommandHint::new(":retry", ":r");
    let s = h.suffix(4);
    assert_eq!(s.display, "ry");
    assert_eq!(s.complete_up_to, 0);
    let all = h.suffix(6);
    assert_eq!(all.display, "");
    assert_eq!(all.complete_up_to, 0);
}

#[test]
fn hint_suffix_strip_equal_to_length() {
    let h = CommandHint::new("abcdef", "abc");
    let s = h.suffix(3);
    assert_eq!(s.display, "def");
    assert_eq!(s.complete_up_to, 0);
}

#[test]
fn hint_completion() {
    assert_eq!(CommandHint::new(":edit", ":ed").completion(), Some(":ed".to_string()));
    assert_eq!(CommandHint::new(":edit", "").completion(), None);
}

#[test]
fn complete_filters_and_strips() {
    let (pos, cands) = helper().complete(":e", 2);
    assert_eq!(pos, 2);
    let shown: Vec<(String, usize)> = cands.into_iter().map(|h| (h.display, h.complete_up_to)).collect();
    assert_eq!(shown, vec![("xit".to_string(), 3), ("dit".to_string(), 3)]);
}

#[test]
fn complete_uses_text_before_cursor_only() {
    let (pos, cands) = helper().complete(":pzzz", 2);
    assert_eq!(pos, 2);
    assert_eq!(cands.len(), 1);
    assert_eq!(cands[0].display, "aram");
}

#[test]
fn complete_empty_prefix_lists_all() {
    let (_, cands) = helper().complete("", 0);
    assert_eq!(cands.len(), 6);
    assert_eq!(cands[0].display, ":help");
}

#[test]
fn complete_no_match() {
    let (_, cands) = helper().complete("hello", 5);
    assert!(cands.is_empty());
}

#[test]
fn hint_from_vocabulary() {
    let h = helper().hint(":qu", 3, None).unwrap();
    assert_eq!(h.display, "it");
    assert_eq!(h.complete_up_to, 2);
}

#[test]
fn hint_prefers_history() {
    let h = helper().hint(":qu", 3, Some("ack now".to_string())).unwrap();
    assert_eq!(h.display, "ack now");
    assert_eq!(h.complete_up_to, 7);
}

#[test]
fn hint_needs_cursor_at_end_of_nonempty_line() {
    assert_eq!(helper().hint(":qu", 1, None), None);
    assert_eq!(helper().hint("", 0, Some("x".to_string())), None);
    assert_eq!(helper().hint("hello", 5, None), None);
}

#[test]
fn tab_after_whitespace_inserts_tab() {
    let t = TabEventHandler;
    assert!(t.inserts_tab("ab ", 3));
    assert!(t.inserts_tab("a\tb", 2));
    assert!(!t.inserts_tab("ab", 2));
    assert!(!t.inserts_tab(" ab", 0));
    assert!(t.inserts_tab("x\u{3000}", 2));
}

#[test]
fn tag_extraction_exact() {
    let got = extract_tagged_block("intro ```roleplay\nBODY\n``` outro");
    assert_eq!(got, Some("BODY".to_string()));
}

#[test]
fn tag_extraction_needs_closing() {
    assert_eq!(extract_tagged_block("intro ```roleplay\nBODY and more"), None);
}

#[test]
fn tag_extraction_needs_opening() {
    assert_eq!(extract_tagged_block("no fence here\n```"), None);
    assert_eq!(extract_tagged_block(""), None);
}

#[test]
fn tag_extraction_multiline_body() {
    let got = extract_tagged_block("```roleplay\nline one\nline two\n```\n```roleplay\nx\n```");
    assert_eq!(got, Some("line one\nline two".to_string()));
}

#[test]
fn assembly_ignores_granularity() {
    let a = Chat::assemble_assistant_response(vec![
        Some("Hello, ".to_string()),
        Some("world".to_string()),
        Some("!".to_string()),
    ]);
    let b = Chat::assemble_assistant_response(vec![Some("Hello".to_string()), Some(", world!".to_string())]);
    assert_eq!(a.content, "Hello, world!");
    assert_eq!(b.content, "Hello, world!");
    assert_eq!(a.role, Role::Assistant);
}

#[test]
fn assembly_skips_fragments_without_text() {
    let m = Chat::assemble_assistant_response(vec![None, Some("a".to_string()), None, Some("b".to_string())]);
    assert_eq!(m.content, "ab");
    let empty = Chat::assemble_assistant_response(vec![]);
    assert_eq!(empty.content, "");
}

#[test]
fn new_chat_with_and_without_system() {
    let c = Chat::new(ChatOptions::default(), None);
    assert!(c.messages.is_empty());
    let c = Chat::new(ChatOptions::default(), Some("sys".to_string()));
    assert_eq!(c.messages, vec![Message { role: Role::System, content: "sys".to_string() }]);
}

#[test]
fn default_options() {
    let o = ChatOptions::default();
    assert_eq!(o.ollama_host, None);
    assert_eq!(o.model, "mistral-small:24b-3.1-instruct-2503-fp16");
    assert_eq!(o.save, ".ipomrawh.save");
}

#[test]
fn unknown_command_changes_nothing() {
    let mut chat = chat_with(vec!["hi"]);
    let before = chat.messages.clone();
    let out = chat.handle_line(":bogus arg".to_string());
    assert!(matches!(out, LineOutcome::Unknown(ref w) if w == ":bogus"));
    assert_eq!(chat.messages, before);
    let again = chat.handle_line(":bogus".to_string());
    assert!(matches!(again, LineOutcome::Unknown(_)));
    assert_eq!(chat.messages.len(), 2);
}

#[test]
fn exit_words_end_session() {
    let mut chat = chat_with(vec![]);
    for w in [":exit", ":quit", ":wq", ":q"] {
        assert!(matches!(chat.handle_line(w.to_string()), LineOutcome::Exit));
    }
    assert_eq!(chat.messages.len(), 1);
}

#[test]
fn help_and_blank() {
    let mut chat = chat_with(vec![]);
    assert!(matches!(chat.handle_line(":help".to_string()), LineOutcome::Help));
    assert!(matches!(chat.handle_line("   ".to_string()), LineOutcome::Blank));
    assert_eq!(chat.messages.len(), 1);
}

#[test]
fn model_command_arguments() {
    let mut chat = chat_with(vec![]);
    assert!(matches!(chat.handle_line(":model".to_string()), LineOutcome::MissingModel));
    assert!(matches!(chat.handle_line(":model a b".to_string()), LineOutcome::ExtraArguments));
    assert_eq!(chat.options.model, "mistral-small:24b-3.1-instruct-2503-fp16");
    assert!(matches!(chat.handle_line(":model 'llama 3'".to_string()), LineOutcome::ModelChanged));
    assert_eq!(chat.options.model, "llama 3");
    assert_eq!(chat.messages.len(), 1);
}

#[test]
fn edit_and_reply_seed_the_editor() {
    let mut chat = Chat::new(ChatOptions::default(), None);
    assert!(matches!(chat.handle_line(":reply".to_string()), LineOutcome::Edit(ref s) if s.is_empty()));
    assert!(
        matches!(chat.handle_line(":edit".to_string()), LineOutcome::Edit(ref s) if s == "Replace this text with your prompt.")
    );
    chat.submit("first".to_string());
    assert!(matches!(chat.handle_line(":reply".to_string()), LineOutcome::Edit(ref s) if s == "first"));
}

#[test]
fn plain_line_is_submitted_verbatim() {
    let mut chat = chat_with(vec![]);
    let line = "tell me  \"a story\"".to_string();
    assert!(matches!(chat.handle_line(line.clone()), LineOutcome::Submitted));
    assert_eq!(chat.messages.last().unwrap(), &Message { role: Role::User, content: line });
}

#[test]
fn open_quote_runs_to_end_of_line() {
    let mut chat = chat_with(vec![]);
    assert!(matches!(chat.handle_line(":model 'big model".to_string()), LineOutcome::ModelChanged));
    assert_eq!(chat.options.model, "big model");
    assert_eq!(chat.messages.len(), 1);
}

#[test]
fn round_trip_appends_reply_and_extracts() {
    let mut chat = chat_with(vec!["go"]);
    let none = chat.finish_round_trip(vec![Some("just talk".to_string())]);
    assert_eq!(none, None);
    assert_eq!(chat.messages.len(), 3);
    assert_eq!(chat.messages[2], Message { role: Role::Assistant, content: "just talk".to_string() });
    let done = chat.finish_round_trip(vec![
        Some("ok ```role".to_string()),
        None,
        Some("play\nthe end\n```".to_string()),
    ]);
    assert_eq!(done, Some("the end".to_string()));
}

#[test]
fn quoting_for_echo() {
    assert_eq!(quote_lines("a\nb\n"), "... a\n... b");
    assert_eq!(quote_lines("a\nb"), "... a\n... b");
    assert_eq!(quote_lines(""), "");
    assert_eq!(quote_lines("\n"), "... ");
    assert_eq!(quote_lines("a\n\n"), "... a\n... ");
}

#[test]
fn join_lines_uses_newlines() {
    assert_eq!(join_lines(&vec!["a".to_string(), "b".to_string(), "c".to_string()]), "a\nb\nc");
    assert_eq!(join_lines(&vec![]), "");
    assert_eq!(join_lines(&vec!["one".to_string()]), "one");
}

fn interview(tag: &str) -> RolePlayingInterview {
    RolePlayingInterview {
        kind: tag.to_string(),
        introduction: format!("about {tag}"),
        system: vec![format!("common {tag}"), format!("specific {tag}")],
        xml_tag: tag.to_string(),
    }
}

#[test]
fn interviews_run_in_order() {
    let mut ints = Interviews::new(vec![interview("a"), interview("b"), interview("c")]);
    assert_eq!(ints.next_system(), Some("common a\nspecific a".to_string()));
    ints.record("X".to_string());
    assert_eq!(ints.next_system(), Some("common b\nspecific b<a>\nX\n</a>\n".to_string()));
    ints.record("Y".to_string());
    let third = ints.next_system().unwrap();
    assert!(third.contains("X"));
    assert!(third.contains("Y"));
    assert!(!third.contains("Z"));
    assert!(!ints.is_done());
    ints.record("Z".to_string());
    assert!(ints.is_done());
    assert_eq!(ints.next_system(), None);
    assert_eq!(ints.document, "<a>\nX\n</a>\n<b>\nY\n</b>\n<c>\nZ\n</c>\n");
}

#[test]
fn word_wrap_keeps_words_for_any_chunking() {
    let text = "the quick brown fox jumps over the lazy dog and keeps on running far away";
    for cut in [1usize, 3, 7, 11] {
        let mut ww = yammer::WordWrap::new(20);
        let mut sink: Vec<u8> = vec![];
        let chars: Vec<char> = text.chars().collect();
        for chunk in chars.chunks(cut) {
            ww.push(chunk.iter().collect::<String>(), &mut sink).unwrap();
        }
        let out = String::from_utf8(sink).unwrap();
        let words: Vec<&str> = out.split_whitespace().collect();
        let expected: Vec<&str> = text.split_whitespace().collect();
        assert_eq!(words, expected);
    }
}
