use term_explorer::ansi::strip_ansi_escapes;
use term_explorer::history::CommandHistory;
use term_explorer::scrollback::ScrollbackBuffer;

#[test]
fn strips_color_codes() {
    assert_eq!(strip_ansi_escapes("\x1b[31mHello\x1b[0m"), "Hello");
}

#[test]
fn clean_text_is_unchanged() {
    assert_eq!(strip_ansi_escapes("plain text, no codes"), "plain text, no codes");
    assert_eq!(strip_ansi_escapes(""), "");
}

#[test]
fn output_never_longer_and_never_holds_escape() {
    let inputs = ["\x1b[2J\x1b[H", "a\x1b[12;34mb", "\x1b", "\x1b\x1b[1mx", "mixed \x1b[0m text"];
    for input in inputs {
        let out = strip_ansi_escapes(input);
        assert!(out.chars().count() <= input.chars().count());
        assert!(!out.contains('\x1b'));
    }
}

#[test]
fn lone_escape_is_dropped_and_next_char_kept() {
    assert_eq!(strip_ansi_escapes("a\x1bZb"), "aZb");
    assert_eq!(strip_ansi_escapes("a\x1b"), "a");
}

#[test]
fn csi_sequence_is_consumed_to_its_terminator() {
    assert_eq!(strip_ansi_escapes("a\x1b[12;34mb"), "ab");
    assert_eq!(strip_ansi_escapes("\x1b[Kdone"), "done");
}

#[test]
fn scrollback_splits_lines_and_continues_partials() {
    let mut buffer = ScrollbackBuffer::new();
    buffer.append("a\nb\nc");
    buffer.append("\nd");
    let lines: Vec<&str> = buffer.lines().iter().map(|l| l.as_str()).collect();
    assert_eq!(lines, ["a", "b", "c", "d"]);
}

#[test]
fn scrollback_joins_partial_line_fragments() {
    let mut buffer = ScrollbackBuffer::new();
    buffer.append("partial");
    buffer.append(" line\n");
    let lines: Vec<&str> = buffer.lines().iter().map(|l| l.as_str()).collect();
    assert_eq!(lines, ["partial line"]);
}

#[test]
fn scrollback_keeps_blank_lines() {
    let mut buffer = ScrollbackBuffer::new();
    buffer.append("a\n\nb\n");
    let lines: Vec<&str> = buffer.lines().iter().map(|l| l.as_str()).collect();
    assert_eq!(lines, ["a", "", "b"]);
}

#[test]
fn scrollback_evicts_oldest_beyond_cap() {
    let mut buffer = ScrollbackBuffer::new();
    for i in 0..1100 {
        buffer.append(&format!("line {}\n", i));
    }
    assert_eq!(buffer.line_count(), 1000);
    assert_eq!(buffer.line_at(0).as_str(), "line 100");
    assert_eq!(buffer.line_at(999).as_str(), "line 1099");
}

#[test]
fn scrollback_clear_empties_it() {
    let mut buffer = ScrollbackBuffer::new();
    buffer.append("something\n");
    buffer.clear();
    assert_eq!(buffer.line_count(), 0);
}

#[test]
fn scrollback_push_line_closes_the_open_line() {
    let mut buffer = ScrollbackBuffer::new();
    buffer.append("partial");
    buffer.push_line(String::from("notice"));
    buffer.append("next\n");
    let lines: Vec<&str> = buffer.lines().iter().map(|l| l.as_str()).collect();
    assert_eq!(lines, ["partial", "notice", "next"]);
}

#[test]
fn history_recall_walks_old_entries() {
    let mut history = CommandHistory::new();
    history.submit(String::from("ls"));
    history.submit(String::from("pwd"));
    history.submit(String::from("echo hi"));
    assert_eq!(history.recall_previous().as_deref(), Some("echo hi"));
    assert_eq!(history.recall_previous().as_deref(), Some("pwd"));
    assert_eq!(history.recall_next().as_deref(), Some("echo hi"));
    assert_eq!(history.recall_next().as_deref(), Some(""));
    assert!(history.recall_next().is_none());
}

#[test]
fn history_recall_stops_at_the_oldest_entry() {
    let mut history = CommandHistory::new();
    history.submit(String::from("one"));
    history.submit(String::from("two"));
    assert_eq!(history.recall_previous().as_deref(), Some("two"));
    assert_eq!(history.recall_previous().as_deref(), Some("one"));
    assert!(history.recall_previous().is_none());
    assert!(history.recall_previous().is_none());
}

#[test]
fn history_recall_on_empty_history_does_nothing() {
    let mut history = CommandHistory::new();
    assert!(history.recall_previous().is_none());
    assert!(history.recall_next().is_none());
}

#[test]
fn submitting_resets_the_recall_cursor() {
    let mut history = CommandHistory::new();
    history.submit(String::from("first"));
    history.submit(String::from("second"));
    assert_eq!(history.recall_previous().as_deref(), Some("second"));
    history.submit(String::from("third"));
    assert_eq!(history.recall_previous().as_deref(), Some("third"));
}

#[test]
fn history_evicts_oldest_past_cap() {
    let mut history = CommandHistory::new();
    for i in 0..101 {
        history.submit(format!("command {}", i));
    }
    assert_eq!(history.len(), 100);
    assert_eq!(history.entry_at(0).as_str(), "command 1");
    assert_eq!(history.entry_at(99).as_str(), "command 100");
}
