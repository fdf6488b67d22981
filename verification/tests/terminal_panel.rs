use term_explorer::terminal::{SessionError, TerminalPanel};

#[test]
fn a_fresh_panel_is_inert() {
    let panel = TerminalPanel::new(String::from("/tmp"));
    assert!(!panel.is_attached());
    assert_eq!(panel.current_dir().as_str(), "/tmp");
    assert_eq!(panel.scrollback_lines().len(), 0);
    assert!(panel.interrupt().is_none());
}

#[test]
fn a_failed_session_reports_one_line_and_stays_inert() {
    let mut panel = TerminalPanel::new(String::from("/tmp"));
    panel.session_failed(SessionError::ShellSpawn, "No such file or directory");
    let lines = panel.scrollback_lines();
    assert_eq!(lines.len(), 1);
    assert_eq!(lines[0].as_str(), "Failed to spawn shell: No such file or directory");
    assert!(!panel.is_attached());
    // subsequent sends and interrupts are safe no-ops
    assert!(panel.interrupt().is_none());
    panel.set_input(String::from("ls"));
    assert!(panel.submit_input().is_none());
    assert!(panel.set_directory(String::from("/elsewhere")).is_none());
}

#[test]
fn each_failure_kind_has_its_own_prefix() {
    let mut panel = TerminalPanel::new(String::from("/tmp"));
    panel.session_failed(SessionError::PtyOpen, "busy");
    panel.session_failed(SessionError::HandleAcquisition, "gone");
    let lines = panel.scrollback_lines();
    assert_eq!(lines[0].as_str(), "Failed to open PTY: busy");
    assert_eq!(lines[1].as_str(), "Failed to acquire PTY handles: gone");
}

#[test]
fn an_opened_session_announces_itself() {
    let mut panel = TerminalPanel::new(String::from("/home/someone"));
    panel.session_opened();
    assert!(panel.is_attached());
    let lines = panel.scrollback_lines();
    assert_eq!(lines.len(), 1);
    assert_eq!(lines[0].as_str(), "Terminal ready in: /home/someone");
}

#[test]
fn directory_changes_are_sent_once() {
    let mut panel = TerminalPanel::new(String::from("/tmp"));
    panel.session_opened();
    let first = panel.set_directory(String::from("/tmp/My Dir"));
    assert_eq!(first.as_deref(), Some("cd \"/tmp/My Dir\"\n"));
    assert_eq!(first.unwrap().as_bytes(), b"cd \"/tmp/My Dir\"\n");
    let second = panel.set_directory(String::from("/tmp/My Dir"));
    assert!(second.is_none());
    let third = panel.set_directory(String::from("/tmp"));
    assert_eq!(third.as_deref(), Some("cd \"/tmp\"\n"));
}

#[test]
fn directory_is_tracked_even_while_detached() {
    let mut panel = TerminalPanel::new(String::from("/tmp"));
    assert!(panel.set_directory(String::from("/var")).is_none());
    assert_eq!(panel.current_dir().as_str(), "/var");
}

#[test]
fn submitting_a_command_records_and_sends_it() {
    let mut panel = TerminalPanel::new(String::from("/tmp"));
    panel.session_opened();
    panel.set_input(String::from("echo hi"));
    let sent = panel.submit_input();
    assert_eq!(sent.as_deref(), Some("echo hi\n"));
    assert_eq!(panel.input_text().as_str(), "");
    panel.history_prev();
    assert_eq!(panel.input_text().as_str(), "echo hi");
}

#[test]
fn blank_input_sends_a_bare_newline_without_touching_history() {
    let mut panel = TerminalPanel::new(String::from("/tmp"));
    panel.session_opened();
    panel.set_input(String::from("   "));
    let sent = panel.submit_input();
    assert_eq!(sent.as_deref(), Some("\n"));
    panel.set_input(String::new());
    panel.history_prev();
    assert_eq!(panel.input_text().as_str(), "");
}

#[test]
fn interrupt_is_the_single_interrupt_byte() {
    let mut panel = TerminalPanel::new(String::from("/tmp"));
    panel.session_opened();
    let interrupt = panel.interrupt().unwrap();
    assert_eq!(interrupt.as_bytes(), &[0x03]);
}

#[test]
fn history_keys_walk_the_submitted_commands() {
    let mut panel = TerminalPanel::new(String::from("/tmp"));
    panel.session_opened();
    panel.set_input(String::from("ls"));
    panel.submit_input();
    panel.set_input(String::from("pwd"));
    panel.submit_input();
    panel.history_prev();
    assert_eq!(panel.input_text().as_str(), "pwd");
    panel.history_prev();
    assert_eq!(panel.input_text().as_str(), "ls");
    panel.history_next();
    assert_eq!(panel.input_text().as_str(), "pwd");
    panel.history_next();
    assert_eq!(panel.input_text().as_str(), "");
}

#[test]
fn update_drains_relayed_fragments_in_order() {
    let mut panel = TerminalPanel::new(String::from("/tmp"));
    let sender = panel.output_sender();
    sender.send(String::from("hello\nwor")).unwrap();
    sender.send(String::from("ld\n\x1b[31mred")).unwrap();
    panel.update();
    let lines: Vec<&str> = panel.scrollback_lines().iter().map(|l| l.as_str()).collect();
    assert_eq!(lines, ["hello", "world", "red"]);
}

#[test]
fn update_with_nothing_pending_changes_nothing() {
    let mut panel = TerminalPanel::new(String::from("/tmp"));
    panel.update();
    assert_eq!(panel.scrollback_lines().len(), 0);
}

#[test]
fn clearing_scrollback_empties_it() {
    let mut panel = TerminalPanel::new(String::from("/tmp"));
    panel.session_opened();
    panel.clear_scrollback();
    assert_eq!(panel.scrollback_lines().len(), 0);
}
