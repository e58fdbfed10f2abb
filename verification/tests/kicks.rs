use splinter::kick::ClientKickReason;

#[test]
fn timed_out_text() {
    assert_eq!(ClientKickReason::TimedOut.text(), "Timed out");
}

#[test]
fn shutdown_text() {
    assert_eq!(ClientKickReason::Shutdown.text(), "Server shut down");
}

#[test]
fn kicked_without_reason_text() {
    let reason = ClientKickReason::Kicked("console".to_string(), None);
    assert_eq!(reason.text(), "Kicked by console");
}

#[test]
fn kicked_with_reason_text() {
    let reason = ClientKickReason::Kicked("admin".to_string(), Some("spamming".to_string()));
    assert_eq!(reason.text(), "Kicked by admin because \"spamming\"");
}

#[test]
fn kicked_with_empty_parts_text() {
    let reason = ClientKickReason::Kicked(String::new(), Some(String::new()));
    assert_eq!(reason.text(), "Kicked by  because \"\"");
    let unnamed = ClientKickReason::Kicked(String::new(), None);
    assert_eq!(unnamed.text(), "Kicked by ");
}

#[test]
fn kicked_text_keeps_non_ascii() {
    let reason = ClientKickReason::Kicked("Zoë".to_string(), Some("düp".to_string()));
    assert_eq!(reason.text(), "Kicked by Zoë because \"düp\"");
}
