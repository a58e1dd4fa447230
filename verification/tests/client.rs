use cliser::client::protocol::{ClientAction, ClientPhase, ClientSession};

#[test]
fn full_handshake_and_shutdown() {
    let mut s = ClientSession::new(" pw \n".to_string(), "1000\n".to_string());
    assert_eq!(s.step("110: qual a senha", false), vec![ClientAction::Write("pw".to_string())]);
    assert_eq!(s.phase(), ClientPhase::AwaitingIdPrompt);
    assert_eq!(s.step("120: qual o ID", false), vec![ClientAction::Write("1000".to_string())]);
    assert_eq!(s.phase(), ClientPhase::AwaitingConnected);
    assert_eq!(s.step("140: Connected", false), vec![]);
    assert_eq!(s.phase(), ClientPhase::Running);
    assert_eq!(s.step("100: keep alive", false), vec![]);
    assert_eq!(s.step("110: again", false), vec![ClientAction::Write("1000".to_string())]);
    assert_eq!(s.step("", true), vec![ClientAction::Shutdown]);
    assert_eq!(s.step("999: shutdown", false), vec![ClientAction::Shutdown]);
    assert_eq!(s.phase(), ClientPhase::Exited);
    assert_eq!(s.step("110:", false), vec![]);
}

#[test]
fn refused_connections_stop() {
    let mut s = ClientSession::new("pw".to_string(), "1".to_string());
    assert_eq!(s.step("something else", false), vec![]);
    assert_eq!(s.step("Invalid password", false), vec![]);
    assert_eq!(s.phase(), ClientPhase::Stopped);
    let mut t = ClientSession::new("pw".to_string(), "1".to_string());
    t.step("110: qual a senha", false);
    t.step("120: qual o ID", false);
    assert_eq!(t.step("Senha incorreta desconnecting client", false), vec![]);
    assert_eq!(t.phase(), ClientPhase::Stopped);
}
