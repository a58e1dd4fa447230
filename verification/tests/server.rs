use cliser::clientdata::{ClientData, ClientRegistry, WriterChannel};
use cliser::server::{
    console_can_take, console_input, ends_session, reader_step, AuthAction, AuthEvent, AuthManager,
    AuthPhase, ConsoleSend, ReaderStep,
};
use std::sync::mpsc;

fn connected_manager(reg: &mut ClientRegistry, tx: &mpsc::Sender<String>, id: &str) -> AuthManager {
    let (mut m, _) = AuthManager::start(
        "secret".to_string(),
        "10.0.0.9:4242".to_string(),
        WriterChannel::new(1, tx.clone()),
    );
    m.step(reg, AuthEvent::Received("secret".to_string()));
    m.step(reg, AuthEvent::Received(id.to_string()));
    m
}

#[test]
fn password_then_id_registers() {
    let (tx, _rx) = mpsc::channel();
    let mut reg = ClientRegistry::new();
    let (mut m, first) = AuthManager::start(
        "secret".to_string(),
        "10.0.0.9:4242".to_string(),
        WriterChannel::new(42, tx.clone()),
    );
    assert_eq!(first, vec![AuthAction::Send("110: qual a senha".to_string())]);
    assert_eq!(m.phase(), AuthPhase::AwaitingPassword);
    assert_eq!(
        m.step(&mut reg, AuthEvent::Received("secret".to_string())),
        vec![AuthAction::Send("120: qual o ID".to_string())]
    );
    assert_eq!(m.phase(), AuthPhase::AwaitingId);
    assert_eq!(
        m.step(&mut reg, AuthEvent::Received("1000".to_string())),
        vec![AuthAction::Send("140: Connected".to_string())]
    );
    assert_eq!(m.phase(), AuthPhase::Connected { id: 1000, keep_alive_at: 10000 });
    let c = ClientData::find_client_by_id(&reg, 1000).unwrap();
    assert_eq!((c.ip.as_str(), c.port.as_str(), c.status.as_str(), c.cid.as_str()), ("10.0.0.9", "4242", "active", "1000"));
    assert_eq!(c.sender_tcp_writer.id(), 42);
}

#[test]
fn wrong_password_disconnects() {
    let (tx, _rx) = mpsc::channel();
    let mut reg = ClientRegistry::new();
    let (mut m, _) =
        AuthManager::start("secret".to_string(), "10.0.0.9:4242".to_string(), WriterChannel::new(1, tx));
    assert_eq!(
        m.step(&mut reg, AuthEvent::Received("guess".to_string())),
        vec![AuthAction::Write("Senha incorreta desconnecting client".to_string()), AuthAction::Shutdown]
    );
    assert_eq!(m.phase(), AuthPhase::Finished);
    assert!(ClientData::list_clients(&reg).is_empty());
}

#[test]
fn closed_reader_skips_password() {
    let (tx, _rx) = mpsc::channel();
    let mut reg = ClientRegistry::new();
    let (mut m, _) =
        AuthManager::start("secret".to_string(), "10.0.0.9:4242".to_string(), WriterChannel::new(1, tx));
    assert_eq!(m.step(&mut reg, AuthEvent::ReaderClosed), vec![AuthAction::Send("120: qual o ID".to_string())]);
    assert!(!m.can_take(&AuthEvent::ReaderClosed));
}

#[test]
fn bad_or_taken_ids_are_refused() {
    let (tx, _rx) = mpsc::channel();
    let mut reg = ClientRegistry::new();
    let (mut m, _) =
        AuthManager::start("pw".to_string(), "10.0.0.9:4242".to_string(), WriterChannel::new(1, tx.clone()));
    m.step(&mut reg, AuthEvent::Received("pw".to_string()));
    assert_eq!(
        m.step(&mut reg, AuthEvent::Received("abc".to_string())),
        vec![AuthAction::Write("Invalid client ID format".to_string()), AuthAction::Shutdown]
    );
    let _first = connected_manager(&mut reg, &tx, "7");
    let (mut m2, _) =
        AuthManager::start("secret".to_string(), "10.0.0.8:1".to_string(), WriterChannel::new(2, tx.clone()));
    m2.step(&mut reg, AuthEvent::Received("secret".to_string()));
    assert_eq!(
        m2.step(&mut reg, AuthEvent::Received("7".to_string())),
        vec![AuthAction::Write("999: shutdown".to_string()), AuthAction::Shutdown]
    );
    assert_eq!(m2.phase(), AuthPhase::Finished);
    assert_eq!(ClientData::read_ip(&reg, 7), Some("10.0.0.9".to_string()));
    assert_eq!(ClientData::read_sender_tcp_writer(&reg, 7).map(|w| w.id()), Some(1));
    let (mut m3, _) =
        AuthManager::start("secret".to_string(), "nocolon".to_string(), WriterChannel::new(3, tx));
    m3.step(&mut reg, AuthEvent::Received("secret".to_string()));
    assert_eq!(m3.step(&mut reg, AuthEvent::Received("8".to_string())), vec![]);
    assert_eq!(m3.phase(), AuthPhase::Finished);
    assert_eq!(ClientData::read_id(&reg, 8), None);
}

#[test]
fn connected_session_keep_alive_and_exit() {
    let (tx, rx) = mpsc::channel();
    let mut reg = ClientRegistry::new();
    let mut m = connected_manager(&mut reg, &tx, "3");
    assert_eq!(rx.try_recv().ok(), None);
    assert_eq!(m.step(&mut reg, AuthEvent::Tick(500)), vec![]);
    assert_eq!(m.step(&mut reg, AuthEvent::Tick(10000)), vec![]);
    assert_eq!(
        m.step(&mut reg, AuthEvent::Tick(10001)),
        vec![AuthAction::Broadcast("100: keep alive".to_string())]
    );
    assert_eq!(m.phase(), AuthPhase::Connected { id: 3, keep_alive_at: 20001 });
    assert_eq!(m.step(&mut reg, AuthEvent::Tick(20001)), vec![]);
    assert_eq!(
        m.step(&mut reg, AuthEvent::Tick(20002)),
        vec![AuthAction::Broadcast("100: keep alive".to_string())]
    );
    m.step(&mut reg, AuthEvent::Idle);
    assert_eq!(ClientData::read_id(&reg, 3), Some(3));
    m.step(&mut reg, AuthEvent::Received("hello".to_string()));
    assert_eq!(ClientData::read_id(&reg, 3), None);
    assert!(matches!(m.phase(), AuthPhase::Connected { .. }));
    m.step(&mut reg, AuthEvent::Received("999: shutdown".to_string()));
    assert_eq!(m.phase(), AuthPhase::Finished);
}

#[test]
fn writer_and_reader_rules() {
    assert!(ends_session("999: shutdown"));
    assert!(!ends_session("100: keep alive"));
    assert_eq!(reader_step(0, String::new()), ReaderStep::Close("999: shutdown".to_string()));
    assert_eq!(reader_step(3, "abc".to_string()), ReaderStep::Forward("abc".to_string()));
}

fn texts(data: &str, reg: &ClientRegistry) -> (Vec<String>, bool) {
    let r = console_input(reg, data);
    (r.writes, r.close)
}

fn sends(data: &str, reg: &ClientRegistry) -> Vec<ConsoleSend> {
    console_input(reg, data).sends
}

#[test]
fn console_commands() {
    let (tx, rx) = mpsc::channel();
    let mut reg = ClientRegistry::new();
    let prompt = vec!["#> ".to_string()];
    assert_eq!(texts("200:\n", &reg), (prompt.clone(), false));
    assert_eq!(texts("L\n", &reg), (vec!["No clients connected\n".to_string(), "#> ".to_string()], false));
    let _m = connected_manager(&mut reg, &tx, "1000");
    assert_eq!(rx.try_recv().ok(), None);
    assert_eq!(
        texts("l", &reg),
        (
            vec![
                "Client ID: 1000 Client IP: 10.0.0.9 Client Status: active Client Port: 4242 Client CID: 1000\n".to_string(),
                "#> ".to_string()
            ],
            false
        )
    );
    assert_eq!(texts("200:", &reg), (prompt.clone(), false));
    assert_eq!(sends("200:", &reg), vec![ConsoleSend::ToAll("100: keep alive".to_string())]);
    assert_eq!(texts("202:1000\n", &reg), (prompt.clone(), false));
    assert_eq!(sends("202:1000\n", &reg), vec![ConsoleSend::ToOne(1000, "999: shutdown".to_string())]);
    assert_eq!(sends("202:abcd", &reg), vec![ConsoleSend::ToOne(0, "999: shutdown".to_string())]);
    assert_eq!(texts("202:1", &reg), (prompt.clone(), false));
    assert_eq!(sends("202:1", &reg), vec![]);
    assert_eq!(texts("201:", &reg), (prompt.clone(), false));
    assert_eq!(sends("201:", &reg), vec![ConsoleSend::ToAll("999: shutdown".to_string())]);
    assert_eq!(sends("L", &reg), vec![]);
    assert!(rx.try_recv().is_err());
    assert_eq!(texts("E", &reg), (prompt.clone(), true));
    assert_eq!(texts("e", &reg), (vec!["Invalid command\n".to_string(), "#> ".to_string()], false));
}

#[test]
fn console_rejects_split_characters() {
    assert!(console_can_take("202:1000"));
    assert!(console_can_take("hello"));
    assert!(!console_can_take("202:a\u{e9}\u{e9}"));
    assert!(console_can_take("202:\u{e9}\u{e9}"));
}
