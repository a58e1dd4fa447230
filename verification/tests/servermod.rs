use cliser::server::{AuthAction, AuthEvent};
use cliser::servermod::clientdata::{
    find_client_by_id, list_all_clients, list_all_clients2, save_client, update_cid_by_id,
    update_status_by_id, ClientData, ClientStore,
};
use cliser::servermod::session::{console_input, ConnectionHandler, HandlerPhase};

fn client(id: u16, ip: &str, status: &str, port: &str, cid: &str) -> ClientData {
    ClientData { id, ip: ip.to_string(), status: status.to_string(), port: port.to_string(), cid: cid.to_string() }
}

#[test]
fn store_example_usage() {
    let mut store = ClientStore::new();
    save_client(&mut store, client(1, "192.168.1.1", "active", "8080", "cid1"));
    save_client(&mut store, client(2, "192.168.1.2", "inactive", "8081", "cid2"));
    assert_eq!(find_client_by_id(&store, 1), Some(client(1, "192.168.1.1", "active", "8080", "cid1")));
    assert!(update_status_by_id(&mut store, 1, "inactive".to_string()));
    assert!(update_cid_by_id(&mut store, 1, "new_cid1".to_string()));
    assert_eq!(find_client_by_id(&store, 1), Some(client(1, "192.168.1.1", "inactive", "8080", "new_cid1")));
    assert!(!update_status_by_id(&mut store, 3, "x".to_string()));
    assert!(!update_cid_by_id(&mut store, 3, "x".to_string()));
    assert_eq!(find_client_by_id(&store, 3), None);
    assert_eq!(list_all_clients(&store).len(), 2);
}

#[test]
fn listing_text() {
    let mut store = ClientStore::new();
    assert_eq!(list_all_clients2(&store), "Connected clients: No clients connected.\n");
    save_client(&mut store, client(4, "10.0.0.4", "active", "9000", "4"));
    assert_eq!(
        list_all_clients2(&store),
        "Connected clients:\nID: 4, IP: 10.0.0.4, Status: active Port2: 9000 cid 4\n"
    );
}

#[test]
fn handler_flow() {
    let mut store = ClientStore::new();
    let (mut h, first) = ConnectionHandler::start("pw".to_string(), "1.2.3.4:99".to_string());
    assert_eq!(first, vec![AuthAction::Send("110: qual a senha".to_string())]);
    assert_eq!(h.step(&mut store, AuthEvent::Received("pw".to_string())), vec![AuthAction::Send("120: qual o ID".to_string())]);
    assert!(!h.can_take(&AuthEvent::Received("x1".to_string())));
    assert_eq!(h.step(&mut store, AuthEvent::Received("12".to_string())), vec![AuthAction::Send("140: Connected".to_string())]);
    assert_eq!(h.phase(), HandlerPhase::Connected { id: 12 });
    assert_eq!(find_client_by_id(&store, 12), Some(client(12, "1.2.3.4", "active", "99", "12")));
    h.step(&mut store, AuthEvent::Received("hello".to_string()));
    assert_eq!(h.phase(), HandlerPhase::Connected { id: 12 });
    h.step(&mut store, AuthEvent::Received("exit".to_string()));
    assert_eq!(h.phase(), HandlerPhase::Finished);
    assert!(find_client_by_id(&store, 12).is_some());
}

#[test]
fn handler_refusals() {
    let mut store = ClientStore::new();
    let (mut h, _) = ConnectionHandler::start("pw".to_string(), "1.2.3.4:99".to_string());
    assert_eq!(
        h.step(&mut store, AuthEvent::Received("bad".to_string())),
        vec![AuthAction::Write("Senha incorreta desconnecting client".to_string()), AuthAction::Shutdown]
    );
    save_client(&mut store, client(5, "9.9.9.9", "active", "1", "5"));
    let (mut h2, _) = ConnectionHandler::start("pw".to_string(), "1.2.3.4:99".to_string());
    h2.step(&mut store, AuthEvent::Received("pw".to_string()));
    assert_eq!(h2.step(&mut store, AuthEvent::Received("5".to_string())), vec![AuthAction::Shutdown]);
    assert_eq!(find_client_by_id(&store, 5).unwrap().ip, "9.9.9.9");
}

#[test]
fn console() {
    let mut store = ClientStore::new();
    save_client(&mut store, client(4, "10.0.0.4", "active", "9000", "4"));
    let r = console_input(&store, "L\n");
    assert_eq!(r.reply.as_deref(), Some("Connected clients:\nID: 4, IP: 10.0.0.4, Status: active Port2: 9000 cid 4\n"));
    assert!(!r.close);
    let e = console_input(&store, " E ");
    assert_eq!(e.reply, None);
    assert!(e.close);
    let x = console_input(&store, "X");
    assert_eq!(x.reply.as_deref(), Some("Invalid command\n"));
}
