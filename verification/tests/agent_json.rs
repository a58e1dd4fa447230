use cliser::agent::{Client, ClientTable};
use cliser::agent_json::{process_command, Command, Response};

fn client(id: u32) -> Client {
    Client { id, ip: "10.1.1.1".to_string(), status: "active".to_string(), port: 9000, cid: id + 100 }
}

fn plain(success: bool, message: &str) -> Response {
    Response { success, message: message.to_string(), data: None, client: None }
}

#[test]
fn add_search_update_remove() {
    let mut t = ClientTable::new();
    assert_eq!(process_command(Command::Add { client: client(4) }, &mut t), plain(true, "Client ID 4 added"));
    assert_eq!(process_command(Command::Add { client: client(4) }, &mut t), plain(false, "Client ID 4 already exists"));
    assert_eq!(
        process_command(Command::Search { id: 4 }, &mut t),
        Response { success: true, message: "Client found".to_string(), data: None, client: Some(client(4)) }
    );
    assert_eq!(process_command(Command::Search { id: 5 }, &mut t), plain(false, "Client ID 5 not found"));
    assert_eq!(process_command(Command::Update { id: 4, client: client(8) }, &mut t), plain(true, "Client ID 4 updated"));
    assert_eq!(t.get(4), Some(client(8)));
    assert_eq!(process_command(Command::Update { id: 5, client: client(8) }, &mut t), plain(false, "Client ID 5 not found"));
    assert_eq!(process_command(Command::Remove { id: 4 }, &mut t), plain(true, "Client ID 4 removed"));
    assert_eq!(process_command(Command::Remove { id: 4 }, &mut t), plain(false, "Client ID 4 not found"));
}

#[test]
fn list_returns_all() {
    let mut t = ClientTable::new();
    assert_eq!(
        process_command(Command::List, &mut t),
        Response { success: true, message: "OK".to_string(), data: Some(vec![]), client: None }
    );
    process_command(Command::Add { client: client(1) }, &mut t);
    process_command(Command::Add { client: client(2) }, &mut t);
    let r = process_command(Command::List, &mut t);
    assert!(r.success);
    assert_eq!(r.message, "OK");
    let mut ids: Vec<u32> = r.data.unwrap().iter().map(|c| c.id).collect();
    ids.sort();
    assert_eq!(ids, vec![1, 2]);
}
