use cliser::agent::{format_client, handle_line, parse_client_data, process_command, Client, ClientTable};

fn add_line(id: u32, ip: &str, status: &str, port: u32, cid: u32) -> String {
    format!(
        "ADD Client ID: {} Client IP: {} Client Status: {} Client Port: {} Client CID: {}",
        id, ip, status, port, cid
    )
}

#[test]
fn parses_client_lines() {
    let c = parse_client_data(
        "Client ID: 12 Client IP: 192.168.0.7 Client Status: active Client Port: 8080 Client CID: 99",
    );
    assert_eq!(
        c,
        Some(Client { id: 12, ip: "192.168.0.7".to_string(), status: "active".to_string(), port: 8080, cid: 99 })
    );
    assert_eq!(parse_client_data("Client ID: 12"), None);
    assert_eq!(
        parse_client_data(
            "Client ID: 1 Client IP: 1.2.3.4 Client Status: on Client Port: 70000 Client CID: 2"
        ),
        None
    );
    assert_eq!(
        parse_client_data(
            "Client ID: 99999999999 Client IP: 1.2.3.4 Client Status: on Client Port: 1 Client CID: 2"
        ),
        None
    );
}

#[test]
fn debug_text_matches_derive() {
    let c = Client { id: 3, ip: "10.0.0.1".to_string(), status: "on\"line".to_string(), port: 22, cid: 4 };
    assert_eq!(format_client(&c), format!("{:?}", c));
}

#[test]
fn add_search_remove() {
    let mut t = ClientTable::new();
    assert_eq!(process_command("LIST", &mut t), "No clients registered.\n");
    assert_eq!(process_command(&add_line(1, "10.0.0.1", "active", 8080, 7), &mut t), "Client ID: 1 added successfully.\n");
    assert_eq!(process_command(&add_line(1, "10.0.0.2", "active", 8081, 8), &mut t), "Client ID: 1 already exists.\n");
    let expected = Client { id: 1, ip: "10.0.0.1".to_string(), status: "active".to_string(), port: 8080, cid: 7 };
    assert_eq!(process_command("SEARCH 1", &mut t), format!("{:?}\n", expected));
    assert_eq!(process_command("LIST", &mut t), format!("{:?}\n", expected));
    assert_eq!(process_command("SEARCH 2", &mut t), "Client ID: 2 not found.\n");
    assert_eq!(process_command("SEARCH x", &mut t), "Invalid Client ID.\n");
    assert_eq!(process_command("REMOVE 1", &mut t), "Client ID: 1 removed successfully.\n");
    assert_eq!(process_command("REMOVE 1", &mut t), "Client ID: 1 not found.\n");
    assert_eq!(process_command("REMOVE -1", &mut t), "Invalid Client ID.\n");
    assert_eq!(process_command("LIST", &mut t), "No clients registered.\n");
}

#[test]
fn update_replaces_under_given_id() {
    let mut t = ClientTable::new();
    process_command(&add_line(5, "1.1.1.1", "a", 1, 1), &mut t);
    let upd = "UPDATE 5 Client ID: 6 Client IP: 2.2.2.2 Client Status: b Client Port: 2 Client CID: 2";
    assert_eq!(process_command(upd, &mut t), "Client ID: 5 updated successfully.\n");
    let stored = t.get(5).unwrap();
    assert_eq!(stored.id, 6);
    assert_eq!(stored.ip, "2.2.2.2");
    assert_eq!(process_command("UPDATE 9 Client ID: 6 Client IP: 2.2.2.2 Client Status: b Client Port: 2 Client CID: 2", &mut t), "Client ID: 9 not found.\n");
    assert_eq!(process_command("UPDATE 5 garbage", &mut t), "Failed to parse client data. Check the format and values.\n");
    assert_eq!(process_command("UPDATE x garbage", &mut t), "Invalid Client ID.\n");
}

#[test]
fn malformed_commands() {
    let mut t = ClientTable::new();
    let invalid = "Invalid command. Use LIST, SEARCH <ID>, ADD <data>, REMOVE <ID>, or UPDATE <ID> <data>.\n";
    assert_eq!(process_command("", &mut t), invalid);
    assert_eq!(process_command("LIST all", &mut t), invalid);
    assert_eq!(process_command("SEARCH", &mut t), invalid);
    assert_eq!(process_command("list", &mut t), invalid);
    assert_eq!(process_command("ADD nothing useful", &mut t), "Failed to parse client data. Check the format and values.\n");
}

#[test]
fn list_holds_every_client_once() {
    let mut t = ClientTable::new();
    for id in 1..=3u32 {
        process_command(&add_line(id, "9.9.9.9", "up", 100, id), &mut t);
    }
    let listing = process_command("LIST", &mut t);
    let mut lines: Vec<&str> = listing.lines().collect();
    lines.sort();
    let mut expected: Vec<String> = (1..=3u32)
        .map(|id| format!("{:?}", Client { id, ip: "9.9.9.9".to_string(), status: "up".to_string(), port: 100, cid: id }))
        .collect();
    expected.sort();
    assert_eq!(lines, expected);
}

#[test]
fn lines_are_trimmed() {
    let mut t = ClientTable::new();
    assert_eq!(handle_line("  LIST \r\n", &mut t), "No clients registered.\n");
}
