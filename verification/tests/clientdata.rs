use cliser::clientdata::{ClientData, ClientRegistry, WriterChannel};
use std::sync::mpsc;

fn client(id: u16, channel: u64, tx: &mpsc::Sender<String>) -> ClientData {
    ClientData {
        id,
        ip: "127.0.0.1".to_string(),
        status: "active".to_string(),
        port: "5000".to_string(),
        cid: id.to_string(),
        sender_tcp_writer: WriterChannel::new(channel, tx.clone()),
    }
}

#[test]
fn save_read_delete() {
    let (tx, _rx) = mpsc::channel();
    let mut reg = ClientRegistry::new();
    assert!(ClientData::find_client_by_id(&reg, 7).is_none());
    ClientData::save(&mut reg, client(7, 70, &tx));
    assert_eq!(ClientData::read_id(&reg, 7), Some(7));
    assert_eq!(ClientData::read_ip(&reg, 7), Some("127.0.0.1".to_string()));
    assert_eq!(ClientData::read_status(&reg, 7), Some("active".to_string()));
    assert_eq!(ClientData::read_cid(&reg, 7), Some("7".to_string()));
    assert_eq!(ClientData::read_sender_tcp_writer(&reg, 7).map(|w| w.id()), Some(70));
    assert!(ClientData::read_sender_tcp_writer(&reg, 8).is_none());
    let found = ClientData::find_client_by_id(&reg, 7).unwrap();
    assert_eq!(found.port, "5000");
    assert_eq!(found.sender_tcp_writer.id(), 70);
    assert!(ClientData::delete_client_by_id(&mut reg, 7));
    assert!(!ClientData::delete_client_by_id(&mut reg, 7));
    assert_eq!(ClientData::read_id(&reg, 7), None);
}

#[test]
fn save_replaces() {
    let (tx, _rx) = mpsc::channel();
    let mut reg = ClientRegistry::new();
    ClientData::save(&mut reg, client(1, 10, &tx));
    let mut second = client(1, 11, &tx);
    second.status = "inactive".to_string();
    ClientData::save(&mut reg, second);
    assert_eq!(ClientData::read_status(&reg, 1), Some("inactive".to_string()));
    assert_eq!(ClientData::read_sender_tcp_writer(&reg, 1).map(|w| w.id()), Some(11));
    assert_eq!(ClientData::list_clients(&reg).len(), 1);
}

#[test]
fn find_after_save_survives_other_ids() {
    let (tx, _rx) = mpsc::channel();
    let mut reg = ClientRegistry::new();
    ClientData::save(&mut reg, client(4, 40, &tx));
    ClientData::save(&mut reg, client(5, 50, &tx));
    ClientData::delete_client_by_id(&mut reg, 6);
    ClientData::delete_client_by_id(&mut reg, 5);
    let c = ClientData::find_client_by_id(&reg, 4).unwrap();
    assert_eq!((c.id, c.ip.as_str(), c.cid.as_str(), c.sender_tcp_writer.id()), (4, "127.0.0.1", "4", 40));
}

#[test]
fn messages_reach_the_writer() {
    let (tx1, rx1) = mpsc::channel();
    let (tx2, rx2) = mpsc::channel();
    let mut reg = ClientRegistry::new();
    ClientData::save(&mut reg, client(1, 1, &tx1));
    ClientData::save(&mut reg, client(2, 2, &tx2));
    ClientData::send_client_msg_by_id(&mut reg, 2, "999: shutdown".to_string());
    assert_eq!(rx2.try_recv().unwrap(), "999: shutdown");
    assert!(rx1.try_recv().is_err());
    ClientData::send_client_msg_by_id(&mut reg, 3, "ignored".to_string());
    assert!(rx1.try_recv().is_err());
    assert!(rx2.try_recv().is_err());
    let results = ClientData::round_robin(&mut reg, "100: keep alive".to_string());
    assert_eq!(results, vec![Ok(()), Ok(())]);
    assert_eq!(rx1.try_recv().unwrap(), "100: keep alive");
    assert_eq!(rx2.try_recv().unwrap(), "100: keep alive");
    assert!(rx1.try_recv().is_err());
}

#[test]
fn copies_send_into_the_same_channel() {
    let (tx, rx) = mpsc::channel();
    let mut reg = ClientRegistry::new();
    ClientData::save(&mut reg, client(9, 90, &tx));
    let w = ClientData::read_sender_tcp_writer(&reg, 9).unwrap();
    w.sender().send("via copy".to_string()).unwrap();
    assert_eq!(rx.try_recv().unwrap(), "via copy");
    let listed = ClientData::list_clients(&reg);
    assert_eq!(listed[0].sender_tcp_writer.id(), 90);
    listed[0].sender_tcp_writer.sender().send("via list".to_string()).unwrap();
    assert_eq!(rx.try_recv().unwrap(), "via list");
    let cloned = w.clone();
    assert_eq!(cloned.id(), 90);
}

#[test]
fn failed_sends_name_the_client() {
    let (tx, rx) = mpsc::channel::<String>();
    let mut reg = ClientRegistry::new();
    ClientData::save(&mut reg, client(5, 5, &tx));
    drop(rx);
    let results = ClientData::round_robin(&mut reg, "100: keep alive".to_string());
    assert_eq!(
        results,
        vec![Err("Failed to send message to client 5: sending on a closed channel".to_string())]
    );
    ClientData::send_client_msg_by_id(&mut reg, 5, "999: shutdown".to_string());
    assert_eq!(ClientData::read_id(&reg, 5), Some(5));
}

#[test]
fn list_has_every_client() {
    let (tx, _rx) = mpsc::channel();
    let mut reg = ClientRegistry::new();
    for id in [3u16, 1, 2] {
        ClientData::save(&mut reg, client(id, u64::from(id) * 100, &tx));
    }
    let mut ids: Vec<(u16, u64)> =
        ClientData::list_clients(&reg).iter().map(|c| (c.id, c.sender_tcp_writer.id())).collect();
    ids.sort();
    assert_eq!(ids, vec![(1, 100), (2, 200), (3, 300)]);
}

#[test]
fn list_ids_are_distinct_and_keyed() {
    let (tx, _rx) = mpsc::channel();
    let mut reg = ClientRegistry::new();
    for id in [9u16, 4, 9, 7] {
        ClientData::save(&mut reg, client(id, 1, &tx));
    }
    let mut ids: Vec<u16> = ClientData::list_clients(&reg).iter().map(|c| c.id).collect();
    ids.sort();
    assert_eq!(ids, vec![4, 7, 9]);
    assert_eq!(ClientData::read_id(&reg, 7), Some(7));
    assert_eq!(ClientData::find_client_by_id(&reg, 4).map(|c| c.id), Some(4));
}

#[test]
fn broadcast_reaches_each_client_once() {
    let (tx1, rx1) = mpsc::channel();
    let (tx2, rx2) = mpsc::channel();
    let (tx3, rx3) = mpsc::channel::<String>();
    let mut reg = ClientRegistry::new();
    ClientData::save(&mut reg, client(1, 1, &tx1));
    ClientData::save(&mut reg, client(2, 2, &tx2));
    ClientData::save(&mut reg, client(3, 3, &tx3));
    drop(rx3);
    let mut results = ClientData::round_robin(&mut reg, "999: shutdown".to_string());
    results.sort();
    assert_eq!(
        results,
        vec![Ok(()), Ok(()), Err("Failed to send message to client 3: sending on a closed channel".to_string())]
    );
    assert_eq!(rx1.try_iter().collect::<Vec<_>>(), vec!["999: shutdown".to_string()]);
    assert_eq!(rx2.try_iter().collect::<Vec<_>>(), vec!["999: shutdown".to_string()]);
    assert_eq!(ClientData::list_clients(&reg).len(), 3);
    assert!(ClientData::round_robin(&mut ClientRegistry::new(), "x".to_string()).is_empty());
}

#[test]
fn single_send_reaches_only_its_client() {
    let (tx1, rx1) = mpsc::channel();
    let (tx2, rx2) = mpsc::channel();
    let mut reg = ClientRegistry::new();
    ClientData::save(&mut reg, client(1, 1, &tx1));
    ClientData::save(&mut reg, client(2, 2, &tx2));
    ClientData::send_client_msg_by_id(&mut reg, 1, "hello".to_string());
    assert_eq!(rx1.try_iter().collect::<Vec<_>>(), vec!["hello".to_string()]);
    assert_eq!(rx2.try_iter().count(), 0);
}
