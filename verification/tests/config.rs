use cliser::{client, configcli, servermod};

#[test]
fn server_settings() {
    let c = servermod::config::Config {
        server: servermod::config::ServerConfig {
            password: "pw".to_string(),
            host: "0.0.0.0".to_string(),
            port1: "7000".to_string(),
            port2: "7001".to_string(),
            port3: "7002".to_string(),
        },
    };
    assert_eq!(servermod::config::get_password(&c), "pw");
    assert_eq!(servermod::config::get_hostip(&c), "0.0.0.0");
    assert_eq!(servermod::config::get_port1(&c), "7000");
    assert_eq!(servermod::config::get_port2(&c), "7001");
    assert_eq!(servermod::config::get_port3(&c), "7002");
    assert_eq!(servermod::config::client_address(&c), "0.0.0.0:7000");
    assert_eq!(servermod::config::console_address(&c), "0.0.0.0:7002");
    assert_eq!(servermod::config::get_configuration(&c), &c);
}

#[test]
fn client_settings() {
    let c = client::config::Config {
        server: client::config::ServerConfig {
            clientid: "1000".to_string(),
            password: "pw".to_string(),
            host: "10.0.0.1".to_string(),
            port1: "7000".to_string(),
            port2: "7001".to_string(),
        },
    };
    assert_eq!(client::config::get_clientid(&c), "1000");
    assert_eq!(client::config::get_password(&c), "pw");
    assert_eq!(client::config::get_hostip(&c), "10.0.0.1");
    assert_eq!(client::config::get_port1(&c), "7000");
    assert_eq!(client::config::get_port2(&c), "7001");
    assert_eq!(client::config::get_configuration(&c), &c);
    let d = configcli::Config {
        server: configcli::ServerConfig {
            clientid: "9".to_string(),
            password: "x".to_string(),
            host: "h".to_string(),
            port1: "1".to_string(),
        },
    };
    assert_eq!(configcli::get_clientid(&d), "9");
    assert_eq!(configcli::get_password(&d), "x");
    assert_eq!(configcli::get_hostip(&d), "h");
    assert_eq!(configcli::get_port1(&d), "1");
    assert_eq!(configcli::server_address(&d), "h:1");
}
