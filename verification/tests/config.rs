use dealer::config::{DBConfig, GRPCServerConfig};
use dealer::decimal::{parse_u64, usize_to_string};

#[test]
fn the_connection_string_names_every_field() {
    let c = DBConfig {
        user: "app".to_owned(),
        password: "secret".to_owned(),
        name: "cards".to_owned(),
        host: "db.local".to_owned(),
        port: "5432".to_owned(),
    };
    assert_eq!(
        c.connection_string(),
        "connect_timeout=2 host=db.local user=app password=secret dbname=cards"
    );
}

#[test]
fn the_listen_address_binds_all_interfaces_on_the_port() {
    let c = GRPCServerConfig { host: "rpc.local".to_owned(), port: "8080".to_owned() };
    assert_eq!(c.listen_addr(), "0.0.0.0:8080");
}

#[test]
fn numerals_render_and_parse_back() {
    assert_eq!(usize_to_string(0), "0");
    assert_eq!(usize_to_string(7), "7");
    assert_eq!(usize_to_string(12345), "12345");
    assert_eq!(parse_u64("12345"), Some(12345));
    assert_eq!(parse_u64("0"), Some(0));
    assert_eq!(parse_u64("18446744073709551615"), Some(u64::MAX));
    assert_eq!(parse_u64("18446744073709551616"), None);
    assert_eq!(parse_u64(""), None);
    assert_eq!(parse_u64("12x"), None);
    assert_eq!(parse_u64("-3"), None);
}
