use workpool::config::{ClientConfig, ClientConfigError, ServerConfig, ServerConfigError};

#[test]
fn server_config_accepts_a_valid_pool_size() {
    let c = ServerConfig::new(
        String::from("localhost"),
        String::from("8000"),
        String::from(" 8 "),
    )
    .unwrap();
    assert_eq!(c.host, "localhost");
    assert_eq!(c.port, "8000");
    assert_eq!(c.pool_size, 8);
}

#[test]
fn server_config_accepts_the_bounds() {
    assert_eq!(
        ServerConfig::new(String::from("h"), String::from("p"), String::from("1"))
            .unwrap()
            .pool_size,
        1
    );
    assert_eq!(
        ServerConfig::new(String::from("h"), String::from("p"), String::from("16"))
            .unwrap()
            .pool_size,
        16
    );
}

#[test]
fn server_config_rejects_a_non_number() {
    assert!(ServerConfig::new(String::from("h"), String::from("p"), String::from("four")).is_err());
}

#[test]
fn server_config_rejects_sizes_out_of_bounds() {
    assert!(ServerConfig::new(String::from("h"), String::from("p"), String::from("0")).is_err());
    assert!(ServerConfig::new(String::from("h"), String::from("p"), String::from("17")).is_err());
}

#[test]
fn server_config_error_new_keeps_message() {
    let e = ServerConfigError::new(String::from("missing port"));
    assert_eq!(e.msg, "missing port");
}

#[test]
fn client_config_carries_its_fields() {
    let c = ClientConfig::new(
        String::from("localhost:8000"),
        String::from("in.csv"),
        String::from("out.csv"),
    );
    assert_eq!(c.server_addr, "localhost:8000");
    assert_eq!(c.inpath, "in.csv");
    assert_eq!(c.outpath, "out.csv");
}

#[test]
fn client_config_error_new_keeps_message() {
    let e = ClientConfigError::new(String::from("must set input path"));
    assert_eq!(e.msg, "must set input path");
}
