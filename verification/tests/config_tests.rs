use uiop_dsp::config::{Args, Config};

#[test]
fn from_args_splits_the_arguments() {
    let args = Args {
        server_address: String::from("203.0.113.9:1337"),
        username: String::from("alice"),
        log_file: Some(String::from("chat.log")),
    };
    let config = Config::from_args(args);
    assert_eq!(config.client.server_address, String::from("203.0.113.9:1337"));
    assert_eq!(config.client.username, String::from("alice"));
    assert_eq!(config.log.log_file, Some(String::from("chat.log")));
}

#[test]
fn from_args_keeps_a_missing_log_file() {
    let args = Args {
        server_address: String::from("203.0.113.9:1337"),
        username: String::from("bob"),
        log_file: None,
    };
    let config = Config::from_args(args);
    assert_eq!(config.log.log_file, None);
}
