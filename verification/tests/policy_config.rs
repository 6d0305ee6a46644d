use quic_implementation::client::env_parser as client_env;
use quic_implementation::client::multiplexes_requests;
use quic_implementation::env_parser::QuicImplementationConfig;
use quic_implementation::server::env_parser as server_env;
use quic_implementation::server::logging_enabled;
use quic_implementation::testcase::{
    policy_for, suite_allowed, Testcase, TLS13_AES_128_GCM_SHA256, TLS13_AES_256_GCM_SHA384,
    TLS13_CHACHA20_POLY1305_SHA256,
};

#[test]
fn testcase_names_recognized() {
    let names = [
        ("handshake", Testcase::Handshake),
        ("transfer", Testcase::Transfer),
        ("multihandshake", Testcase::Multihandshake),
        ("chacha20", Testcase::Chacha20),
        ("retry", Testcase::Retry),
        ("resumption", Testcase::Resumption),
        ("zerortt", Testcase::Zerortt),
        ("transportparameter", Testcase::Transportparameter),
        ("goodput", Testcase::Goodput),
        ("optimize", Testcase::Optimize),
    ];
    for (name, tc) in names {
        assert_eq!(Testcase::from_name(&name.to_string()), Some(tc));
    }
    assert_eq!(Testcase::from_name(&"unknown".to_string()), None);
    assert_eq!(Testcase::from_name(&"".to_string()), None);
    assert_eq!(Testcase::from_name(&"Handshake".to_string()), None);
}

#[test]
fn policy_chacha20_restricts_suites() {
    let p = policy_for(Testcase::Chacha20);
    assert_eq!(p.cipher_suites, vec![TLS13_CHACHA20_POLY1305_SHA256]);
    assert!(p.enable_early_data);
    assert_eq!(p.alpn, b"h3".to_vec());
}

#[test]
fn policy_default_suites() {
    let p = policy_for(Testcase::Handshake);
    assert_eq!(
        p.cipher_suites,
        vec![
            TLS13_AES_128_GCM_SHA256,
            TLS13_AES_256_GCM_SHA384,
            TLS13_CHACHA20_POLY1305_SHA256,
        ]
    );
    assert!(p.enable_early_data);
    assert_eq!(p.alpn, b"h3".to_vec());
}

#[test]
fn policy_same_testcase_twice_same_settings() {
    for tc in [
        Testcase::Handshake,
        Testcase::Transfer,
        Testcase::Multihandshake,
        Testcase::Chacha20,
        Testcase::Retry,
        Testcase::Resumption,
        Testcase::Zerortt,
        Testcase::Transportparameter,
        Testcase::Goodput,
        Testcase::Optimize,
    ] {
        let p1 = policy_for(tc);
        let p2 = policy_for(tc);
        assert_eq!(p1.cipher_suites, p2.cipher_suites);
        assert_eq!(p1.enable_early_data, p2.enable_early_data);
        assert_eq!(p1.alpn, p2.alpn);
    }
}

#[test]
fn chacha20_handshake_passes_only_its_suite() {
    let p = policy_for(Testcase::Chacha20);
    assert!(suite_allowed(&p, TLS13_CHACHA20_POLY1305_SHA256));
    assert!(!suite_allowed(&p, TLS13_AES_128_GCM_SHA256));
    assert!(!suite_allowed(&p, TLS13_AES_256_GCM_SHA384));
    let q = policy_for(Testcase::Transfer);
    assert!(suite_allowed(&q, TLS13_AES_128_GCM_SHA256));
    assert!(suite_allowed(&q, TLS13_CHACHA20_POLY1305_SHA256));
}

#[test]
fn multiplexing_testcases() {
    assert!(multiplexes_requests(Testcase::Transportparameter));
    assert!(multiplexes_requests(Testcase::Transfer));
    assert!(!multiplexes_requests(Testcase::Handshake));
    assert!(!multiplexes_requests(Testcase::Chacha20));
}

#[test]
fn logging_disabled_only_for_optimize() {
    assert!(!logging_enabled(&"optimize".to_string()));
    assert!(logging_enabled(&"handshake".to_string()));
    assert!(logging_enabled(&"goodput".to_string()));
}

#[test]
fn server_config_accepts_recognized_testcase() {
    let r = server_env::Config::new(
        "/logs/keys.log".to_string(),
        "/qlog".to_string(),
        "/logs".to_string(),
        "zerortt".to_string(),
        "/www".to_string(),
        "/certs".to_string(),
        "0.0.0.0".to_string(),
        443,
    );
    let c = r.expect("recognized testcase must be accepted");
    assert_eq!(c.testcase, "zerortt");
    assert_eq!(c.www, "/www");
    assert_eq!(c.certs, "/certs");
    assert_eq!(c.ip, "0.0.0.0");
    assert_eq!(c.port, 443);
}

#[test]
fn server_config_refuses_unknown_testcase() {
    let r = server_env::Config::new(
        "k".to_string(),
        "q".to_string(),
        "l".to_string(),
        "nosuchcase".to_string(),
        "/www".to_string(),
        "/certs".to_string(),
        "::".to_string(),
        443,
    );
    assert_eq!(r.err(), Some(server_env::ConfigError::UnknownTestcase));
}

#[test]
fn client_config_splits_requests() {
    let r = client_env::Config::new(
        "k".to_string(),
        "q".to_string(),
        "l".to_string(),
        "transfer".to_string(),
        "/downloads".to_string(),
        " https://127.0.0.2:445/xyz \t https://127.0.0.2:445/abc\n".to_string(),
    );
    let c = r.expect("recognized testcase must be accepted");
    assert_eq!(
        c.requests,
        vec![
            "https://127.0.0.2:445/xyz".to_string(),
            "https://127.0.0.2:445/abc".to_string(),
        ]
    );
    assert_eq!(c.downloads, "/downloads");
}

#[test]
fn client_config_empty_requests() {
    let r = client_env::Config::new(
        "k".to_string(),
        "q".to_string(),
        "l".to_string(),
        "handshake".to_string(),
        "/downloads".to_string(),
        client_env::default_requests(),
    );
    let c = r.expect("recognized testcase must be accepted");
    assert!(c.requests.is_empty());
}

#[test]
fn client_config_refuses_unknown_testcase() {
    let r = client_env::Config::new(
        "k".to_string(),
        "q".to_string(),
        "l".to_string(),
        "nosuchcase".to_string(),
        "/downloads".to_string(),
        "".to_string(),
    );
    assert_eq!(r.err(), Some(client_env::ConfigError::UnknownTestcase));
}

#[test]
fn client_config_accepts_every_recognized_testcase() {
    for name in [
        "handshake",
        "transfer",
        "multihandshake",
        "chacha20",
        "retry",
        "resumption",
        "zerortt",
        "transportparameter",
        "goodput",
        "optimize",
    ] {
        let r = client_env::Config::new(
            "k".to_string(),
            "q".to_string(),
            "l".to_string(),
            name.to_string(),
            "/downloads".to_string(),
            "".to_string(),
        );
        let c = r.expect("recognized testcase must be accepted");
        assert_eq!(c.testcase, name);
    }
}

#[test]
fn request_list_splits_on_unicode_whitespace() {
    let words = client_env::split_whitespace_words(
        &"https://h/a\u{A0}https://h/b\u{2003}https://h/c".to_string(),
    );
    assert_eq!(
        words,
        vec![
            "https://h/a".to_string(),
            "https://h/b".to_string(),
            "https://h/c".to_string(),
        ]
    );
}

#[test]
fn serde_defaults_are_empty() {
    assert_eq!(client_env::default_requests(), "");
    assert_eq!(client_env::mucco(), "");
    assert_eq!(server_env::mucco(), "");
}

#[test]
fn raw_config_packs_fields() {
    let c = QuicImplementationConfig::new(
        "key.log".to_string(),
        "/qlog".to_string(),
        "/logs".to_string(),
        "retry".to_string(),
        "/www".to_string(),
        "/certs".to_string(),
        "127.0.0.1".to_string(),
        "443".to_string(),
    );
    assert_eq!(c.sslkeylogfile, "key.log");
    assert_eq!(c.qlogdir, "/qlog");
    assert_eq!(c.logs, "/logs");
    assert_eq!(c.testcase, "retry");
    assert_eq!(c.www, "/www");
    assert_eq!(c.certs, "/certs");
    assert_eq!(c.ip, "127.0.0.1");
    assert_eq!(c.port, "443");
}
