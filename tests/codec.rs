use ssh_config_editor::sshconfig::{Config, Key};
use ssh_config_editor::sshconfigfile::{parse, save_config, ParseError};

fn lines(text: &[&str]) -> Vec<String> {
    text.iter().map(|s| s.to_string()).collect()
}

fn field(c: &Config, k: Key) -> Option<String> {
    c.get(k).cloned()
}

#[test]
fn parse_empty_input_gives_no_records() {
    let r = parse(&lines(&[])).unwrap();
    assert!(r.is_empty());
    let r = parse(&lines(&[""])).unwrap();
    assert!(r.is_empty());
}

#[test]
fn parse_unknown_key_names_it() {
    match parse(&lines(&["Foo bar"])) {
        Err(ParseError::UnknownKey(k)) => assert_eq!(k, "Foo"),
        other => panic!("unexpected result: {:?}", other.map(|v| v.len())),
    }
}

#[test]
fn parse_unknown_key_message() {
    let e = parse(&lines(&["Host a", "Foo bar"])).unwrap_err();
    assert_eq!(e.message(), "Unknown key: `Foo`");
}

#[test]
fn parse_line_without_separator_is_malformed() {
    match parse(&lines(&["Host a", "  lonely  "])) {
        Err(ParseError::MalformedLine(l)) => assert_eq!(l, "lonely"),
        other => panic!("unexpected result: {:?}", other.map(|v| v.len())),
    }
}

#[test]
fn parse_consecutive_hosts_give_empty_records_in_order() {
    let r = parse(&lines(&["Host a", "Host b"])).unwrap();
    assert_eq!(r.len(), 2);
    assert_eq!(r[0].host().as_str(), "a");
    assert_eq!(r[1].host().as_str(), "b");
    for i in 0..9 {
        assert_eq!(field(&r[0], Key::at(i)), None);
        assert_eq!(field(&r[1], Key::at(i)), None);
    }
}

#[test]
fn parse_repeated_key_last_write_wins() {
    let r = parse(&lines(&[
        "Host x",
        "HostName 127.0.0.1",
        "User me",
        "HostName 10.0.0.1",
        "Host y",
    ]))
    .unwrap();
    assert_eq!(r.len(), 2);
    assert_eq!(field(&r[0], Key::HostName).as_deref(), Some("10.0.0.1"));
    assert_eq!(field(&r[0], Key::User).as_deref(), Some("me"));
    assert_eq!(field(&r[1], Key::HostName), None);
}

#[test]
fn parse_separators_in_order() {
    let r = parse(&lines(&[
        "# a comment",
        "",
        "Host web",
        "  HostName=192.168.0.1",
        "  User = alice",
        "\tPort 2222   ",
        "  IdentityFile =x=y",
    ]))
    .unwrap();
    assert_eq!(r.len(), 1);
    assert_eq!(r[0].host().as_str(), "web");
    assert_eq!(field(&r[0], Key::HostName).as_deref(), Some("192.168.0.1"));
    assert_eq!(field(&r[0], Key::User).as_deref(), Some(" alice"));
    assert_eq!(field(&r[0], Key::Port).as_deref(), Some("2222"));
    assert_eq!(field(&r[0], Key::IdentityFile).as_deref(), Some("x=y"));
}

#[test]
fn parse_field_before_any_host_is_dropped() {
    let r = parse(&lines(&["User nobody", "Host a", "User root"])).unwrap();
    assert_eq!(r.len(), 1);
    assert_eq!(field(&r[0], Key::User).as_deref(), Some("root"));
}

#[test]
fn parse_keys_are_case_sensitive() {
    match parse(&lines(&["Host a", "hostname x"])) {
        Err(ParseError::UnknownKey(k)) => assert_eq!(k, "hostname"),
        other => panic!("unexpected result: {:?}", other.map(|v| v.len())),
    }
}

#[test]
fn save_config_writes_canonical_order() {
    let out = save_config(&Config::mock());
    assert_eq!(
        out,
        vec![
            "Host aaa",
            "  HostName 127.0.0.1",
            "  User John",
            "",
            "Host bbb",
            "  HostName 127.0.1.1",
            "",
            "Host ccc",
            "  User JJJ",
            "",
            "Host dddd",
            "  User JJJ",
            "  IdentityFile ~/.ssh/id_rsa",
            "",
        ]
    );
}

#[test]
fn save_config_of_nothing_is_empty() {
    assert!(save_config(&Vec::new()).is_empty());
}

#[test]
fn round_trip_keeps_records() {
    let mut extra = Config::new("many".to_string());
    extra.set(Key::StrictHostKeyChecking, "no".to_string());
    extra.set(Key::UserKnownHostsFile, "/dev/null".to_string());
    extra.set(Key::PasswordAuthentication, "yes".to_string());
    extra.set(Key::LogLevel, "ERROR".to_string());
    extra.set(Key::IdentitiesOnly, "yes".to_string());
    extra.set(Key::Port, "22".to_string());
    let mut cfg = Config::mock();
    cfg.push(extra);
    let back = parse(&save_config(&cfg)).unwrap();
    assert_eq!(back.len(), cfg.len());
    for (a, b) in cfg.iter().zip(back.iter()) {
        assert_eq!(a.host(), b.host());
        for i in 0..9 {
            assert_eq!(field(a, Key::at(i)), field(b, Key::at(i)));
        }
    }
}

#[test]
fn key_names_round_trip() {
    for i in 0..9 {
        let k = Key::at(i);
        assert_eq!(k.index(), i);
        assert_eq!(Key::from_name(k.str()), Some(k));
    }
    assert_eq!(Key::HostName.str(), "HostName");
    assert_eq!(Key::from_name("Hostname"), None);
    assert_eq!(Key::from_name("Host"), None);
}

#[test]
fn config_set_and_remove() {
    let mut c = Config::new("h".to_string());
    assert_eq!(field(&c, Key::Port), None);
    c.set(Key::Port, "22".to_string());
    assert_eq!(field(&c, Key::Port).as_deref(), Some("22"));
    c.set(Key::Port, "2022".to_string());
    assert_eq!(field(&c, Key::Port).as_deref(), Some("2022"));
    c.remove(Key::Port);
    assert_eq!(field(&c, Key::Port), None);
    c.remove(Key::Port);
    assert_eq!(field(&c, Key::Port), None);
    assert_eq!(c.host().as_str(), "h");
}

#[test]
fn mock_records_hold_sample_data() {
    let m = Config::mock();
    assert_eq!(m.len(), 4);
    assert_eq!(m[0].host().as_str(), "aaa");
    assert_eq!(field(&m[0], Key::User).as_deref(), Some("John"));
    assert_eq!(m[3].host().as_str(), "dddd");
    assert_eq!(field(&m[3], Key::IdentityFile).as_deref(), Some("~/.ssh/id_rsa"));
}
