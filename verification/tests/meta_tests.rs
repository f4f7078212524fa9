use nature_db::error::NatureError;
use nature_db::executor::Protocol;
use nature_db::meta::{Meta, MetaSetting, MetaType};

#[test]
fn meta_string_reads_back() {
    let m = Meta::from_string("B:sale/order:12").unwrap();
    assert_eq!(m.meta_type, MetaType::Business);
    assert_eq!(m.key, "sale/order");
    assert_eq!(m.version, 12);
    assert_eq!(m.meta_string(), "B:sale/order:12");
    assert_eq!(m.get_full_key(), "/B/sale/order");
    let n = Meta::new("k", -3, MetaType::Loop);
    assert_eq!(Meta::from_string(&n.meta_string()).unwrap(), n);
}

#[test]
fn bad_meta_strings() {
    assert_eq!(
        Meta::from_string("X:a:1"),
        Err(NatureError::VerifyError("illegal format for meta string : X:a:1".to_string()))
    );
    assert!(Meta::from_string("B:a").is_err());
    assert!(Meta::from_string("B:a:x").is_err());
    assert!(Meta::from_string("BB:a:1").is_err());
}

#[test]
fn full_key_reads_back() {
    let m = Meta::from_full_key("/S/sys/x", 4).unwrap();
    assert_eq!(m.meta_type, MetaType::System);
    assert_eq!(m.key, "sys/x");
    assert_eq!(m.version, 4);
    assert_eq!(Meta::from_full_key(&m.get_full_key(), 4).unwrap(), m);
    assert_eq!(
        Meta::from_full_key("B/x", 1),
        Err(NatureError::VerifyError("illegal format for `full_key` : B/x".to_string()))
    );
}

#[test]
fn every_prefix_reads_back() {
    for t in [MetaType::Business, MetaType::System, MetaType::Dynamic, MetaType::Null, MetaType::Multi, MetaType::Loop] {
        let p = t.get_prefix();
        assert_eq!(MetaType::from_prefix_char(p.chars().next().unwrap()), Some(t));
    }
    assert_eq!(MetaType::from_prefix_char('x'), None);
}

#[test]
fn states_and_master() {
    let mut m = Meta::from_string("B:a:1").unwrap();
    assert!(!m.has_state_name(&"x".to_string()));
    m.state = Some(vec!["x".to_string()]);
    assert!(m.has_state_name(&"x".to_string()));
    assert!(!m.has_state_name(&"y".to_string()));
    assert!(!m.check_master(&"B:m:1".to_string()));
    m.setting = Some(MetaSetting { master: Some("B:m:1".to_string()), ..Default::default() });
    assert!(m.check_master(&"B:m:1".to_string()));
    assert!(!m.check_master(&"B:n:1".to_string()));
    assert!(m.get_setting().is_some());
    assert_eq!(m.get_meta_type(), MetaType::Business);
    assert!(!m.is_state());
}

#[test]
fn default_meta() {
    let m = Meta::default();
    assert_eq!(m.meta_string(), "B::1");
}

#[test]
fn protocols_by_name() {
    assert_eq!(Protocol::from_str("localRust"), Ok(Protocol::LocalRust));
    assert_eq!(Protocol::from_str("http"), Ok(Protocol::Http));
    assert_eq!(Protocol::from_str("https"), Ok(Protocol::Https));
    assert_eq!(Protocol::from_str("builtIn"), Ok(Protocol::BuiltIn));
    assert_eq!(Protocol::from_str("auto"), Ok(Protocol::Auto));
    assert_eq!(Protocol::from_str("ftp"), Err(NatureError::VerifyError("unknown protocol : ftp".to_string())));
}
