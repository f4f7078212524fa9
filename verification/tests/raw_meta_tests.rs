use nature_db::error::NatureError;
use nature_db::meta::{Meta, MetaSetting};
use nature_db::raw_meta::RawMeta;

// A stored meta for `m`, as the store writes it: a meta without a setting gets an empty config.
fn raw_of(m: &Meta) -> RawMeta {
    RawMeta::from_meta(m, String::new(), chrono::Local::now().timestamp_millis())
}

// The config `{}` parses to the default setting.
fn empty_setting() -> Result<MetaSetting, String> {
    Ok(MetaSetting::default())
}

#[test]
fn try_into_test() {
    // error full_key
    let meta = RawMeta::default();
    let result: Result<Meta, NatureError> = meta.try_into(empty_setting());
    assert_eq!(result.err().unwrap(), NatureError::VerifyError("illegal format for `full_key` : ".to_string()));

    let meta = raw_of(&Meta::from_full_key("/B/hello", 1).unwrap());
    let result: Meta = meta.try_into(empty_setting()).unwrap();
    assert_eq!(result.get_full_key(), "/B/hello")
}

#[test]
fn try_into_state_check_test() {
    let mut meta = raw_of(&Meta::from_full_key("/B/hello", 1).unwrap());
    meta.states = Some("a,b".to_string());
    let result: Result<Meta, NatureError> = meta.try_into(empty_setting());
    assert_eq!(result.is_ok(), true);

    let mut meta = raw_of(&Meta::from_full_key("/B/hello", 1).unwrap());
    meta.states = Some("b,b".to_string());
    let result: Result<Meta, NatureError> = meta.try_into(empty_setting());
    assert_eq!(result.err().unwrap(), NatureError::VerifyError("repeated state name: \"b\", for `Meta`: \"/B/hello\"".to_string()));

    let mut meta = raw_of(&Meta::from_full_key("/B/hello", 1).unwrap());
    meta.states = Some("".to_string());
    let result: Result<Meta, NatureError> = meta.try_into(empty_setting());
    assert_eq!(result.is_ok(), true);
}

#[test]
fn states_make_a_state_meta() {
    let mut meta = raw_of(&Meta::from_full_key("/B/hello", 1).unwrap());
    meta.states = Some("a,b".to_string());
    let m = meta.try_into(empty_setting()).unwrap();
    assert_eq!(m.state, Some(vec!["a".to_string(), "b".to_string()]));
    assert!(m.is_state);
}

#[test]
fn config_gives_the_setting() {
    let mut meta = raw_of(&Meta::from_full_key("/B/hello", 2).unwrap());
    meta.config = "{\"is_state\":true}".to_string();
    let setting = MetaSetting { is_state: true, ..Default::default() };
    let m = meta.try_into(Ok(setting)).unwrap();
    assert!(m.is_state);
    assert_eq!(m.version, 2);
    assert!(m.setting.is_some());
}

#[test]
fn bad_config_is_refused() {
    let mut meta = raw_of(&Meta::from_full_key("/B/hello", 1).unwrap());
    meta.config = "x".to_string();
    let r = meta.try_into(Err("expected value".to_string()));
    assert_eq!(r, Err(NatureError::VerifyError("expected value".to_string())));
}

#[test]
fn from_meta_writes_full_key_and_states() {
    let mut m = Meta::from_string("B:sale/order:3").unwrap();
    m.state = Some(vec!["new".to_string(), "paid".to_string()]);
    let raw = RawMeta::from_meta(&m, "{}".to_string(), 7);
    assert_eq!(raw.full_key, "/B/sale/order");
    assert_eq!(raw.version, 3);
    assert_eq!(raw.states, Some("new,paid".to_string()));
    assert_eq!(raw.flag, 0);
    assert_eq!(raw.create_time, 7);
    assert!(raw.has_states());
}

#[test]
fn check_name_reports_first_repeat() {
    let raw = raw_of(&Meta::from_full_key("/B/x", 1).unwrap());
    let names: Vec<String> = vec!["a".into(), "b".into(), "a".into(), "b".into()];
    assert_eq!(
        raw.check_name(&names),
        Err(NatureError::VerifyError("repeated state name: \"a\", for `Meta`: \"/B/x\"".to_string()))
    );
    assert!(raw.check_name(&vec!["a".into(), "b".into()]).is_ok());
}

#[test]
fn stored_meta_reads_back() {
    let mut m = Meta::from_string("B:sale/order:2").unwrap();
    m.state = Some(vec!["new".to_string(), "paid".to_string()]);
    m.is_state = true;
    let raw = RawMeta::from_meta(&m, String::new(), 0);
    assert_eq!(raw.try_into(Err("not read".to_string())).unwrap(), m);
    let plain = Meta::from_string("S:x:1").unwrap();
    let raw = RawMeta::from_meta(&plain, String::new(), 0);
    assert_eq!(raw.try_into(Err("not read".to_string())).unwrap(), plain);
}
