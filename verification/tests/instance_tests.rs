use nature_db::instance::{CallbackResult, FromInstance, Instance};
use nature_db::raw_instance::{Limits, RawInstance};

fn sample() -> Instance {
    let mut ins = Instance::default();
    ins.id = 0x3827f37003127855b32ea022daa04cd;
    ins.meta = "B:sale/order:1".to_string();
    ins.para = "a/b".to_string();
    ins.content = "{\"x\":1}".to_string();
    ins.context = vec![("k1".to_string(), "v1".to_string()), ("k2".to_string(), "v\"2".to_string())];
    ins.sys_context = vec![("s".to_string(), "t".to_string())];
    ins.states = vec!["new".to_string(), "paid".to_string()];
    ins.state_version = 3;
    ins.create_time = 1588508143000;
    ins.from = Some(FromInstance { id: 255, meta: "B:from:1".to_string(), para: "p".to_string(), state_version: -2 });
    ins
}

#[test]
fn keys_are_written_as_meta_id_para_version() {
    let ins = sample();
    assert_eq!(ins.key_no_state(), "B:sale/order:1|3827f37003127855b32ea022daa04cd|a/b");
    assert_eq!(ins.get_key(), "B:sale/order:1|3827f37003127855b32ea022daa04cd|a/b|3");
    assert_eq!(ins.from.as_ref().unwrap().to_string(), "B:from:1|ff|p|-2");
}

#[test]
fn from_key_reads_back() {
    let f = FromInstance { id: 4096, meta: "B:x:2".to_string(), para: "".to_string(), state_version: 7 };
    let back = FromInstance::from_str(&f.to_string()).unwrap();
    assert_eq!(back, f);
    assert!(FromInstance::from_str("B:x:2|zz||7").is_err());
    assert!(FromInstance::from_str("B:x:2|1|7").is_err());
    let k = FromInstance::from_key_no_state("B:x:2|1f|q").unwrap();
    assert_eq!(k.id, 31);
    assert_eq!(k.para, "q");
    assert_eq!(k.state_version, 0);
}

#[test]
fn bad_key_message() {
    let e = FromInstance::from_str("abc").unwrap_err();
    assert_eq!(format!("{:?}", e), "VerifyError(\"illegal format for instance key : abc\")");
}

#[test]
fn stored_instance_reads_back() {
    let ins = sample();
    let raw = RawInstance::new(&ins, &Limits::new()).unwrap();
    assert_eq!(raw.ins_key, ins.key_no_state());
    assert_eq!(raw.from_key, "B:from:1|ff|p|-2");
    let back = raw.to().unwrap();
    assert_eq!(back, ins);
}

#[test]
fn empty_parts_are_stored_as_none() {
    let mut ins = Instance::default();
    ins.meta = "B:a:1".to_string();
    let raw = RawInstance::new(&ins, &Limits::new()).unwrap();
    assert_eq!(raw.context, None);
    assert_eq!(raw.sys_context, None);
    assert_eq!(raw.states, None);
    assert_eq!(raw.from_key, "");
    assert_eq!(raw.to().unwrap(), ins);
}

#[test]
fn limits_are_checked_in_order() {
    let mut ins = sample();
    let mut limits = Limits::new();
    limits.instance_content_max_length = 3;
    let e = RawInstance::new(&ins, &limits).unwrap_err();
    assert_eq!(format!("{:?}", e), "SystemError(\"content's length can' be over : 3\")");
    limits = Limits::new();
    limits.instance_context_max_length = 1;
    let e = RawInstance::new(&ins, &limits).unwrap_err();
    assert_eq!(format!("{:?}", e), "SystemError(\"context's length can' be over : 1\")");
    ins.context.clear();
    ins.sys_context.push(("u".to_string(), "v".to_string()));
    let e = RawInstance::new(&ins, &limits).unwrap_err();
    assert_eq!(format!("{:?}", e), "SystemError(\"sys_context's length can' be over : 1\")");
}

#[test]
fn default_limits() {
    let l = Limits::new();
    assert_eq!(l.instance_content_max_length, 65535);
    assert_eq!(l.instance_context_max_length, 65535);
    assert_eq!(l.task_content_max_length, 16777215);
}

#[test]
fn unreadable_raw_instance_is_refused() {
    let ins = sample();
    let mut raw = RawInstance::new(&ins, &Limits::new()).unwrap();
    raw.states = Some("not json".to_string());
    assert!(raw.to().is_err());
    let mut raw = RawInstance::new(&ins, &Limits::new()).unwrap();
    raw.ins_key = "no key".to_string();
    assert!(raw.to().is_err());
}

#[test]
fn context_to_raw_cases() {
    let ctx = vec![("b".to_string(), "1".to_string()), ("a".to_string(), "2".to_string())];
    assert_eq!(RawInstance::context_to_raw(&ctx, "context", 5).unwrap(), Some("{\"a\":\"2\",\"b\":\"1\"}".to_string()));
    assert_eq!(RawInstance::context_to_raw(&vec![], "context", 5).unwrap(), None);
    assert!(RawInstance::context_to_raw(&ctx, "context", 1).is_err());
}

#[test]
fn callback_result_default_is_no_instance() {
    match CallbackResult::default() {
        CallbackResult::Instances(v) => assert!(v.is_empty()),
        CallbackResult::Error(_) => panic!("no error was expected"),
    }
}

#[test]
fn id_is_generated_only_when_missing() {
    let mut ins = Instance::default();
    assert_eq!(ins.id_generate_if_not_set(42), 42);
    assert_eq!(ins.id, 42);
    assert_eq!(ins.id_generate_if_not_set(7), 42);
    assert_eq!(ins.id, 42);
}

#[test]
fn repeated_states_read_back_once() {
    let mut ins = Instance::default();
    ins.meta = "B:a:1".to_string();
    ins.states = vec!["x".to_string(), "y".to_string(), "x".to_string()];
    let raw = RawInstance::new(&ins, &Limits::new()).unwrap();
    let back = raw.to().unwrap();
    assert_eq!(back.states, vec!["x".to_string(), "y".to_string()]);
}

#[test]
fn rows_read_until_one_fails() {
    let ins = sample();
    let raw1 = RawInstance::new(&ins, &Limits::new()).unwrap();
    let raw2 = RawInstance::new(&ins, &Limits::new()).unwrap();
    let all = RawInstance::to_all(&vec![raw1, raw2]).unwrap();
    assert_eq!(all.len(), 2);
    assert_eq!(all[1], ins);
    let mut bad = RawInstance::new(&ins, &Limits::new()).unwrap();
    bad.ins_key = "bad".to_string();
    let good = RawInstance::new(&ins, &Limits::new()).unwrap();
    assert!(RawInstance::to_all(&vec![good, bad]).is_err());
    assert_eq!(RawInstance::to_all(&vec![]).unwrap().len(), 0);
}
