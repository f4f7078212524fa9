use nature_db::cache::{MetaCacheImpl, MetaStep, RelationCacheImpl};
use nature_db::error::NatureError;
use nature_db::meta::{Meta, MetaSetting, MetaType};
use nature_db::raw_meta::RawMeta;
use nature_db::relation::Relation;

// One `get` of the relation cache: the cache, else the store (`fetch`).
fn get_relations(c: &mut RelationCacheImpl, from: &str, fetch: Result<Vec<Relation>, NatureError>) -> Result<Vec<Relation>, NatureError> {
    match c.lookup(from) {
        Some(v) => Ok(v),
        None => c.on_fetched(from, fetch),
    }
}

#[test]
fn relation_cache_get_error() {
    let from = "B:error:1";
    let mut c = RelationCacheImpl::new();
    let result = get_relations(&mut c, from, Err(NatureError::EnvironmentError("can't connect".to_string())));
    assert_eq!(result, Err(NatureError::EnvironmentError("can't connect".to_string())));
    // error can't be catched
    let result = get_relations(&mut c, from, Err(NatureError::EnvironmentError("another error".to_string())));
    assert_eq!(result, Err(NatureError::EnvironmentError("another error".to_string())));
}

#[test]
fn relation_cache_get_none() {
    let from = "B:none:1";
    let mut c = RelationCacheImpl::new();
    let result = get_relations(&mut c, from, Ok(vec![]));
    assert_eq!(result.is_ok(), true);
    let result = result.unwrap();
    assert_eq!(result.is_empty(), true);
    // and the repeated call will not ask the store but get from cache
    let result = get_relations(&mut c, from, Err(NatureError::EnvironmentError("can't connect".to_string())));
    assert_eq!(result.is_ok(), true);
    let result = result.unwrap();
    assert_eq!(result.is_empty(), true);
}

#[test]
fn relation_cache_keeps_what_was_fetched() {
    let mut c = RelationCacheImpl::new();
    let mut r = Relation::default();
    r.from = "B:a:1".to_string();
    let got = c.on_fetched("B:a:1", Ok(vec![r.clone()])).unwrap();
    assert_eq!(got, vec![r.clone()]);
    assert_eq!(c.lookup("B:a:1"), Some(vec![r]));
    assert_eq!(c.lookup("B:b:1"), None);
}

#[test]
fn empty_meta_string_is_refused() {
    let mut c = MetaCacheImpl::new();
    assert_eq!(c.lookup(""), Some(Err(NatureError::VerifyError("[biz] can not be empty!".to_string()))));
}

#[test]
fn undefined_meta_is_refused_but_null_and_dynamic_need_none() {
    let mut c = MetaCacheImpl::new();
    assert!(c.lookup("B:x:1").is_none());
    match c.on_fetched("B:x:1", Ok(None)) {
        MetaStep::Done(r) => assert_eq!(r, Err(NatureError::VerifyError("B:x:1 not defined".to_string()))),
        _ => panic!("a done step was expected"),
    }
    assert!(c.lookup("B:x:1").is_none());
    match c.on_fetched("N:x:1", Ok(None)) {
        MetaStep::Done(r) => assert_eq!(r.unwrap().meta_type, MetaType::Null),
        _ => panic!("a done step was expected"),
    }
    assert_eq!(c.lookup("N:x:1").unwrap().unwrap().meta_type, MetaType::Null);
    match c.on_fetched("D:x:1", Ok(None)) {
        MetaStep::Done(r) => assert_eq!(r.unwrap().meta_type, MetaType::Dynamic),
        _ => panic!("a done step was expected"),
    }
}

#[test]
fn store_error_is_answered_and_not_cached() {
    let mut c = MetaCacheImpl::new();
    match c.on_fetched("B:x:1", Err(NatureError::EnvironmentError("down".to_string()))) {
        MetaStep::Done(r) => assert_eq!(r, Err(NatureError::EnvironmentError("down".to_string()))),
        _ => panic!("a done step was expected"),
    }
    assert!(c.lookup("B:x:1").is_none());
}

#[test]
fn stored_meta_is_cached() {
    let mut c = MetaCacheImpl::new();
    let raw = RawMeta::from_meta(&Meta::from_string("B:test:3").unwrap(), String::new(), chrono::Local::now().timestamp_millis());
    match c.on_fetched("B:test:3", Ok(Some((raw, Ok(MetaSetting::default()))))) {
        MetaStep::Done(r) => assert_eq!(r.unwrap().version, 3),
        _ => panic!("a done step was expected"),
    }
    assert_eq!(c.lookup("B:test:3").unwrap().unwrap().get_full_key(), "/B/test");
}

#[test]
fn multi_meta_is_cached_with_its_sub_metas_to_load() {
    let mut c = MetaCacheImpl::new();
    let setting = MetaSetting { multi_meta: vec!["B:p/a:1".to_string(), "B:p/b:1".to_string()], ..Default::default() };
    let mut raw = RawMeta::from_meta(&Meta::from_string("M:test:3").unwrap(), String::new(), chrono::Local::now().timestamp_millis());
    raw.config = "{\"multi_meta\":[\"B:p/a:1\",\"B:p/b:1\"]}".to_string();
    assert!(c.lookup("test").is_none());
    match c.on_fetched("test", Ok(Some((raw, Ok(setting))))) {
        MetaStep::LoadSubMetas(m, subs) => {
            assert_eq!(m.meta_type, MetaType::Multi);
            assert_eq!(subs, vec!["B:p/a:1".to_string(), "B:p/b:1".to_string()]);
        },
        _ => panic!("a sub-meta step was expected"),
    }
    assert!(c.lookup("test").is_some());
    // each sub-meta is loaded in turn
    for sub in ["B:p/a:1", "B:p/b:1"] {
        assert!(c.lookup(sub).is_none());
        let raw = RawMeta::from_meta(&Meta::from_string(sub).unwrap(), String::new(), chrono::Local::now().timestamp_millis());
        let _ = c.on_fetched(sub, Ok(Some((raw, Ok(MetaSetting::default())))));
        assert!(c.lookup(sub).is_some());
    }
}

#[test]
fn meta_with_master_waits_for_its_master() {
    let mut c = MetaCacheImpl::new();
    let setting = MetaSetting { master: Some("B:m:1".to_string()), ..Default::default() };
    let mut raw = RawMeta::from_meta(&Meta::from_string("B:s:1").unwrap(), String::new(), chrono::Local::now().timestamp_millis());
    raw.config = "{\"master\":\"B:m:1\"}".to_string();
    let m = match c.on_fetched("B:s:1", Ok(Some((raw, Ok(setting))))) {
        MetaStep::LoadMaster(m, master) => {
            assert_eq!(master, "B:m:1");
            m
        },
        _ => panic!("a master step was expected"),
    };
    assert!(c.lookup("B:s:1").is_none());
    let m = c.record("B:s:1", m);
    assert_eq!(m.get_key(), "s");
    assert!(c.lookup("B:s:1").is_some());
}
