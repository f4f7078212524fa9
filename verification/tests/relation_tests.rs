use nature_db::error::NatureError;
use nature_db::executor::{Executor, Protocol, RelationTarget, TargetState};
use nature_db::meta::{Meta, MetaSetting};
use nature_db::relation::{RawRelation, Relation, RelationSettings};

fn raw(settings: &str) -> RawRelation {
    RawRelation {
        from_meta: "B:from:1".to_string(),
        to_meta: "B:to:1".to_string(),
        settings: settings.to_string(),
        flag: 1,
    }
}

fn master_meta() -> Meta {
    let mut rtn = Meta::from_string("B:to:1").unwrap();
    rtn.setting = Some(MetaSetting { master: Some("B:from:1".to_string()), ..Default::default() });
    rtn
}

#[test]
fn master_should_have_relation() {
    // the settings `{}` parse to the default settings
    let rtn = Relation::from_raw(raw("{}"), Ok(RelationSettings::default()), Ok(master_meta())).unwrap();
    assert_eq!(rtn.executor.protocol, Protocol::Auto);
}

#[test]
fn setting_error_test() {
    let rtn = Relation::from_raw(raw("dd"), Err("expected value at line 1 column 1".to_string()), Meta::from_string("B:to:1"));
    assert_eq!(format!("{:?}", rtn.err().unwrap()).contains("relation[B:from:1  --->  B:to:1]"), true);
}

#[test]
fn relation_one_group_is_ok() {
    let settings = RelationSettings {
        selector: None,
        executor: Some(Executor {
            protocol: Protocol::LocalRust,
            url: "url_one".to_string(),
            settings: "".to_string(),
            ..Default::default()
        }),
        filter_before: vec![],
        filter_after: vec![],
        use_upstream_id: false,
        target: Default::default(),
        delay: 0,
        delay_on_para: (0, 0),
        id_bridge: false,
    };
    let rtn = Relation::from_raw(raw("{\"executor\":{\"protocol\":\"localRust\",\"url\":\"url_one\"}}"), Ok(settings), Meta::from_string("B:to:1"));
    assert_eq!(rtn.is_ok(), true);
}

#[test]
fn no_executor_and_no_master_is_refused() {
    let rtn = Relation::from_raw(raw("{}"), Ok(RelationSettings::default()), Meta::from_string("B:to:1"));
    assert_eq!(rtn, Err(NatureError::VerifyError("master or executor should be defined".to_string())));
}

#[test]
fn auto_protocol_is_refused() {
    let settings = RelationSettings { executor: Some(Executor::new_auto()), ..Default::default() };
    let rtn = Relation::from_raw(raw("{}"), Ok(settings), Ok(master_meta()));
    assert_eq!(
        rtn,
        Err(NatureError::VerifyError("relation[B:from:1  --->  B:to:1] Protocol::Auto can not be used by user. ".to_string()))
    );
}

#[test]
fn meta_error_is_passed_on() {
    let rtn = Relation::from_raw(raw("{}"), Ok(RelationSettings::default()), Err(NatureError::EnvironmentError("down".to_string())));
    assert_eq!(rtn, Err(NatureError::EnvironmentError("down".to_string())));
}

#[test]
fn setting_error_message() {
    let rtn = Relation::from_raw(raw("dd"), Err("bad".to_string()), Meta::from_string("B:to:1"));
    assert_eq!(rtn, Err(NatureError::VerifyError("relation[B:from:1  --->  B:to:1]'s setting format error: bad".to_string())));
}

#[test]
fn undefined_target_state_is_refused() {
    let mut to = Meta::from_string("B:to:1").unwrap();
    to.state = Some(vec!["a".to_string()]);
    let target = RelationTarget {
        states: Some(TargetState { add: Some(vec!["a".to_string(), "b".to_string()]), remove: None }),
        copy_para: vec![],
    };
    let settings = RelationSettings { executor: Some(Executor::for_local("x")), target, ..Default::default() };
    let rtn = Relation::from_raw(raw("{}"), Ok(settings), Ok(to));
    assert_eq!(rtn, Err(NatureError::VerifyError("[to meta] did not defined state : [\"b\"] ".to_string())));
}

#[test]
fn defined_target_states_pass() {
    let mut to = Meta::from_string("B:to:1").unwrap();
    to.state = Some(vec!["a".to_string(), "b".to_string()]);
    let ts = Some(TargetState { add: Some(vec!["a".to_string()]), remove: Some(vec!["b".to_string()]) });
    assert!(Relation::check_target_states(&to, &ts).is_ok());
    assert!(Relation::check_state(&to, &vec!["c".to_string()]).is_err());
}

#[test]
fn relation_string_joins_from_and_to() {
    let mut r = Relation::default();
    r.from = "B:a:1".to_string();
    r.to = Meta::from_string("B:b:2").unwrap();
    assert_eq!(r.relation_string(), "B:a:1->B:b:2");
    assert_eq!(raw("{}").get_string(), "relation[B:from:1  --->  B:to:1]");
}
