use nature_db::error::NatureError;
use nature_db::executor::{Executor, Protocol, TargetState};
use nature_db::meta::{Meta, MetaType};
use nature_db::one_step_flow::{OneStepFlow, OneStepFlowSettings};

fn executor(url: &str, group: &str, proportion: u32) -> Executor {
    Executor {
        protocol: Protocol::LocalRust,
        url: url.to_string(),
        group: group.to_string(),
        proportion,
        ..Default::default()
    }
}

// The meta cache of the test: every meta string names a business meta of version 1.
// The flows are read from "from" to "to", which are not meta strings of the form
// `<type>:<key>:<version>` that `Meta::from_string` reads; so the metas are made
// with `Meta::new`, keyed by those names.
fn meta_cache(m: &str) -> Result<Meta, NatureError> {
    Ok(Meta::new(m, 1, MetaType::Business))
}

fn one_group_settings() -> OneStepFlowSettings {
    OneStepFlowSettings {
        selector: None,
        executor: vec![executor("url_one", "grp_one", 100)],
        use_upstream_id: false,
        target_states: None,
    }
}

fn two_group_settings() -> OneStepFlowSettings {
    OneStepFlowSettings {
        selector: None,
        executor: vec![executor("url_one", "grp_one", 100), executor("url_two", "url_two", 200)],
        use_upstream_id: false,
        target_states: None,
    }
}

#[test]
fn one_step_info_one_group_is_ok() {
    let rtn = OneStepFlow::from_raw(Ok(one_group_settings()), meta_cache("from"), meta_cache("to"));
    assert_eq!(rtn.is_ok(), true);
}

#[test]
fn one_step_info_multiple_group_is_illegal() {
    let rtn = OneStepFlow::from_raw(Ok(two_group_settings()), meta_cache("from"), meta_cache("to"));
    assert_eq!(rtn, Err(NatureError::VerifyError("in one setting all executor's grpup must be same.".to_string())));
}

#[test]
fn can_group_is_ok() {
    let rtn = OneStepFlow::from_raw(Ok(one_group_settings()), meta_cache("from"), meta_cache("to"));
    assert_eq!(rtn.is_ok(), true);
}

#[test]
fn one_step_flow_multiple_group_is_illegal() {
    let rtn = OneStepFlow::from_raw(Ok(two_group_settings()), meta_cache("from"), meta_cache("to"));
    assert_eq!(rtn, Err(NatureError::VerifyError("in one setting all executor's grpup must be same.".to_string())));
}

#[test]
fn empty_group_takes_the_id() {
    let settings = OneStepFlowSettings {
        executor: vec![executor("a", "", 1), executor("b", "gid", 2)],
        ..Default::default()
    };
    let rtn = OneStepFlow::from_raw_with_id(Ok(settings), "gid".to_string(), meta_cache("from"), meta_cache("to")).unwrap();
    assert_eq!(rtn.len(), 2);
    assert_eq!(rtn[0].executor.group, "gid");
    assert_eq!(rtn[1].executor.group, "gid");
    assert_eq!(rtn[1].executor.url, "b");
    assert_eq!(rtn[0].from.key, "from");
    assert_eq!(rtn[0].to.key, "to");
}

#[test]
fn two_empty_groups_are_refused() {
    let settings = OneStepFlowSettings { executor: vec![executor("a", "", 1), executor("b", "", 2)], ..Default::default() };
    let rtn = OneStepFlow::from_raw_with_id(Ok(settings), "gid".to_string(), meta_cache("from"), meta_cache("to"));
    assert!(rtn.is_err());
}

#[test]
fn random_group_is_shared() {
    let settings = OneStepFlowSettings { executor: vec![executor("a", "", 1)], ..Default::default() };
    let rtn = OneStepFlow::from_raw(Ok(settings), meta_cache("from"), meta_cache("to")).unwrap();
    assert_eq!(rtn.len(), 1);
    assert!(!rtn[0].executor.group.is_empty());
}

#[test]
fn unified_group_cases() {
    let id = "id".to_string();
    assert_eq!(OneStepFlow::unified_group(&vec![], &id), Some(String::new()));
    assert_eq!(OneStepFlow::unified_group(&vec![executor("a", "g", 1), executor("b", "g", 1)], &id), Some("g".to_string()));
    assert_eq!(OneStepFlow::unified_group(&vec![executor("a", "g", 1), executor("b", "h", 1)], &id), None);
}

#[test]
fn settings_parse_error_is_verify_error() {
    let rtn = OneStepFlow::from_raw_with_id(Err("bad json".to_string()), "id".to_string(), meta_cache("from"), meta_cache("to"));
    assert_eq!(rtn, Err(NatureError::VerifyError("bad json".to_string())));
}

#[test]
fn meta_errors_are_passed_on() {
    let e = Err(NatureError::EnvironmentError("down".to_string()));
    let rtn = OneStepFlow::from_raw_with_id(Ok(one_group_settings()), "id".to_string(), e.clone(), meta_cache("to"));
    assert_eq!(rtn, e.map(|_: Meta| vec![]));
}

#[test]
fn undefined_flow_target_state_is_refused() {
    let settings = OneStepFlowSettings {
        executor: vec![executor("a", "g", 1)],
        target_states: Some(TargetState { add: Some(vec!["x".to_string()]), remove: None }),
        ..Default::default()
    };
    let rtn = OneStepFlow::from_raw_with_id(Ok(settings), "id".to_string(), meta_cache("from"), meta_cache("to"));
    assert_eq!(rtn, Err(NatureError::VerifyError("[to meta] did not defined state : [\"x\"] ".to_string())));
}

#[test]
fn label_groups_keep_first_appearance_order() {
    let flow = |url: &str, group: &str| OneStepFlow {
        from: Meta::default(),
        to: Meta::default(),
        selector: None,
        executor: executor(url, group, 1),
        use_upstream_id: false,
        target_states: None,
    };
    let flows = vec![flow("1", "b"), flow("2", "a"), flow("3", "b")];
    let groups = OneStepFlow::get_label_groups(&flows);
    assert_eq!(groups.len(), 2);
    assert_eq!(groups[0].0, "b");
    assert_eq!(groups[0].1.len(), 2);
    assert_eq!(groups[0].1[0].executor.url, "1");
    assert_eq!(groups[0].1[1].executor.url, "3");
    assert_eq!(groups[1].0, "a");
    assert_eq!(groups[1].1[0].executor.url, "2");
}
