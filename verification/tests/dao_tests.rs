use nature_db::dao::{
    AfterErrorInsert, StorePlanDaoImpl,
    one_or_none, para_select, IDAndFrom, InstanceDaoImpl, KeyCondition, OneStepFlowDaoImpl, RelationDaoImpl, TaskDaoImpl,
    CONTEXT_TARGET_INSTANCE_ID, CONTEXT_TARGET_INSTANCE_PARA,
};
use nature_db::executor::Protocol;
use nature_db::relation::Relation;
use nature_db::error::{DatabaseErrorKind, DbFailure, NatureError};
use nature_db::executor::Executor;
use nature_db::instance::Instance;
use nature_db::meta::{Meta, MetaSetting};
use nature_db::mission::Mission;
use nature_db::one_step_flow::OneStepFlow;
use nature_db::selector::{context_insert, context_value};

#[test]
fn at_most_one_row() {
    let e = NatureError::LogicalError("too many".to_string());
    assert_eq!(one_or_none(Vec::<u8>::new(), e.clone()), Ok(None));
    assert_eq!(one_or_none(vec![7u8], e.clone()), Ok(Some(7)));
    assert_eq!(one_or_none(vec![7u8, 8], e.clone()), Err(e));
}

#[test]
fn duplicate_task_is_no_insert() {
    assert_eq!(TaskDaoImpl::insert_outcome(Ok(1)), Ok(1));
    assert_eq!(TaskDaoImpl::insert_outcome(Err(NatureError::DaoDuplicated("d".to_string()))), Ok(0));
    assert_eq!(
        TaskDaoImpl::insert_outcome(Err(NatureError::SystemError("s".to_string()))),
        Err(NatureError::SystemError("s".to_string()))
    );
}

fn flow(url: &str) -> OneStepFlow {
    OneStepFlow {
        from: Meta::default(),
        to: Meta::default(),
        selector: None,
        executor: Executor::for_local(url),
        use_upstream_id: false,
        target_states: None,
    }
}

#[test]
fn flows_are_collected_skipping_failures() {
    let r = OneStepFlowDaoImpl::collect_flows(vec![
        Ok(vec![flow("a")]),
        Err(NatureError::VerifyError("x".to_string())),
        Ok(vec![flow("b"), flow("c")]),
    ]);
    let urls: Vec<String> = r.unwrap().into_iter().map(|f| f.executor.url).collect();
    assert_eq!(urls, vec!["a", "b", "c"]);
    assert_eq!(OneStepFlowDaoImpl::collect_flows(vec![Ok(vec![]), Err(NatureError::VerifyError("x".to_string()))]), None);
}

#[test]
fn key_condition_reads_task_keys() {
    let c = InstanceDaoImpl::key_condition("B:a:1|ff|p|2", "|").unwrap();
    assert_eq!(c.meta, "B:a:1");
    assert_eq!(c.id, "ff");
    assert_eq!(c.para, "p");
    assert_eq!(c.state_version, 2);
    assert_eq!(c.limit, 1);
    assert_eq!(c.get_key(), "B:a:1|ff|p");
    let c = InstanceDaoImpl::key_condition("B:a:1::ff::::3", "::").unwrap();
    assert_eq!(c.id, "ff");
    assert_eq!(c.para, "");
    assert!(InstanceDaoImpl::key_condition("B:a:1|ff|p", "|").is_err());
    assert!(InstanceDaoImpl::key_condition("B:a:1|ff|p|x", "|").is_err());
}

#[test]
fn key_condition_new() {
    let c = KeyCondition::new(255, "B:a:1", "p", 4);
    assert_eq!(c.id, "ff");
    assert_eq!(c.state_version, 4);
    assert_eq!(c.time_ge, None);
    assert_eq!(c.get_key(), "B:a:1|ff|p");
}

#[test]
fn para_select_joins_chosen_parts() {
    assert_eq!(para_select("a/b/c", &vec![2, 0]).unwrap(), "c/a");
    assert_eq!(para_select("a/b/c", &vec![]).unwrap(), "");
    assert!(para_select("a/b/c", &vec![3]).is_err());
}

fn state_meta() -> Meta {
    let mut m = Meta::from_string("B:to:1").unwrap();
    m.is_state = true;
    m
}

#[test]
fn target_without_states_has_no_condition() {
    let mut mission = Mission::default();
    mission.to = Meta::from_string("B:to:1").unwrap();
    assert_eq!(InstanceDaoImpl::last_target_condition(&Instance::default(), &mut mission), Ok(None));
}

#[test]
fn upstream_id_is_taken_and_remembered() {
    let mut from = Instance::default();
    from.id = 0x1f;
    from.para = "x/y".to_string();
    let mut mission = Mission::default();
    mission.to = state_meta();
    mission.use_upstream_id = true;
    mission.target_demand.copy_para = vec![1];
    let c = InstanceDaoImpl::last_target_condition(&from, &mut mission).unwrap().unwrap();
    assert_eq!(c.id, "1f");
    assert_eq!(c.meta, "B:to:1");
    assert_eq!(c.para, "y");
    assert_eq!(context_value(&mission.sys_context, CONTEXT_TARGET_INSTANCE_ID), Some("1f".to_string()));
    assert_eq!(context_value(&mission.sys_context, CONTEXT_TARGET_INSTANCE_PARA), Some("y".to_string()));
}

#[test]
fn master_gives_the_upstream_id() {
    let mut from = Instance::default();
    from.id = 9;
    from.meta = "B:m:1".to_string();
    let mut mission = Mission::default();
    mission.to = state_meta();
    mission.to.setting = Some(MetaSetting { master: Some("B:m:1".to_string()), ..Default::default() });
    let c = InstanceDaoImpl::last_target_condition(&from, &mut mission).unwrap().unwrap();
    assert_eq!(c.id, "9");
}

#[test]
fn context_id_wins_and_bad_id_is_refused() {
    let mut from = Instance::default();
    from.id = 9;
    let mut mission = Mission::default();
    mission.to = state_meta();
    mission.use_upstream_id = true;
    context_insert(&mut mission.sys_context, CONTEXT_TARGET_INSTANCE_ID.to_string(), "a".to_string());
    let c = InstanceDaoImpl::last_target_condition(&from, &mut mission).unwrap().unwrap();
    assert_eq!(c.id, "a");
    context_insert(&mut mission.sys_context, CONTEXT_TARGET_INSTANCE_ID.to_string(), "zz".to_string());
    assert!(InstanceDaoImpl::last_target_condition(&from, &mut mission).is_err());
}

#[test]
fn no_upstream_gives_id_zero() {
    let mut mission = Mission::default();
    mission.to = state_meta();
    let c = InstanceDaoImpl::last_target_condition(&Instance::default(), &mut mission).unwrap().unwrap();
    assert_eq!(c.id, "0");
    assert!(mission.sys_context.is_empty());
}

#[test]
fn missing_para_part_is_refused() {
    let mut mission = Mission::default();
    mission.to = state_meta();
    mission.target_demand.copy_para = vec![4];
    assert!(InstanceDaoImpl::last_target_condition(&Instance::default(), &mut mission).is_err());
}

#[test]
fn meta_query_builds_the_statement() {
    let cond = KeyCondition {
        id: "".to_string(),
        meta: "B:sale/order:1".to_string(),
        key_gt: "".to_string(),
        para: "".to_string(),
        state_version: 0,
        time_ge: Some(1588508143000),
        time_lt: Some(1588508144000),
        limit: 100,
    };
    assert_eq!(cond.id_like(), "B:sale/order:1|%");
    let sql = InstanceDaoImpl::meta_query(&cond, Some("2020-05-03 20:15:43".to_string()), Some("2020-05-03 20:15:44".to_string()), 50);
    assert_eq!(
        sql,
        "SELECT ins_key, content, context, states, state_version, create_time, sys_context, from_key FROM instances \
         where ins_key like :id_like and create_time >= '2020-05-03 20:15:43' and create_time < '2020-05-03 20:15:44' \
         order by ins_key limit 50"
    );
    let mut cond = cond;
    cond.key_gt = "B:sale/order:1|a".to_string();
    let sql = InstanceDaoImpl::meta_query(&cond, None, None, 500);
    assert!(sql.ends_with("where ins_key like :id_like and ins_key > 'B:sale/order:1|a' order by ins_key limit 100"));
}

#[test]
fn upstream_pattern() {
    let f = IDAndFrom { id: 255, meta: "B:a:1".to_string(), from_key: "B:f:1|1||0".to_string() };
    assert_eq!(f.para_like(), "B:a:1|ff|%");
}

#[test]
fn relations_are_collected_until_an_error() {
    let mut a = Relation::default();
    a.from = "a".to_string();
    let mut b = Relation::default();
    b.from = "b".to_string();
    let r = RelationDaoImpl::collect_relations(vec![Ok(a.clone()), Ok(b.clone())]).unwrap();
    assert_eq!(r, vec![a.clone(), b]);
    let e = RelationDaoImpl::collect_relations(vec![
        Ok(a),
        Err(NatureError::VerifyError("first".to_string())),
        Err(NatureError::VerifyError("second".to_string())),
    ]);
    assert_eq!(e, Err(NatureError::VerifyError("first".to_string())));
    assert_eq!(RelationDaoImpl::collect_relations(vec![]), Ok(vec![]));
}

#[test]
fn business_relation_settings() {
    let s = RelationDaoImpl::biz_settings("url", "http").unwrap();
    let e = s.executor.unwrap();
    assert_eq!(e.protocol, Protocol::Http);
    assert_eq!(e.url, "url");
    assert!(s.selector.is_none());
    assert_eq!(s.delay, 0);
    assert_eq!(RelationDaoImpl::biz_settings("url", "tcp").unwrap_err(), NatureError::VerifyError("unknown protocol : tcp".to_string()));
}

#[test]
fn errors_copy() {
    let e = NatureError::MetaNotDefined("m".to_string());
    assert_eq!(e.copy(), e);
}

#[test]
fn failed_task_keeping() {
    assert!(matches!(TaskDaoImpl::after_error_insert(Ok(1)), AfterErrorInsert::DeleteThenAnswer(1)));
    assert!(matches!(
        TaskDaoImpl::after_error_insert(Err(DbFailure::DatabaseError(DatabaseErrorKind::UniqueViolation, "dup".to_string()))),
        AfterErrorInsert::DeleteAnyway
    ));
    match TaskDaoImpl::after_error_insert(Err(DbFailure::DatabaseError(DatabaseErrorKind::Unknown, "gone".to_string()))) {
        AfterErrorInsert::Fail(e) => assert_eq!(e, NatureError::EnvironmentError("gone".to_string())),
        _ => panic!("a failure was expected"),
    }
    match TaskDaoImpl::after_error_insert(Err(DbFailure::Other("io".to_string()))) {
        AfterErrorInsert::Fail(e) => assert_eq!(e, NatureError::SystemError("io".to_string())),
        _ => panic!("a failure was expected"),
    }
}

#[test]
fn plan_outcomes() {
    assert_eq!(StorePlanDaoImpl::save_outcome(Ok(1), "u", "d"), Ok(()));
    assert_eq!(StorePlanDaoImpl::save_outcome(Ok(2), "u", "d"), Err(NatureError::SystemError("should insert 1 but get 2".to_string())));
    assert_eq!(
        StorePlanDaoImpl::save_outcome(Err(DbFailure::DatabaseError(DatabaseErrorKind::UniqueViolation, "x".to_string())), "u", "d"),
        Err(NatureError::DaoDuplicated("upstream : u, downstream : d".to_string()))
    );
    assert_eq!(StorePlanDaoImpl::get_outcome(Ok(Vec::<u8>::new())), Ok(None));
    assert_eq!(StorePlanDaoImpl::get_outcome(Ok(vec![3u8])), Ok(Some(3)));
    assert_eq!(StorePlanDaoImpl::get_outcome(Ok(vec![3u8, 4, 5])), Err(NatureError::SystemError("not 1 or 0 but get 3".to_string())));
    assert_eq!(StorePlanDaoImpl::get_outcome::<u8>(Err(DbFailure::Other("e".to_string()))), Err(NatureError::SystemError("e".to_string())));
}

#[test]
fn key_and_target_error_messages() {
    assert_eq!(
        InstanceDaoImpl::key_condition("a|b", "|").unwrap_err(),
        NatureError::VerifyError("error key format for task".to_string())
    );
    assert_eq!(
        InstanceDaoImpl::key_condition("a|b|c|d", "|").unwrap_err(),
        NatureError::VerifyError("error state version in task key".to_string())
    );
    assert_eq!(para_select("a", &vec![1]).unwrap_err(), NatureError::VerifyError("the para has no part at a position asked for".to_string()));
    let mut mission = Mission::default();
    mission.to = state_meta();
    context_insert(&mut mission.sys_context, CONTEXT_TARGET_INSTANCE_ID.to_string(), "xyz".to_string());
    assert_eq!(
        InstanceDaoImpl::last_target_condition(&Instance::default(), &mut mission).unwrap_err(),
        NatureError::VerifyError("the target id in the context is not hexadecimal".to_string())
    );
}

#[test]
fn business_flow_settings() {
    let s = OneStepFlowDaoImpl::biz_settings("u", "https").unwrap();
    assert_eq!(s.executor.len(), 1);
    assert_eq!(s.executor[0].protocol, Protocol::Https);
    assert_eq!(s.executor[0].url, "u");
    assert_eq!(s.executor[0].group, "");
    assert_eq!(s.executor[0].proportion, 1);
    assert!(OneStepFlowDaoImpl::biz_settings("u", "x").is_err());
}
