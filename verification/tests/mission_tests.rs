use nature_db::error::NatureError;
use nature_db::executor::{Executor, RelationTarget, TargetState};
use nature_db::instance::Instance;
use nature_db::meta::Meta;
use nature_db::mission::{get_delay, get_delay_at, para_part, Mission};
use nature_db::relation::Relation;
use nature_db::selector::FlowSelector;

#[test]
fn get_delay_test() {
    // none delay set
    let mut ins = Instance::default();
    let mut relation = Relation::default();
    let result = get_delay(&ins, &relation).unwrap();
    assert_eq!(result, 0);

    // para delay is set, but para not set
    relation.delay_on_pare = (100, 0);
    let result = get_delay(&ins, &relation);
    assert_eq!(result.is_err(), true);

    // para delay is set
    ins.para = (chrono::Local::now().timestamp_millis() + 200000).to_string();
    let result = get_delay(&ins, &relation).unwrap();
    assert_eq!(result >= 299 && result <= 300, true);

    // delay is set, delay is the high priority
    relation.delay = 50;
    ins.para = chrono::Local::now().timestamp_millis().to_string();
    let result = get_delay(&ins, &relation).unwrap();
    assert_eq!(result, 50);
}

#[test]
fn state_verify() {
    let mut relation = Relation::default();
    let mut selector = FlowSelector::default();
    selector.source_state_any.push("a".to_string());
    relation.selector = Some(selector);
    let relations = vec![relation];
    let mut instance = Instance::default();
    let rtn = Mission::get_by_instance(&instance, &relations);
    assert_eq!(rtn.is_empty(), true);
    instance.states.push("a".to_string());
    let rtn = Mission::get_by_instance(&instance, &relations);
    assert_eq!(rtn.is_empty(), false);
}

#[test]
fn sys_context_verify() {
    let mut relation = Relation::default();
    let mut selector = FlowSelector::default();
    selector.sys_context_any.push("a".to_string());
    relation.selector = Some(selector);
    let relations = vec![relation];
    let mut instance = Instance::default();
    let rtn = Mission::get_by_instance(&instance, &relations);
    assert_eq!(rtn.is_empty(), true);
    instance.sys_context.push(("a".to_string(), "x".to_string()));
    let rtn = Mission::get_by_instance(&instance, &relations);
    assert_eq!(rtn.is_empty(), false);
}

#[test]
fn context_verify() {
    let mut relation = Relation::default();
    let mut selector = FlowSelector::default();
    selector.context_any.push("a".to_string());
    relation.selector = Some(selector);
    let relations = vec![relation];
    let mut instance = Instance::default();
    let rtn = Mission::get_by_instance(&instance, &relations);
    assert_eq!(rtn.is_empty(), true);
    instance.context.push(("a".to_string(), "x".to_string()));
    let rtn = Mission::get_by_instance(&instance, &relations);
    assert_eq!(rtn.is_empty(), false);
}

#[test]
fn mission_copy_from_relation() {
    let meta = Meta::from_string("B:hello:1").unwrap();
    let executor = Executor::for_local("abc");
    let mut state = TargetState::default();
    state.add = Some(vec!["a".to_string()]);
    let state = Some(state);
    let target = RelationTarget {
        states: state.clone(),
        copy_para: vec![],
    };
    let mut relation = Relation::default();
    relation.from = "a".to_string();
    relation.to = meta.clone();
    relation.executor = executor.clone();
    relation.use_upstream_id = true;
    relation.target = target;
    relation.delay = 2;
    let relations = vec![relation];
    let rtn = Mission::get_by_instance(&Instance::default(), &relations);
    let rtn = &rtn[0];
    assert_eq!(rtn.delay, 2);
    assert_eq!(rtn.executor, executor);
    assert_eq!(rtn.to, meta);
    assert_eq!(rtn.use_upstream_id, true);
    assert_eq!(rtn.target_demand.states, state);
}

#[test]
fn many_relations() {
    let relations = vec![Relation::default(), Relation::default(), Relation::default()];
    let rtn = Mission::get_by_instance(&Instance::default(), &relations);
    assert_eq!(rtn.len(), 3);
}

#[test]
fn one_relation_but_no_selector() {
    let relations = vec![Relation::default()];
    let rtn = Mission::get_by_instance(&Instance::default(), &relations);
    assert_eq!(rtn.len(), 1);
}

#[test]
fn no_relation() {
    let rtn = Mission::get_by_instance(&Instance::default(), &vec![]);
    assert_eq!(rtn.is_empty(), true);
}

#[test]
fn delay_counts_seconds_to_the_para_time() {
    let mut relation = Relation::default();
    relation.delay_on_pare = (10, 1);
    let mut ins = Instance::default();
    ins.para = "x/5000".to_string();
    // 5000 ms ahead of 1000 ms is 4 s, plus 10
    assert_eq!(get_delay_at(&ins, &relation, 1000).unwrap(), 14);
    // in the past: -1.5 s truncates to -1
    assert_eq!(get_delay_at(&ins, &relation, 6500).unwrap(), 9);
    // the part is not a number
    ins.para = "x/abc".to_string();
    assert!(get_delay_at(&ins, &relation, 0).is_err());
    // there is no such part
    ins.para = "x".to_string();
    assert!(get_delay_at(&ins, &relation, 0).is_err());
}

#[test]
fn para_part_picks_by_position() {
    assert_eq!(para_part("a/b/c", 1).unwrap(), "b");
    assert_eq!(para_part("a/b/c", 0).unwrap(), "a");
    assert!(para_part("a/b/c", 3).is_err());
}

#[test]
fn own_delay_wins_over_para() {
    let mut relation = Relation::default();
    relation.delay = 7;
    relation.delay_on_pare = (10, 5);
    assert_eq!(get_delay_at(&Instance::default(), &relation, 0).unwrap(), 7);
}

#[test]
fn relations_with_unreadable_delay_are_left_out() {
    let mut bad = Relation::default();
    bad.delay_on_pare = (1, 3);
    let mut good = Relation::default();
    good.delay = 4;
    let rtn = Mission::get_by_instance_at(&Instance::default(), &vec![bad, good], 0);
    assert_eq!(rtn.len(), 1);
    assert_eq!(rtn[0].delay, 4);
}

#[test]
fn from_relation_copies_fields() {
    let mut relation = Relation::default();
    relation.use_upstream_id = true;
    relation.executor = Executor::for_local("u");
    let m = Mission::from_relation(&relation, 9);
    assert_eq!(m.delay, 9);
    assert!(m.use_upstream_id);
    assert_eq!(m.executor.url, "u");
    assert!(m.sys_context.is_empty());
}

#[test]
fn delay_error_messages() {
    let mut relation = Relation::default();
    relation.delay_on_pare = (1, 2);
    let mut ins = Instance::default();
    ins.para = "a/b".to_string();
    assert_eq!(
        get_delay_at(&ins, &relation, 0),
        Err(NatureError::VerifyError("the para has no part at the position the delay points to".to_string()))
    );
    ins.para = "a/b/c".to_string();
    assert_eq!(
        get_delay_at(&ins, &relation, 0),
        Err(NatureError::VerifyError("the para part the delay points to is not a time".to_string()))
    );
}
