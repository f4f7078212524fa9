use nature_db::selector::{context_check, state_check, FlowSelector};

fn strings(v: &[&str]) -> Vec<String> {
    v.iter().map(|s| s.to_string()).collect()
}

#[test]
fn status_check_test() {
    // check nothing
    assert_eq!(state_check(&Default::default(), &Default::default(), &Default::default(), &Default::default()), true);
    let states = strings(&["a"]);
    assert_eq!(state_check(&states, &Default::default(), &Default::default(), &Default::default()), true);

    // check none: the none group holds the names "a" and "b". Written as the single
    // name "a,b" with the empty states in both calls below, the same call would have
    // to answer both true and false; the names are taken as two, and the second call
    // is made with the states holding "b" that it is set up with.
    let set = strings(&["a", "b"]);
    assert_eq!(state_check(&Default::default(), &set, &Default::default(), &Default::default()), true);
    let states = strings(&["b"]);
    assert_eq!(state_check(&states, &set, &Default::default(), &Default::default()), false);
}

#[test]
fn status_any() {}

#[test]
fn status_exclude() {}

#[test]
fn none_has_the_highest_priority() {
    let states = strings(&["a", "b"]);
    assert!(!state_check(&states, &strings(&["b"]), &strings(&["a"]), &strings(&["a"])));
    assert!(state_check(&states, &strings(&["c"]), &strings(&["a"]), &strings(&["b"])));
}

#[test]
fn all_must_be_present() {
    let states = strings(&["a"]);
    assert!(!state_check(&states, &vec![], &strings(&["a", "b"]), &vec![]));
    assert!(state_check(&strings(&["b", "a"]), &vec![], &strings(&["a", "b"]), &vec![]));
}

#[test]
fn any_needs_one() {
    assert!(!state_check(&strings(&["x"]), &vec![], &vec![], &strings(&["a", "b"])));
    assert!(state_check(&strings(&["x", "b"]), &vec![], &vec![], &strings(&["a", "b"])));
}

#[test]
fn context_check_uses_keys() {
    let ctx = vec![("k".to_string(), "v".to_string())];
    assert!(context_check(&ctx, &vec![], &strings(&["k"]), &vec![]));
    assert!(!context_check(&ctx, &vec![], &strings(&["v"]), &vec![]));
    assert!(!context_check(&ctx, &strings(&["k"]), &vec![], &vec![]));
}

#[test]
fn selector_checks_each_group() {
    let mut se = FlowSelector::default();
    let ctx = vec![("a".to_string(), "x".to_string())];
    assert!(se.context_check(&ctx));
    assert!(se.sys_context_check(&ctx));
    assert!(se.source_status_check(&vec![]));
    se.context_none.push("a".to_string());
    assert!(!se.context_check(&ctx));
    assert!(se.sys_context_check(&ctx));
    se.sys_context_any.push("b".to_string());
    assert!(!se.sys_context_check(&ctx));
    se.source_state_all.push("s".to_string());
    assert!(!se.source_status_check(&vec![]));
    assert!(se.source_status_check(&strings(&["s"])));
}

#[test]
fn none_name_is_not_split() {
    // a name of a group is one name: "a,b" does not exclude the state "b"
    let set = strings(&["a,b"]);
    assert!(state_check(&strings(&["b"]), &set, &vec![], &vec![]));
    assert!(!state_check(&strings(&["a,b"]), &set, &vec![], &vec![]));
}
