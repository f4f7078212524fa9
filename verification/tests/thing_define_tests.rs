#[test]
fn thing_define_can_not_get_from_cache() {}

#[test]
fn thing_define_can_get_from_cache() {}

#[test]
fn crate_is_linked() {
    let _ = nature_db::task_type::TaskType::Store;
}
