use nature_db::error::{DatabaseErrorKind, DbError, DbFailure, NatureError};
use nature_db::raw_instance::Limits;
use nature_db::raw_task::{BatchEvent, BatchStep, RawTask, RawTaskError};
use nature_db::task_type::TaskType;

#[test]
fn task_types_by_number() {
    assert_eq!(TaskType::try_from(1), Ok(TaskType::Store));
    assert_eq!(TaskType::try_from(2), Ok(TaskType::Convert));
    assert_eq!(TaskType::try_from(11), Ok(TaskType::ParallelBatch));
    assert_eq!(TaskType::try_from(12), Ok(TaskType::QueueBatch));
    assert_eq!(TaskType::try_from(3), Err(NatureError::VerifyError("undefined [3] for `TaskType`".to_string())));
    assert_eq!(TaskType::try_from(-5), Err(NatureError::VerifyError("undefined [-5] for `TaskType`".to_string())));
    for t in [TaskType::Store, TaskType::Convert, TaskType::ParallelBatch, TaskType::QueueBatch] {
        assert_eq!(TaskType::try_from(t.code()), Ok(t));
    }
}

#[test]
fn task_from_str() {
    let t = RawTask::from_str("{\"a\":1}", "k", 2, "B:to:1", 0xabc, 100, &Limits::new()).unwrap();
    assert_eq!(t.task_id, "abc");
    assert_eq!(t.task_key, "k");
    assert_eq!(t.task_type, 2);
    assert_eq!(t.task_for, "B:to:1");
    assert_eq!(t.task_state, 0);
    assert_eq!(t.data, "{\"a\":1}");
    assert_eq!(t.create_time, 100);
    assert_eq!(t.execute_time, 100);
    assert_eq!(t.retried_times, 0);
    assert_eq!(t.task_string(), "raw_task: key|type|for k2B:to:1");
    assert_eq!(RawTask::id_source("{}", "k", 2, "f"), "{}kf2");
}

#[test]
fn task_data_too_long() {
    let mut limits = Limits::new();
    limits.task_content_max_length = 2;
    let e = RawTask::from_str("abc", "k", 1, "f", 1, 0, &limits).unwrap_err();
    assert_eq!(e, NatureError::SystemError("data's length can' be over : 2".to_string()));
    assert!(RawTask::from_str("ab", "k", 1, "f", 1, 0, &limits).is_ok());
}

#[test]
fn finish_old_takes_the_first_id() {
    let first = RawTask::from_str("a", "k", 1, "f", 1, 0, &Limits::new()).unwrap();
    let mut t = RawTask::from_str("b", "k", 1, "f", 2, 0, &Limits::new()).unwrap();
    let r = t.finish_old(&first, |_: &RawTask| Ok(0), |_: &[u8]| Ok(0));
    assert_eq!(r, Ok(1));
    assert_eq!(t.task_id, first.task_id);
    assert_eq!(t.data, "b");
}

#[test]
fn task_error_keeps_the_task() {
    let t = RawTask::from_str("d", "k", 1, "f", 16, 5, &Limits::new()).unwrap();
    let e = RawTaskError::from_raw(&NatureError::LogicalError("x".to_string()), &t);
    assert_eq!(e.task_id, "10");
    assert_eq!(e.task_key, "k");
    assert_eq!(e.data, "d");
    assert_eq!(e.create_time, 5);
    assert_eq!(e.task_for, "");
    assert_eq!(e.msg, "LogicalError(\"x\")");
}

#[test]
fn db_failures_are_mapped() {
    assert_eq!(
        DbError::from_with_msg(DbFailure::DatabaseError(DatabaseErrorKind::UniqueViolation, "dup".to_string()), "m"),
        NatureError::DaoDuplicated("m".to_string())
    );
    assert_eq!(
        DbError::from(DbFailure::DatabaseError(DatabaseErrorKind::Unknown, "u".to_string())),
        NatureError::EnvironmentError("u".to_string())
    );
    assert_eq!(
        DbError::from(DbFailure::DatabaseError(DatabaseErrorKind::ForeignKeyViolation, "f".to_string())),
        NatureError::SystemError("f".to_string())
    );
    assert_eq!(DbError::from(DbFailure::Other("o".to_string())), NatureError::SystemError("o".to_string()));
    assert_eq!(
        DbError::from(DbFailure::DatabaseError(DatabaseErrorKind::UniqueViolation, "dup".to_string())),
        NatureError::DaoDuplicated("".to_string())
    );
}

#[test]
fn batch_steps() {
    assert!(matches!(RawTask::save_batch_step(2, BatchEvent::Start), BatchStep::Insert(0)));
    assert!(matches!(RawTask::save_batch_step(0, BatchEvent::Start), BatchStep::Finish));
    assert!(matches!(RawTask::save_batch_step(2, BatchEvent::Inserted(0, Ok(1))), BatchStep::Insert(1)));
    assert!(matches!(RawTask::save_batch_step(2, BatchEvent::Inserted(1, Ok(0))), BatchStep::Finish));
    match RawTask::save_batch_step(2, BatchEvent::Inserted(0, Err(NatureError::SystemError("s".to_string())))) {
        BatchStep::Done(r) => assert_eq!(r, Err(NatureError::SystemError("s".to_string()))),
        _ => panic!("the batch should stop"),
    }
    match RawTask::save_batch_step(2, BatchEvent::Finished(Ok(1))) {
        BatchStep::Done(r) => assert_eq!(r, Ok(())),
        _ => panic!("the batch should end"),
    }
    match RawTask::save_batch_step(2, BatchEvent::Finished(Err(NatureError::LogicalError("l".to_string())))) {
        BatchStep::Done(r) => assert_eq!(r, Err(NatureError::LogicalError("l".to_string()))),
        _ => panic!("the batch should end"),
    }
}

#[test]
fn error_debug_text_of_each_kind() {
    let t = RawTask::from_str("d", "k", 1, "f", 1, 0, &Limits::new()).unwrap();
    for e in [
        NatureError::VerifyError("a\"b".to_string()),
        NatureError::SystemError("".to_string()),
        NatureError::EnvironmentError("e".to_string()),
        NatureError::DaoDuplicated("d".to_string()),
        NatureError::MetaNotDefined("m\n".to_string()),
    ] {
        assert_eq!(RawTaskError::from_raw(&e, &t).msg, format!("{:?}", e));
    }
}
