//! The kinds of task the store keeps.

use vstd::prelude::*;
use vstd::string::StringExecFns;

use crate::error::{ErrorKind, NatureError};
use crate::text::{i64_text, int_text};

verus! {

/// The kind of a stored task.
#[derive(Debug, Clone, Copy, PartialEq, Eq, Structural)]
pub enum TaskType {
    Store,
    Convert,
    ParallelBatch,
    QueueBatch,
}

/// The number that stands for each task type in the store.
pub open spec fn spec_task_type_code(t: TaskType) -> int {
    match t {
        TaskType::Store => 1,
        TaskType::Convert => 2,
        TaskType::ParallelBatch => 11,
        TaskType::QueueBatch => 12,
    }
}

/// The task type stored as `value`, if any.
pub open spec fn spec_task_type_of(value: int) -> Option<TaskType> {
    if value == 1 {
        Some(TaskType::Store)
    } else if value == 2 {
        Some(TaskType::Convert)
    } else if value == 11 {
        Some(TaskType::ParallelBatch)
    } else if value == 12 {
        Some(TaskType::QueueBatch)
    } else {
        None
    }
}

/// The message given for a number that stands for no task type.
pub open spec fn spec_undefined_task_type(value: int) -> Seq<char> {
    "undefined ["@ + int_text(value) + "] for `TaskType`"@
}

impl TaskType {
    pub fn code(&self) -> (r: i16)
        ensures
            r as int == spec_task_type_code(*self),
    {
        match self {
            TaskType::Store => 1,
            TaskType::Convert => 2,
            TaskType::ParallelBatch => 11,
            TaskType::QueueBatch => 12,
        }
    }

    /// The task type stored as `value`; any other number is a `VerifyError`.
    pub fn try_from(value: i16) -> (r: Result<TaskType, NatureError>)
        ensures
            match spec_task_type_of(value as int) {
                Some(t) => r == Ok::<TaskType, NatureError>(t),
                None => r is Err && r->Err_0@ == (ErrorKind::VerifyError, spec_undefined_task_type(value as int)),
            },
    {
        match value {
            1 => Ok(TaskType::Store),
            2 => Ok(TaskType::Convert),
            11 => Ok(TaskType::ParallelBatch),
            12 => Ok(TaskType::QueueBatch),
            _ => {
                let msg = "undefined [".to_string().concat(i64_text(value as i64).as_str()).concat("] for `TaskType`");
                Err(NatureError::VerifyError(msg))
            },
        }
    }
}

/// Reading back the number of a task type gives the task type.
pub proof fn lemma_task_type_round_trip(t: TaskType)
    ensures
        spec_task_type_of(spec_task_type_code(t)) == Some(t),
{
}

} // verus!
