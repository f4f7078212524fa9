//! Tasks as the store keeps them: a piece of work for the engine, kept until it is done.

use vstd::prelude::*;
use vstd::string::StringExecFns;
use vstd::utf8::encode_utf8;

use crate::error::{ErrorKind, NatureError};
use crate::mission::now_millis;
use crate::raw_instance::Limits;
use crate::raw_meta::{debug_str, debug_str_text};
use crate::text::{hex_text, i64_text, int_text, u128_hex, usize_text};

verus! {

/// A task as the store keeps it.
#[derive(Debug, PartialEq)]
pub struct RawTask {
    pub task_id: String,
    pub task_key: String,
    pub task_type: i8,
    pub task_for: String,
    /// 0 while to do, 1 when done.
    pub task_state: i8,
    /// The task, as JSON.
    pub data: String,
    /// Milliseconds since the Unix epoch.
    pub create_time: i64,
    /// Milliseconds since the Unix epoch.
    pub execute_time: i64,
    pub retried_times: i16,
}

impl Default for RawTask {
    /// An empty task to do, created and to be run now.
    fn default() -> (r: RawTask)
        ensures
            r.task_id@ == Seq::<char>::empty(),
            r.task_key@ == Seq::<char>::empty(),
            r.task_type == 0,
            r.task_for@ == Seq::<char>::empty(),
            r.task_state == 0,
            r.data@ == Seq::<char>::empty(),
            r.create_time == r.execute_time,
            r.retried_times == 0,
    {
        let now = now_millis();
        RawTask {
            task_id: String::new(),
            task_key: String::new(),
            task_type: 0,
            task_for: String::new(),
            task_state: 0,
            data: String::new(),
            create_time: now,
            execute_time: now,
            retried_times: 0,
        }
    }
}

/// The text a task's id is a hash of: its data, key, target and type.
pub open spec fn spec_task_id_source(json: Seq<char>, task_key: Seq<char>, task_type: i8, task_for: Seq<char>) -> Seq<char> {
    json + task_key + task_for + int_text(task_type as int)
}

/// The message for task data that is too long.
pub open spec fn spec_data_too_long(max: usize) -> Seq<char> {
    "data's length can' be over : "@ + int_text(max as int)
}

/// `raw_task: key|type|for <key><type><for>`.
pub open spec fn spec_task_string(t: &RawTask) -> Seq<char> {
    "raw_task: key|type|for "@ + t.task_key@ + int_text(t.task_type as int) + t.task_for@
}

impl RawTask {
    /// The text a task's id is a hash of: its data, key, target and type.
    pub fn id_source(json: &str, task_key: &str, task_type: i8, task_for: &str) -> (r: String)
        ensures
            r@ == spec_task_id_source(json@, task_key@, task_type, task_for@),
    {
        json.to_string().concat(task_key).concat(task_for).concat(i64_text(task_type as i64).as_str())
    }

    /// A task to do, created and to be run at `now`, for data `json`; `id` is the
    /// hash of `id_source` of the same arguments. Data longer than the limit is refused.
    pub fn from_str(json: &str, task_key: &str, task_type: i8, task_for: &str, id: u128, now: i64, limits: &Limits) -> (r: Result<RawTask, NatureError>)
        ensures
            (encode_utf8(json@).len() as usize) > limits.task_content_max_length ==> r is Err
                && r->Err_0@ == (ErrorKind::SystemError, spec_data_too_long(limits.task_content_max_length)),
            (encode_utf8(json@).len() as usize) <= limits.task_content_max_length ==> r is Ok && ({
                let t = r->Ok_0;
                &&& t.task_id@ == hex_text(id as nat)
                &&& t.task_key@ == task_key@
                &&& t.task_type == task_type
                &&& t.task_for@ == task_for@
                &&& t.task_state == 0
                &&& t.data@ == json@
                &&& t.create_time == now
                &&& t.execute_time == now
                &&& t.retried_times == 0
            }),
    {
        if json.len() > limits.task_content_max_length {
            let msg = "data's length can' be over : ".to_string().concat(usize_text(limits.task_content_max_length).as_str());
            return Err(NatureError::SystemError(msg));
        }
        Ok(RawTask {
            task_id: u128_hex(id),
            task_key: task_key.to_string(),
            task_type,
            task_for: task_for.to_string(),
            task_state: 0,
            data: json.to_string(),
            create_time: now,
            execute_time: now,
            retried_times: 0,
        })
    }

    /// Gives `self` the id of `first`, the carrier a flow began with, so that
    /// finishing `self` finishes that one. The store is not written.
    pub fn finish_old<FI, FD>(&mut self, first: &RawTask, _dao_insert: FI, _dao_delete: FD) -> (r: Result<usize, NatureError>)
        where
            FI: Fn(&RawTask) -> Result<usize, NatureError>,
            FD: Fn(&[u8]) -> Result<usize, NatureError>,
        ensures
            r == Ok::<usize, NatureError>(1),
            final(self).task_id@ == first.task_id@,
            final(self).task_key == old(self).task_key,
            final(self).task_type == old(self).task_type,
            final(self).task_for == old(self).task_for,
            final(self).task_state == old(self).task_state,
            final(self).data == old(self).data,
            final(self).create_time == old(self).create_time,
            final(self).execute_time == old(self).execute_time,
            final(self).retried_times == old(self).retried_times,
    {
        self.task_id = first.task_id.clone();
        Ok(1)
    }

    /// `raw_task: key|type|for <key><type><for>`.
    pub fn task_string(&self) -> (r: String)
        ensures
            r@ == spec_task_string(self),
    {
        "raw_task: key|type|for ".to_string().concat(self.task_key.as_str()).concat(i64_text(self.task_type as i64).as_str())
            .concat(self.task_for.as_str())
    }
}

/// What happened last while storing a batch of tasks.
#[derive(Debug)]
pub enum BatchEvent {
    /// Nothing yet.
    Start,
    /// The task at this position was inserted, with this answer.
    Inserted(usize, Result<usize, NatureError>),
    /// The task the batch came from was finished, with this answer.
    Finished(Result<usize, NatureError>),
}

/// What to do next while storing a batch of tasks.
#[derive(Debug)]
pub enum BatchStep {
    /// Insert the task at this position.
    Insert(usize),
    /// Finish the task the batch came from.
    Finish,
    /// The answer of storing the batch.
    Done(Result<(), NatureError>),
}

/// The view of what happened last while storing a batch.
pub enum BatchEventView {
    Start,
    Inserted(usize, Result<usize, (ErrorKind, Seq<char>)>),
    Finished(Result<usize, (ErrorKind, Seq<char>)>),
}

/// The view of what to do next while storing a batch.
pub enum BatchStepView {
    Insert(usize),
    Finish,
    Done(Result<(), (ErrorKind, Seq<char>)>),
}

/// The view of an answer that counts rows.
pub open spec fn count_result_view(r: Result<usize, NatureError>) -> Result<usize, (ErrorKind, Seq<char>)> {
    match r {
        Ok(n) => Ok(n),
        Err(e) => Err(e@),
    }
}

impl View for BatchEvent {
    type V = BatchEventView;

    open spec fn view(&self) -> BatchEventView {
        match self {
            BatchEvent::Start => BatchEventView::Start,
            BatchEvent::Inserted(i, r) => BatchEventView::Inserted(*i, count_result_view(*r)),
            BatchEvent::Finished(r) => BatchEventView::Finished(count_result_view(*r)),
        }
    }
}

impl View for BatchStep {
    type V = BatchStepView;

    open spec fn view(&self) -> BatchStepView {
        match self {
            BatchStep::Insert(i) => BatchStepView::Insert(*i),
            BatchStep::Finish => BatchStepView::Finish,
            BatchStep::Done(Ok(())) => BatchStepView::Done(Ok(())),
            BatchStep::Done(Err(e)) => BatchStepView::Done(Err(e@)),
        }
    }
}

/// Storing a batch of `count` tasks: each task is inserted in order, and the first
/// failure is the answer; after the last one, the task they came from is finished,
/// and the answer of that is the answer.
pub open spec fn spec_batch_step(count: usize, event: BatchEventView) -> BatchStepView {
    match event {
        BatchEventView::Start => if count > 0 { BatchStepView::Insert(0) } else { BatchStepView::Finish },
        BatchEventView::Inserted(i, Ok(_)) => if i + 1 < count { BatchStepView::Insert((i + 1) as usize) } else { BatchStepView::Finish },
        BatchEventView::Inserted(_, Err(e)) => BatchStepView::Done(Err(e)),
        BatchEventView::Finished(Ok(_)) => BatchStepView::Done(Ok(())),
        BatchEventView::Finished(Err(e)) => BatchStepView::Done(Err(e)),
    }
}

impl RawTask {
    /// The next step of storing a batch of `count` tasks after `event`.
    pub fn save_batch_step(count: usize, event: BatchEvent) -> (r: BatchStep)
        ensures
            r@ == spec_batch_step(count, event@),
    {
        match event {
            BatchEvent::Start => if count > 0 { BatchStep::Insert(0) } else { BatchStep::Finish },
            BatchEvent::Inserted(i, Ok(_)) => if count > 0 && i < count - 1 { BatchStep::Insert(i + 1) } else { BatchStep::Finish },
            BatchEvent::Inserted(_, Err(e)) => BatchStep::Done(Err(e)),
            BatchEvent::Finished(Ok(_)) => BatchStep::Done(Ok(())),
            BatchEvent::Finished(Err(e)) => BatchStep::Done(Err(e)),
        }
    }
}

/// The name of an error's variant.
pub open spec fn spec_error_kind_name(k: ErrorKind) -> Seq<char> {
    match k {
        ErrorKind::VerifyError => "VerifyError"@,
        ErrorKind::LogicalError => "LogicalError"@,
        ErrorKind::SystemError => "SystemError"@,
        ErrorKind::EnvironmentError => "EnvironmentError"@,
        ErrorKind::DaoDuplicated => "DaoDuplicated"@,
        ErrorKind::MetaNotDefined => "MetaNotDefined"@,
    }
}

/// The `Debug` text of an error, as its derived `Debug` writes it: the variant's
/// name, then its text written with `Debug`, in round brackets.
pub open spec fn error_debug_text(e: (ErrorKind, Seq<char>)) -> Seq<char> {
    spec_error_kind_name(e.0) + "("@ + debug_str_text(e.1) + ")"@
}

/// Writes an error as its derived `Debug` does.
fn debug_error(e: &NatureError) -> (r: String)
    ensures
        r@ == error_debug_text(e@),
{
    let (name, text) = match e {
        NatureError::VerifyError(s) => ("VerifyError", s),
        NatureError::LogicalError(s) => ("LogicalError", s),
        NatureError::SystemError(s) => ("SystemError", s),
        NatureError::EnvironmentError(s) => ("EnvironmentError", s),
        NatureError::DaoDuplicated(s) => ("DaoDuplicated", s),
        NatureError::MetaNotDefined(s) => ("MetaNotDefined", s),
    };
    assert(name@ == spec_error_kind_name(e@.0));
    name.to_string().concat("(").concat(debug_str(text.as_str()).as_str()).concat(")")
}

/// A task that failed, kept with why.
#[derive(Debug, PartialEq)]
pub struct RawTaskError {
    pub task_id: String,
    pub task_key: String,
    pub task_type: i8,
    pub task_for: String,
    pub data: String,
    pub create_time: i64,
    pub msg: String,
}

impl RawTaskError {
    /// The failed task `raw` with the error's `Debug` text; its target is left empty.
    pub fn from_raw(err: &NatureError, raw: &RawTask) -> (r: RawTaskError)
        ensures
            r.task_id@ == raw.task_id@,
            r.task_key@ == raw.task_key@,
            r.task_type == raw.task_type,
            r.data@ == raw.data@,
            r.create_time == raw.create_time,
            r.msg@ == error_debug_text(err@),
            r.task_for@ == Seq::<char>::empty(),
    {
        RawTaskError {
            task_id: raw.task_id.clone(),
            task_key: raw.task_key.clone(),
            task_type: raw.task_type,
            data: raw.data.clone(),
            create_time: raw.create_time,
            msg: debug_error(err),
            task_for: String::new(),
        }
    }
}

} // verus!
