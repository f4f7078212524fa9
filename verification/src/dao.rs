//! The decisions of the data access layer: how rows are turned into answers,
//! how instance keys are read, and which downstream instance a mission targets.
//! The statements themselves run against the database outside this crate.

use vstd::prelude::*;
use vstd::string::StringExecFns;

use crate::error::{spec_db_error, DatabaseErrorKind, DbError, DbFailure, ErrorKind, NatureError};
use crate::instance::Instance;
use crate::executor::{spec_protocol_of, Executor, ExecutorView, Protocol, RelationTarget, RelationTargetView};
use crate::mission::{relations_view, Mission};
use crate::relation::{Relation, RelationSettings, RelationSettingsView, RelationView};
use crate::meta::spec_meta_string;
use crate::one_step_flow::{flows_view, OneStepFlow, OneStepFlowSettings, OneStepFlowView};
use crate::selector::{context_get, context_insert, context_value, context_with};
use crate::text::{
    hex_text, i64_text, int_text, join_strings, usize_text, join_with, parse_hex_u128, parse_i32, spec_parse_hex_u128, spec_parse_i32, split,
    split_by, split_by_str, split_str, u128_hex, views,
};

verus! {

/// The answer for rows that should be at most one: none, the one, or `too_many`.
pub fn one_or_none<T>(rows: Vec<T>, too_many: NatureError) -> (r: Result<Option<T>, NatureError>)
    ensures
        rows@.len() == 0 ==> r == Ok::<Option<T>, NatureError>(None),
        rows@.len() == 1 ==> r == Ok::<Option<T>, NatureError>(Some(rows@[0])),
        rows@.len() > 1 ==> r == Err::<Option<T>, NatureError>(too_many),
{
    let mut rows = rows;
    if rows.len() == 0 {
        Ok(None)
    } else if rows.len() == 1 {
        Ok(rows.pop())
    } else {
        Err(too_many)
    }
}

/// The tasks side of the store.
pub struct TaskDaoImpl;

impl TaskDaoImpl {
    /// The answer of inserting a task: a task stored already counts as no row
    /// inserted, every other error stands.
    pub fn insert_outcome(result: Result<usize, NatureError>) -> (r: Result<usize, NatureError>)
        ensures
            match result {
                Ok(n) => r == Ok::<usize, NatureError>(n),
                Err(e) => if e@.0 == ErrorKind::DaoDuplicated { r == Ok::<usize, NatureError>(0) } else { r is Err && r->Err_0@ == e@ },
            },
    {
        match result {
            Ok(n) => Ok(n),
            Err(NatureError::DaoDuplicated(_)) => Ok(0),
            Err(e) => Err(e),
        }
    }
}

/// What to do after trying to keep a failed task among the failed ones.
#[derive(Debug)]
pub enum AfterErrorInsert {
    /// It was kept (in `n` rows): delete the task; a failure to delete is the
    /// answer, else `Ok(n)`.
    DeleteThenAnswer(usize),
    /// It was kept before: delete the task, whatever comes of it, and answer `Ok(1)`.
    DeleteAnyway,
    /// Answer this error; the task stays.
    Fail(NatureError),
}

/// The view of what to do after keeping a failed task.
pub enum AfterErrorInsertView {
    DeleteThenAnswer(usize),
    DeleteAnyway,
    Fail((ErrorKind, Seq<char>)),
}

impl View for AfterErrorInsert {
    type V = AfterErrorInsertView;

    open spec fn view(&self) -> AfterErrorInsertView {
        match self {
            AfterErrorInsert::DeleteThenAnswer(n) => AfterErrorInsertView::DeleteThenAnswer(*n),
            AfterErrorInsert::DeleteAnyway => AfterErrorInsertView::DeleteAnyway,
            AfterErrorInsert::Fail(e) => AfterErrorInsertView::Fail(e@),
        }
    }
}

/// What to do after the store answered `insert` to keeping a failed task: a
/// unique violation means it is kept already; an unknown database error is an
/// environment error, any other a system error, each with the driver's text.
pub open spec fn spec_after_error_insert(insert: Result<usize, DbFailure>) -> AfterErrorInsertView {
    match insert {
        Ok(n) => AfterErrorInsertView::DeleteThenAnswer(n),
        Err(DbFailure::DatabaseError(DatabaseErrorKind::UniqueViolation, _)) => AfterErrorInsertView::DeleteAnyway,
        Err(e) => AfterErrorInsertView::Fail(spec_db_error(e, Seq::empty())),
    }
}

impl TaskDaoImpl {
    /// What to do after the store answered `insert` to keeping a failed task among the failed ones.
    pub fn after_error_insert(insert: Result<usize, DbFailure>) -> (r: AfterErrorInsert)
        ensures
            r@ == spec_after_error_insert(insert),
    {
        match insert {
            Ok(n) => AfterErrorInsert::DeleteThenAnswer(n),
            Err(DbFailure::DatabaseError(DatabaseErrorKind::UniqueViolation, _)) => AfterErrorInsert::DeleteAnyway,
            Err(e) => AfterErrorInsert::Fail(DbError::from(e)),
        }
    }
}

/// The plans side of the store.
pub struct StorePlanDaoImpl;

/// `upstream : <upstream>, downstream : <downstream>`.
pub open spec fn spec_plan_text(upstream: Seq<char>, downstream: Seq<char>) -> Seq<char> {
    "upstream : "@ + upstream + ", downstream : "@ + downstream
}

impl StorePlanDaoImpl {
    /// The answer of storing a plan: exactly one row is success; another count is a
    /// system error; a failure of the store is mapped with the plan's two ends as its message.
    pub fn save_outcome(rows: Result<usize, DbFailure>, upstream: &str, downstream: &str) -> (r: Result<(), NatureError>)
        ensures
            match rows {
                Ok(n) => if n == 1 {
                    r is Ok
                } else {
                    r is Err && r->Err_0@ == (ErrorKind::SystemError, "should insert 1 but get "@ + int_text(n as int))
                },
                Err(e) => r is Err && r->Err_0@ == spec_db_error(e, spec_plan_text(upstream@, downstream@)),
            },
    {
        match rows {
            Ok(n) => if n == 1 {
                Ok(())
            } else {
                Err(NatureError::SystemError("should insert 1 but get ".to_string().concat(usize_text(n).as_str())))
            },
            Err(e) => {
                let msg = "upstream : ".to_string().concat(upstream).concat(", downstream : ").concat(downstream);
                Err(DbError::from_with_msg(e, msg.as_str()))
            },
        }
    }

    /// The answer of reading the plans of one upstream: none, the one, or a system
    /// error for more; a failure of the store is mapped with an empty message.
    pub fn get_outcome<T>(rows: Result<Vec<T>, DbFailure>) -> (r: Result<Option<T>, NatureError>)
        ensures
            match rows {
                Ok(v) => if v@.len() == 0 {
                    r == Ok::<Option<T>, NatureError>(None)
                } else if v@.len() == 1 {
                    r == Ok::<Option<T>, NatureError>(Some(v@[0]))
                } else {
                    r is Err && r->Err_0@ == (ErrorKind::SystemError, "not 1 or 0 but get "@ + int_text(v@.len() as int))
                },
                Err(e) => r is Err && r->Err_0@ == spec_db_error(e, Seq::empty()),
            },
    {
        match rows {
            Ok(v) => {
                let n = v.len();
                one_or_none(v, NatureError::SystemError("not 1 or 0 but get ".to_string().concat(usize_text(n).as_str())))
            },
            Err(e) => Err(DbError::from(e)),
        }
    }
}

/// The flows the results give, in order, those that failed left out.
pub open spec fn spec_collect_flows(results: Seq<Result<Vec<OneStepFlow>, NatureError>>) -> Seq<OneStepFlowView>
    decreases results.len(),
{
    if results.len() == 0 {
        Seq::empty()
    } else {
        spec_collect_flows(results.drop_last()) + match results.last() {
            Ok(v) => flows_view(v@),
            Err(_) => Seq::empty(),
        }
    }
}

/// The one-step flows side of the store.
pub struct OneStepFlowDaoImpl;

impl OneStepFlowDaoImpl {
    /// The flows that the stored rows, each turned into flows, give: a row that
    /// could not be turned is left out; no flow at all is none.
    pub fn collect_flows(results: Vec<Result<Vec<OneStepFlow>, NatureError>>) -> (r: Option<Vec<OneStepFlow>>)
        ensures
            spec_collect_flows(results@).len() == 0 ==> r is None,
            spec_collect_flows(results@).len() > 0 ==> r is Some && flows_view(r->Some_0@) == spec_collect_flows(results@),
    {
        let mut rtn: Vec<OneStepFlow> = Vec::new();
        let mut i: usize = 0;
        while i < results.len()
            invariant
                0 <= i <= results.len(),
                flows_view(rtn@) == spec_collect_flows(results@.take(i as int)),
            decreases results.len() - i,
        {
            assert(results@.take(i + 1).drop_last() == results@.take(i as int));
            assert(results@.take(i + 1).last() == results@[i as int]);
            match &results[i] {
                Ok(v) => append_flows(&mut rtn, v),
                Err(_) => {
                    assert(flows_view(rtn@) + Seq::<OneStepFlowView>::empty() =~= flows_view(rtn@));
                },
            }
            i = i + 1;
        }
        assert(results@.take(results.len() as int) == results@);
        if rtn.len() == 0 {
            None
        } else {
            Some(rtn)
        }
    }
}

/// The relations the results give, in order, or the first error among them.
pub open spec fn spec_collect_relations(results: Seq<Result<Relation, NatureError>>) -> Result<Seq<RelationView>, (ErrorKind, Seq<char>)>
    decreases results.len(),
{
    if results.len() == 0 {
        Ok(Seq::empty())
    } else {
        match spec_collect_relations(results.drop_last()) {
            Err(e) => Err(e),
            Ok(v) => match results.last() {
                Ok(r) => Ok(v.push(r@)),
                Err(e) => Err(e@),
            },
        }
    }
}

/// The settings a relation added by its business names gets: the executor at `url`
/// reached by `protocol`, nothing else.
pub open spec fn spec_biz_settings(url: Seq<char>, p: Protocol) -> RelationSettingsView {
    RelationSettingsView {
        selector: None,
        executor: Some(ExecutorView { protocol: p, url, settings: Seq::empty(), group: Seq::empty(), proportion: 1 }),
        filter_before: Seq::empty(),
        filter_after: Seq::empty(),
        use_upstream_id: false,
        target: RelationTargetView { states: None, copy_para: Seq::empty() },
        delay: 0,
        delay_on_para: (0, 0),
        id_bridge: false,
    }
}

/// The relations side of the store.
pub struct RelationDaoImpl;

impl RelationDaoImpl {
    /// The relations the stored rows, each turned into a relation, give; the first
    /// row that could not be turned stops it with its error.
    pub fn collect_relations(results: Vec<Result<Relation, NatureError>>) -> (r: Result<Vec<Relation>, NatureError>)
        ensures
            relation_result_seq_view(r) == spec_collect_relations(results@),
    {
        let mut rtn: Vec<Relation> = Vec::new();
        let mut i: usize = 0;
        assert(results@.take(0) =~= Seq::<Result<Relation, NatureError>>::empty());
        assert(relations_view(rtn@) =~= Seq::<RelationView>::empty());
        while i < results.len()
            invariant
                0 <= i <= results.len(),
                spec_collect_relations(results@.take(i as int)) == Ok::<Seq<RelationView>, (ErrorKind, Seq<char>)>(relations_view(rtn@)),
            decreases results.len() - i,
        {
            assert(results@.take(i + 1).drop_last() == results@.take(i as int));
            assert(results@.take(i + 1).last() == results@[i as int]);
            match &results[i] {
                Ok(x) => {
                    let c = x.clone();
                    let ghost before = rtn@;
                    rtn.push(c);
                    assert(relations_view(rtn@) =~= relations_view(before).push(c@));
                },
                Err(e) => {
                    proof {
                        lemma_collect_relations_err(results@, i as int);
                    }
                    assert(results@[i as int] == Err::<Relation, NatureError>(*e));
                    return Err(e.copy());
                },
            }
            i = i + 1;
        }
        assert(results@.take(results.len() as int) == results@);
        Ok(rtn)
    }

    /// The settings of a relation added by its business names: the executor at `url`
    /// reached by the protocol named `protocol`; an unknown protocol is an error.
    pub fn biz_settings(url: &str, protocol: &str) -> (r: Result<RelationSettings, NatureError>)
        ensures
            match spec_protocol_of(protocol@) {
                Some(p) => r is Ok && r->Ok_0@ == spec_biz_settings(url@, p),
                None => r is Err && r->Err_0@ == (ErrorKind::VerifyError, "unknown protocol : "@ + protocol@),
            },
    {
        let p = Protocol::from_str(protocol)?;
        let s = RelationSettings {
            selector: None,
            executor: Some(Executor { protocol: p, url: url.to_string(), settings: String::new(), group: String::new(), proportion: 1 }),
            filter_before: Vec::new(),
            filter_after: Vec::new(),
            use_upstream_id: false,
            target: RelationTarget { states: None, copy_para: Vec::new() },
            delay: 0,
            delay_on_para: (0, 0),
            id_bridge: false,
        };
        assert(s@.filter_before =~= Seq::empty());
        assert(s@.filter_after =~= Seq::empty());
        assert(s@.target.copy_para =~= Seq::empty());
        assert(s@.executor->Some_0.settings =~= Seq::empty());
        assert(s@.executor->Some_0.group =~= Seq::empty());
        assert(s@ == spec_biz_settings(url@, p));
        Ok(s)
    }
}

/// The view of a result of relations.
pub open spec fn relation_result_seq_view(r: Result<Vec<Relation>, NatureError>) -> Result<Seq<RelationView>, (ErrorKind, Seq<char>)> {
    match r {
        Ok(v) => Ok(relations_view(v@)),
        Err(e) => Err(e@),
    }
}

/// An error at `i`, after rows that all turned, is what collecting gives.
proof fn lemma_collect_relations_err(results: Seq<Result<Relation, NatureError>>, i: int)
    requires
        0 <= i < results.len(),
        spec_collect_relations(results.take(i)) is Ok,
        results[i] is Err,
    ensures
        spec_collect_relations(results) == Err::<Seq<RelationView>, (ErrorKind, Seq<char>)>(results[i]->Err_0@),
    decreases results.len() - i,
{
    if i + 1 == results.len() {
        assert(results.drop_last() == results.take(i));
    } else {
        assert(results.drop_last().take(i) == results.take(i));
        assert(results.drop_last()[i] == results[i]);
        lemma_collect_relations_err(results.drop_last(), i);
    }
}

/// The settings a one-step flow added by its business names gets: one executor at
/// `url` reached by `protocol`, in no group, of weight 1, nothing else.
pub open spec fn spec_flow_biz_settings(url: Seq<char>, p: Protocol) -> crate::one_step_flow::OneStepFlowSettingsView {
    crate::one_step_flow::OneStepFlowSettingsView {
        selector: None,
        executor: seq![ExecutorView { protocol: p, url, settings: Seq::empty(), group: Seq::empty(), proportion: 1 }],
        use_upstream_id: false,
        target_states: None,
    }
}

impl OneStepFlowDaoImpl {
    /// The settings of a one-step flow added by its business names: one executor at
    /// `url` reached by the protocol named `protocol`; an unknown protocol is an error.
    pub fn biz_settings(url: &str, protocol: &str) -> (r: Result<OneStepFlowSettings, NatureError>)
        ensures
            match spec_protocol_of(protocol@) {
                Some(p) => r is Ok && r->Ok_0@ == spec_flow_biz_settings(url@, p),
                None => r is Err && r->Err_0@ == (ErrorKind::VerifyError, "unknown protocol : "@ + protocol@),
            },
    {
        let p = Protocol::from_str(protocol)?;
        let mut executor: Vec<Executor> = Vec::new();
        executor.push(Executor { protocol: p, url: url.to_string(), settings: String::new(), group: String::new(), proportion: 1 });
        let s = OneStepFlowSettings { selector: None, executor, use_upstream_id: false, target_states: None };
        assert(s@.executor =~= spec_flow_biz_settings(url@, p).executor);
        Ok(s)
    }
}

/// A condition on stored instances: the key parts, a lower bound on keys, a
/// time range (milliseconds since the Unix epoch) and how many to take.
#[derive(Debug, Default, PartialEq)]
pub struct KeyCondition {
    /// The id in hexadecimal.
    pub id: String,
    pub meta: String,
    pub key_gt: String,
    pub para: String,
    pub state_version: i32,
    pub time_ge: Option<i64>,
    pub time_lt: Option<i64>,
    pub limit: i32,
}

impl KeyCondition {
    /// The condition for the instance of `meta` with id `id` and para `para` at `state_version`.
    pub fn new(id: u128, meta: &str, para: &str, state_version: i32) -> (r: KeyCondition)
        ensures
            r.id@ == hex_text(id as nat),
            r.meta@ == meta@,
            r.key_gt@ == Seq::<char>::empty(),
            r.para@ == para@,
            r.state_version == state_version,
            r.time_ge is None,
            r.time_lt is None,
            r.limit == 1,
    {
        KeyCondition {
            id: u128_hex(id),
            meta: meta.to_string(),
            key_gt: String::new(),
            para: para.to_string(),
            state_version,
            time_ge: None,
            time_lt: None,
            limit: 1,
        }
    }

    /// `<meta>|<id>%`: the pattern of the keys of the meta's instances whose id starts with `id`.
    pub fn id_like(&self) -> (r: String)
        ensures
            r@ == self.meta@ + "|"@ + self.id@ + "%"@,
    {
        self.meta.clone().concat("|").concat(self.id.as_str()).concat("%")
    }

    /// `<meta>|<id>|<para>`: the key of the instances it selects.
    pub fn get_key(&self) -> (r: String)
        ensures
            r@ == self.meta@ + "|"@ + self.id@ + "|"@ + self.para@,
    {
        self.meta.clone().concat("|").concat(self.id.as_str()).concat("|").concat(self.para.as_str())
    }
}

/// The message for a task key that is not `<meta>|<id>|<para>|<state version>`.
pub open spec fn spec_bad_task_key() -> Seq<char> {
    "error key format for task"@
}

/// The condition a task key `<meta><sep><id><sep><para><sep><state version>` names, if well formed.
pub open spec fn spec_task_key_parts(key: Seq<char>, sep: Seq<char>) -> Option<(Seq<char>, Seq<char>, Seq<char>, i32)> {
    let parts = split_by(key, sep);
    if parts.len() == 4 && spec_parse_i32(parts[3]) is Some {
        Some((parts[0], parts[1], parts[2], spec_parse_i32(parts[3])->Some_0))
    } else {
        None
    }
}

/// The instances side of the store.
pub struct InstanceDaoImpl;

/// The key under which a mission's context keeps the id (hexadecimal) of its target instance.
pub const CONTEXT_TARGET_INSTANCE_ID: &'static str = "sys.target";

/// The key under which a mission's context keeps the para of its target instance.
pub const CONTEXT_TARGET_INSTANCE_PARA: &'static str = "sys.para";

/// The para made of the parts of `para` (separated by `/`) at the positions `idxs`, in that order, joined by `/`.
pub open spec fn spec_para_select(para: Seq<char>, idxs: Seq<u8>) -> Option<Seq<char>> {
    let parts = split(para, '/');
    if forall|k: int| 0 <= k < idxs.len() ==> (#[trigger] idxs[k]) < parts.len() {
        Some(join_with(idxs.map_values(|x: u8| parts[x as int]), "/"@))
    } else {
        None
    }
}

/// The message for a para without a part a position asks for.
pub open spec fn spec_no_selected_part() -> Seq<char> {
    "the para has no part at a position asked for"@
}

/// The message for a target id in a context that is not hexadecimal.
pub open spec fn spec_bad_target_id() -> Seq<char> {
    "the target id in the context is not hexadecimal"@
}

/// The message for a task key that is not `<meta><sep><id><sep><para><sep><state version>`.
pub open spec fn spec_task_key_error(key: Seq<char>, sep: Seq<char>) -> Seq<char> {
    if split_by(key, sep).len() != 4 {
        spec_bad_task_key()
    } else {
        "error state version in task key"@
    }
}

/// The para made of the parts of `para` at the positions `idxs`, joined by `/`;
/// a position past the last part is an error.
pub fn para_select(para: &str, idxs: &Vec<u8>) -> (r: Result<String, NatureError>)
    ensures
        match spec_para_select(para@, idxs@) {
            Some(p) => r is Ok && r->Ok_0@ == p,
            None => r is Err && r->Err_0@ == (ErrorKind::VerifyError, spec_no_selected_part()),
        },
{
    let parts = split_str(para, '/');
    let mut chosen: Vec<String> = Vec::new();
    let mut k: usize = 0;
    while k < idxs.len()
        invariant
            0 <= k <= idxs.len(),
            views(parts@) == split(para@, '/'),
            forall|j: int| 0 <= j < k ==> (#[trigger] idxs@[j]) < parts@.len(),
            views(chosen@) == idxs@.take(k as int).map_values(|x: u8| split(para@, '/')[x as int]),
        decreases idxs.len() - k,
    {
        let x = idxs[k] as usize;
        if x >= parts.len() {
            proof {
                assert(!(idxs@[k as int] < split(para@, '/').len()));
            }
            return Err(NatureError::VerifyError("the para has no part at a position asked for".to_string()));
        }
        let piece = parts[x].clone();
        let ghost before = chosen@;
        chosen.push(piece);
        proof {
            assert(views(parts@)[x as int] == parts@[x as int]@);
            assert(views(chosen@) =~= views(before).push(piece@));
            assert(idxs@.take(k + 1) =~= idxs@.take(k as int).push(idxs@[k as int]));
            assert(idxs@.take(k + 1).map_values(|x: u8| split(para@, '/')[x as int])
                =~= idxs@.take(k as int).map_values(|x: u8| split(para@, '/')[x as int]).push(split(para@, '/')[x as int]));
        }
        k = k + 1;
    }
    assert(idxs@.take(idxs.len() as int) == idxs@);
    proof {
        reveal_strlit("/");
    }
    Ok(join_strings(&chosen, "/"))
}

impl InstanceDaoImpl {
    /// The condition for the last state of the downstream instance that `mission`
    /// converts `from` into, if the target holds states. The target's para is made
    /// of the upstream para parts the mission copies, and is kept in the mission's
    /// system context; the target's id is the one the system context gives, else,
    /// when the mission uses the upstream id or `from`'s meta is the target's master,
    /// `from`'s id (kept in the system context too), else 0.
    pub fn last_target_condition(from: &Instance, mission: &mut Mission) -> (r: Result<Option<KeyCondition>, NatureError>)
        ensures
            ({
                let (ctx, ans) = spec_last_target(from.id, from.meta@, from.para@, old(mission)@);
                &&& crate::selector::ctx_view(final(mission).sys_context@) == ctx
                &&& final(mission).to == old(mission).to
                &&& final(mission).executor == old(mission).executor
                &&& final(mission).filter_before == old(mission).filter_before
                &&& final(mission).filter_after == old(mission).filter_after
                &&& final(mission).target_demand == old(mission).target_demand
                &&& final(mission).use_upstream_id == old(mission).use_upstream_id
                &&& final(mission).delay == old(mission).delay
                &&& match ans {
                    Err(e) => r is Err && r->Err_0@ == e,
                    Ok(None) => r == Ok::<Option<KeyCondition>, NatureError>(None),
                    Ok(Some((id, meta, para))) => r is Ok && r->Ok_0 is Some && ({
                        let c = r->Ok_0->Some_0;
                        &&& c.id@ == hex_text(id as nat)
                        &&& c.meta@ == meta
                        &&& c.para@ == para
                        &&& c.state_version == 0
                        &&& c.key_gt@ == Seq::<char>::empty()
                        &&& c.time_ge is None
                        &&& c.time_lt is None
                        &&& c.limit == 1
                    }),
                }
            }),
    {
        if !mission.to.is_state() {
            return Ok(None);
        }
        let para_id = if mission.target_demand.copy_para.len() > 0 {
            let id = para_select(from.para.as_str(), &mission.target_demand.copy_para)?;
            context_insert(&mut mission.sys_context, CONTEXT_TARGET_INSTANCE_PARA.to_string(), id.clone());
            id
        } else {
            String::new()
        };
        let mut id: u128 = match context_value(&mission.sys_context, CONTEXT_TARGET_INSTANCE_ID) {
            Some(state_id) => match parse_hex_u128(state_id.as_str()) {
                Some(v) => v,
                None => return Err(NatureError::VerifyError("the target id in the context is not hexadecimal".to_string())),
            },
            None => 0,
        };
        if id == 0 {
            if mission.use_upstream_id || mission.to.check_master(&from.meta) {
                context_insert(&mut mission.sys_context, CONTEXT_TARGET_INSTANCE_ID.to_string(), u128_hex(from.id));
                id = from.id;
            }
        }
        let meta = mission.to.meta_string();
        Ok(Some(KeyCondition::new(id, meta.as_str(), para_id.as_str(), 0)))
    }

    /// Reads a task key `<meta><spliter><id><spliter><para><spliter><state version>`
    /// as the condition for that one instance.
    pub fn key_condition(key: &str, spliter: &str) -> (r: Result<KeyCondition, NatureError>)
        ensures
            match spec_task_key_parts(key@, spliter@) {
                Some((m, id, p, v)) => r is Ok && ({
                    let c = r->Ok_0;
                    &&& c.id@ == id
                    &&& c.meta@ == m
                    &&& c.key_gt@ == Seq::<char>::empty()
                    &&& c.para@ == p
                    &&& c.state_version == v
                    &&& c.time_ge is None
                    &&& c.time_lt is None
                    &&& c.limit == 1
                }),
                None => r is Err && r->Err_0@ == (ErrorKind::VerifyError, spec_task_key_error(key@, spliter@)),
            },
    {
        let temp = split_by_str(key, spliter);
        if temp.len() != 4 {
            return Err(NatureError::VerifyError("error key format for task".to_string()));
        }
        assert(views(temp@)[3] == temp@[3]@);
        let state_version = match parse_i32(temp[3].as_str()) {
            Some(v) => v,
            None => return Err(NatureError::VerifyError("error state version in task key".to_string())),
        };
        assert(views(temp@)[0] == temp@[0]@ && views(temp@)[1] == temp@[1]@ && views(temp@)[2] == temp@[2]@);
        Ok(KeyCondition {
            id: temp[1].clone(),
            meta: temp[0].clone(),
            key_gt: String::new(),
            para: temp[2].clone(),
            state_version,
            time_ge: None,
            time_lt: None,
            limit: 1,
        })
    }
}

/// An upstream instance's identity: the downstream instances of the meta `meta`
/// with the id `id` that were made from the instance keyed `from_key`.
#[derive(Debug, Default, PartialEq)]
pub struct IDAndFrom {
    pub id: u128,
    pub meta: String,
    pub from_key: String,
}

impl IDAndFrom {
    /// `<meta>|<id in hex>|%`: the pattern of the keys of those instances, whatever their para.
    pub fn para_like(&self) -> (r: String)
        ensures
            r@ == self.meta@ + "|"@ + hex_text(self.id as nat) + "|%"@,
    {
        self.meta.clone().concat("|").concat(u128_hex(self.id).as_str()).concat("|%")
    }
}

/// The columns an instance is read with.
pub open spec fn spec_instance_columns() -> Seq<char> {
    "SELECT ins_key, content, context, states, state_version, create_time, sys_context, from_key FROM instances"@
}

/// The statement that reads the instances a condition selects by meta: keys like
/// `:id_like`, after `key_gt` when it is set, created in the time range for each
/// bound given (as the texts the database compares), ordered by key, at most
/// `limit` of them and never more than `size_limit`.
pub open spec fn spec_meta_query(
    key_gt: Seq<char>,
    time_ge: Option<Seq<char>>,
    time_lt: Option<Seq<char>>,
    limit: i32,
    size_limit: i32,
) -> Seq<char> {
    spec_instance_columns() + " where ins_key like :id_like"@
        + (if key_gt.len() == 0 { Seq::empty() } else { " and ins_key > '"@ + key_gt + "'"@ })
        + (match time_ge { Some(t) => " and create_time >= '"@ + t + "'"@, None => Seq::empty() })
        + (match time_lt { Some(t) => " and create_time < '"@ + t + "'"@, None => Seq::empty() })
        + " order by ins_key limit "@ + int_text(if limit < size_limit { limit as int } else { size_limit as int })
}

impl InstanceDaoImpl {
    /// The statement that reads the instances `cond` selects by meta; `time_ge` and
    /// `time_lt` are its time bounds written as the database compares them.
    pub fn meta_query(cond: &KeyCondition, time_ge: Option<String>, time_lt: Option<String>, size_limit: i32) -> (r: String)
        ensures
            r@ == spec_meta_query(cond.key_gt@, crate::text::opt_view(time_ge), crate::text::opt_view(time_lt), cond.limit, size_limit),
    {
        let mut sql = "SELECT ins_key, content, context, states, state_version, create_time, sys_context, from_key FROM instances".to_string();
        sql = sql.concat(" where ins_key like :id_like");
        if !cond.key_gt.as_str().is_empty() {
            sql = sql.concat(" and ins_key > '").concat(cond.key_gt.as_str()).concat("'");
        }
        if let Some(t) = &time_ge {
            sql = sql.concat(" and create_time >= '").concat(t.as_str()).concat("'");
        }
        if let Some(t) = &time_lt {
            sql = sql.concat(" and create_time < '").concat(t.as_str()).concat("'");
        }
        let limit = if cond.limit < size_limit { cond.limit } else { size_limit };
        let r = sql.concat(" order by ins_key limit ").concat(i64_text(limit as i64).as_str());
        proof {
            reveal_strlit("");
        }
        assert(r@ =~= spec_meta_query(cond.key_gt@, crate::text::opt_view(time_ge), crate::text::opt_view(time_lt), cond.limit, size_limit));
        r
    }
}

/// What `last_target_condition` does with a mission and its upstream instance:
/// the new system context of the mission, and the answer (the id, meta string and
/// para of the target instance's key, or the error).
pub open spec fn spec_last_target(
    from_id: u128,
    from_meta: Seq<char>,
    from_para: Seq<char>,
    m: crate::mission::MissionView,
) -> (Seq<(Seq<char>, Seq<char>)>, Result<Option<(u128, Seq<char>, Seq<char>)>, (ErrorKind, Seq<char>)>) {
    if !m.to.is_state {
        (m.sys_context.map_values(|p: (String, String)| (p.0@, p.1@)), Ok(None))
    } else {
        let ctx0 = m.sys_context.map_values(|p: (String, String)| (p.0@, p.1@));
        let copy = m.target_demand.copy_para;
        let sel = if copy.len() > 0 { spec_para_select(from_para, copy) } else { Some(Seq::<char>::empty()) };
        match sel {
            None => (ctx0, Err((ErrorKind::VerifyError, spec_no_selected_part()))),
            Some(para) => {
                let ctx1 = if copy.len() > 0 { context_with(ctx0, CONTEXT_TARGET_INSTANCE_PARA@, para) } else { ctx0 };
                let id0 = match context_get(ctx1, CONTEXT_TARGET_INSTANCE_ID@) {
                    Some(h) => spec_parse_hex_u128(h),
                    None => Some(0u128),
                };
                match id0 {
                    None => (ctx1, Err((ErrorKind::VerifyError, spec_bad_target_id()))),
                    Some(id0) => {
                        let upstream = m.use_upstream_id || (m.to.setting is Some && m.to.setting->Some_0.master
                            == Some(from_meta));
                        if id0 == 0 && upstream {
                            (context_with(ctx1, CONTEXT_TARGET_INSTANCE_ID@, hex_text(from_id as nat)),
                                Ok(Some((from_id, spec_meta_string(m.to), para))))
                        } else {
                            (ctx1, Ok(Some((id0, spec_meta_string(m.to), para))))
                        }
                    },
                }
            },
        }
    }
}

/// The target a mission continues: nothing for a target meta without states;
/// otherwise the target's key is of the mission's target meta, its para is the
/// `/`-join of the upstream para parts at the positions the mission copies, in
/// that order (empty when it copies none), and its id is the one the mission's
/// system context names, else the upstream's id when the mission takes it.
pub proof fn lemma_target_key_parts(from_id: u128, from_meta: Seq<char>, from_para: Seq<char>, m: crate::mission::MissionView)
    ensures
        !m.to.is_state ==> spec_last_target(from_id, from_meta, from_para, m).1 == Ok::<Option<(u128, Seq<char>, Seq<char>)>, (ErrorKind, Seq<char>)>(None),
        spec_last_target(from_id, from_meta, from_para, m).1 matches Ok(Some((id, meta, para))) ==> {
            let parts = split(from_para, '/');
            let copy = m.target_demand.copy_para;
            &&& m.to.is_state
            &&& meta == spec_meta_string(m.to)
            &&& forall|k: int| 0 <= k < copy.len() ==> (#[trigger] copy[k]) < parts.len()
            &&& para == join_with(copy.map_values(|x: u8| parts[x as int]), "/"@)
            &&& (context_get(m.sys_context.map_values(|p: (String, String)| (p.0@, p.1@)), CONTEXT_TARGET_INSTANCE_ID@) is None
                && m.use_upstream_id ==> id == from_id)
            &&& (context_get(m.sys_context.map_values(|p: (String, String)| (p.0@, p.1@)), CONTEXT_TARGET_INSTANCE_ID@) is None
                && !m.use_upstream_id && !(m.to.setting is Some && m.to.setting->Some_0.master == Some(from_meta)) ==> id == 0)
            &&& (context_get(m.sys_context.map_values(|p: (String, String)| (p.0@, p.1@)), CONTEXT_TARGET_INSTANCE_ID@) is Some
                && spec_parse_hex_u128(context_get(m.sys_context.map_values(|p: (String, String)| (p.0@, p.1@)), CONTEXT_TARGET_INSTANCE_ID@)->Some_0)
                    != Some(0u128)
                ==> Some(id) == spec_parse_hex_u128(context_get(m.sys_context.map_values(|p: (String, String)| (p.0@, p.1@)), CONTEXT_TARGET_INSTANCE_ID@)->Some_0))
            &&& (copy.len() > 0 ==> context_get(spec_last_target(from_id, from_meta, from_para, m).0, CONTEXT_TARGET_INSTANCE_PARA@) == Some(para))
        },
{
    let copy = m.target_demand.copy_para;
    if copy.len() == 0 {
        assert(copy.map_values(|x: u8| split(from_para, '/')[x as int]) =~= Seq::<Seq<char>>::empty());
    }
    let ctx0 = m.sys_context.map_values(|p: (String, String)| (p.0@, p.1@));
    reveal_strlit("sys.para");
    reveal_strlit("sys.target");
    assert(CONTEXT_TARGET_INSTANCE_PARA@.len() != CONTEXT_TARGET_INSTANCE_ID@.len());
    if copy.len() > 0 {
        if let Some(para) = spec_para_select(from_para, copy) {
            let ctx1 = context_with(ctx0, CONTEXT_TARGET_INSTANCE_PARA@, para);
            crate::selector::lemma_context_with_other_key(ctx0, CONTEXT_TARGET_INSTANCE_PARA@, para, CONTEXT_TARGET_INSTANCE_ID@);
            crate::selector::lemma_context_with_get(ctx0, CONTEXT_TARGET_INSTANCE_PARA@, para);
            crate::selector::lemma_context_with_other_key(ctx1, CONTEXT_TARGET_INSTANCE_ID@, hex_text(from_id as nat), CONTEXT_TARGET_INSTANCE_PARA@);
        }
    }
}

/// Appends copies of the flows of `v`.
fn append_flows(rtn: &mut Vec<OneStepFlow>, v: &Vec<OneStepFlow>)
    ensures
        flows_view(final(rtn)@) == flows_view(old(rtn)@) + flows_view(v@),
{
    let ghost start = flows_view(rtn@);
    let mut j: usize = 0;
    while j < v.len()
        invariant
            0 <= j <= v.len(),
            flows_view(rtn@) == start + flows_view(v@.take(j as int)),
        decreases v.len() - j,
    {
        let f = v[j].clone();
        let ghost before = rtn@;
        rtn.push(f);
        assert(flows_view(rtn@) =~= flows_view(before).push(f@));
        assert(v@.take(j + 1) == v@.take(j as int).push(v@[j as int]));
        assert(flows_view(v@.take(j + 1)) =~= flows_view(v@.take(j as int)).push(v@[j as int]@));
        j = j + 1;
    }
    assert(v@.take(v.len() as int) == v@);
}

} // verus!
