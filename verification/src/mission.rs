//! Missions: what an instance is to be converted into, chosen from the relations
//! of its meta.

use vstd::prelude::*;

use crate::error::{ErrorKind, NatureError};
use crate::executor::{clone_executors, executors_view, Executor, ExecutorView, RelationTarget, RelationTargetView};
use crate::instance::Instance;
use crate::meta::{spec_meta_string, Meta, MetaType, MetaView};
use crate::relation::{err_view, meta_result_view, Relation, RelationView};
use crate::selector::Context;
use crate::text::{parse_i64, spec_parse_i64, split, split_str, views};

verus! {

/// A conversion to carry out: the target meta, the executor, the filters around
/// it, what it demands of the target, and the seconds to wait before it runs.
#[derive(Debug, Default)]
pub struct Mission {
    pub to: Meta,
    pub executor: Executor,
    pub filter_before: Vec<Executor>,
    pub filter_after: Vec<Executor>,
    pub target_demand: RelationTarget,
    pub use_upstream_id: bool,
    pub delay: i32,
    /// System context handed to the target; filled when the target is looked up.
    pub sys_context: Context,
}

pub struct MissionView {
    pub to: MetaView,
    pub executor: ExecutorView,
    pub filter_before: Seq<ExecutorView>,
    pub filter_after: Seq<ExecutorView>,
    pub target_demand: RelationTargetView,
    pub use_upstream_id: bool,
    pub delay: i32,
    pub sys_context: Seq<(String, String)>,
}

impl View for Mission {
    type V = MissionView;

    open spec fn view(&self) -> MissionView {
        MissionView {
            to: self.to@,
            executor: self.executor@,
            filter_before: executors_view(self.filter_before@),
            filter_after: executors_view(self.filter_after@),
            target_demand: self.target_demand@,
            use_upstream_id: self.use_upstream_id,
            delay: self.delay,
            sys_context: self.sys_context@,
        }
    }
}

/// The views of a list of missions.
pub open spec fn missions_view(v: Seq<Mission>) -> Seq<MissionView> {
    v.map_values(|m: Mission| m@)
}

/// The mission a relation gives, with the given delay.
pub open spec fn spec_mission_of_relation(r: RelationView, delay: i32) -> MissionView {
    MissionView {
        to: r.to,
        executor: r.executor,
        filter_before: r.filter_before,
        filter_after: r.filter_after,
        target_demand: r.target,
        use_upstream_id: r.use_upstream_id,
        delay,
        sys_context: Seq::empty(),
    }
}

/// `i` seconds of `ms` milliseconds, the fraction dropped (towards zero).
pub open spec fn spec_trunc_secs(ms: int) -> int {
    if ms >= 0 {
        ms / 1000
    } else {
        -((-ms) / 1000)
    }
}

/// The part at position `idx` of a para whose parts are separated by `/`.
pub open spec fn spec_para_part(para: Seq<char>, idx: int) -> Option<Seq<char>> {
    let parts = split(para, '/');
    if 0 <= idx < parts.len() {
        Some(parts[idx])
    } else {
        None
    }
}

/// The delay in seconds that a relation asks of an instance with the para `para`
/// at the time `now` (milliseconds): the relation's own delay when it is set;
/// else, when `delay_on_pare` is set, the seconds from `now` to the time (in
/// milliseconds) written in the para part it points to, plus its seconds; else none.
/// `None` when that part is missing or is not a number.
pub open spec fn spec_delay(para: Seq<char>, r: RelationView, now: i64) -> Option<i32> {
    if r.delay > 0 {
        Some(r.delay)
    } else if r.delay_on_pare.0 > 0 {
        match spec_para_part(para, r.delay_on_pare.1 as int) {
            None => None,
            Some(p) => match spec_parse_i64(p) {
                None => None,
                Some(ts) => Some((spec_trunc_secs(ts - now) as i32).wrapping_add(r.delay_on_pare.0)),
            },
        }
    } else {
        Some(0)
    }
}

/// Whether an instance meets a relation's selector (a relation without one takes every instance).
pub open spec fn spec_selected(ins: &Instance, r: RelationView) -> bool {
    match r.selector {
        None => true,
        Some(s) => s.spec_context_ok(ins.context@) && s.spec_sys_context_ok(ins.sys_context@)
            && s.spec_source_status_ok(ins.states@),
    }
}

/// The mission, if any, that a relation gives for an instance at time `now`.
pub open spec fn spec_mission_for(ins: &Instance, r: RelationView, now: i64) -> Option<MissionView> {
    if !spec_selected(ins, r) {
        None
    } else {
        match spec_delay(ins.para@, r, now) {
            Some(d) => Some(spec_mission_of_relation(r, d)),
            None => None,
        }
    }
}

/// The missions that the relations give for an instance at time `now`, in their order.
pub open spec fn spec_missions(ins: &Instance, rels: Seq<RelationView>, now: i64) -> Seq<MissionView> {
    rels.filter_map(|r: RelationView| spec_mission_for(ins, r, now))
}

/// The views of a list of relations.
pub open spec fn relations_view(v: Seq<Relation>) -> Seq<RelationView> {
    v.map_values(|r: Relation| r@)
}

/// The message for a para without the part a delay points to.
pub open spec fn spec_no_para_part() -> Seq<char> {
    "the para has no part at the position the delay points to"@
}

/// The message for a delay that cannot be reckoned from the para `para`.
pub open spec fn spec_delay_error(para: Seq<char>, r: RelationView) -> Seq<char> {
    if spec_para_part(para, r.delay_on_pare.1 as int) is None {
        spec_no_para_part()
    } else {
        "the para part the delay points to is not a time"@
    }
}

/// The current time, in milliseconds since the Unix epoch, from the local clock.
#[verifier::external_body]
pub(crate) fn now_millis() -> (r: i64) {
    chrono::Local::now().timestamp_millis()
}

/// The part at position `idx` of a para whose parts are separated by `/`.
pub fn para_part(para: &str, idx: u8) -> (r: Result<String, NatureError>)
    ensures
        match spec_para_part(para@, idx as int) {
            Some(p) => r is Ok && r->Ok_0@ == p,
            None => r is Err && r->Err_0@ == (ErrorKind::VerifyError, spec_no_para_part()),
        },
{
    let parts = split_str(para, '/');
    if (idx as usize) < parts.len() {
        assert(views(parts@)[idx as int] == parts@[idx as int]@);
        Ok(parts[idx as usize].clone())
    } else {
        Err(NatureError::VerifyError("the para has no part at the position the delay points to".to_string()))
    }
}

/// The delay of `rela` for `ins` at the time `now` (milliseconds).
pub fn get_delay_at(ins: &Instance, rela: &Relation, now: i64) -> (r: Result<i32, NatureError>)
    ensures
        match spec_delay(ins.para@, rela@, now) {
            Some(d) => r == Ok::<i32, NatureError>(d),
            None => r is Err && r->Err_0@ == (ErrorKind::VerifyError, spec_delay_error(ins.para@, rela@)),
        },
{
    if rela.delay > 0 {
        Ok(rela.delay)
    } else if rela.delay_on_pare.0 > 0 {
        let part = para_part(ins.para.as_str(), rela.delay_on_pare.1)?;
        let ts = match parse_i64(part.as_str()) {
            Some(t) => t,
            None => return Err(NatureError::VerifyError("the para part the delay points to is not a time".to_string())),
        };
        let ms: i128 = ts as i128 - now as i128;
        let secs: i128 = if ms >= 0 { ms / 1000 } else { -((-ms) / 1000) };
        let secs32 = secs as i32;
        Ok(secs32.wrapping_add(rela.delay_on_pare.0))
    } else {
        Ok(0)
    }
}

/// The delay of `rela` for `ins`, reckoned from the local clock.
pub fn get_delay(ins: &Instance, rela: &Relation) -> (r: Result<i32, NatureError>)
    ensures
        exists|now: i64| match #[trigger] spec_delay(ins.para@, rela@, now) {
            Some(d) => r == Ok::<i32, NatureError>(d),
            None => r is Err && r->Err_0@ == (ErrorKind::VerifyError, spec_delay_error(ins.para@, rela@)),
        },
{
    let now = now_millis();
    get_delay_at(ins, rela, now)
}

/// A mission as it is written down: its target meta by its meta string.
#[derive(Debug, Default)]
pub struct MissionRaw {
    pub to: String,
    pub executor: Executor,
    pub filter_before: Vec<Executor>,
    pub filter_after: Vec<Executor>,
    pub target_demand: RelationTarget,
    pub use_upstream_id: bool,
    pub delay: i32,
}

pub struct MissionRawView {
    pub to: Seq<char>,
    pub executor: ExecutorView,
    pub filter_before: Seq<ExecutorView>,
    pub filter_after: Seq<ExecutorView>,
    pub target_demand: RelationTargetView,
    pub use_upstream_id: bool,
    pub delay: i32,
}

impl View for MissionRaw {
    type V = MissionRawView;

    open spec fn view(&self) -> MissionRawView {
        MissionRawView {
            to: self.to@,
            executor: self.executor@,
            filter_before: executors_view(self.filter_before@),
            filter_after: executors_view(self.filter_after@),
            target_demand: self.target_demand@,
            use_upstream_id: self.use_upstream_id,
            delay: self.delay,
        }
    }
}

impl MissionRaw {
    /// Writes a mission down, its target meta by its meta string.
    pub fn from(input: Mission) -> (r: MissionRaw)
        ensures
            r@ == (MissionRawView {
                to: spec_meta_string(input.to@),
                executor: input.executor@,
                filter_before: executors_view(input.filter_before@),
                filter_after: executors_view(input.filter_after@),
                target_demand: input.target_demand@,
                use_upstream_id: input.use_upstream_id,
                delay: input.delay,
            }),
    {
        MissionRaw {
            to: input.to.meta_string(),
            executor: input.executor,
            filter_before: input.filter_before,
            filter_after: input.filter_after,
            target_demand: input.target_demand,
            use_upstream_id: input.use_upstream_id,
            delay: input.delay,
        }
    }
}

/// A conversion chosen at run time: the target meta string (none for a target
/// of no meta), the executor, and how the target is identified and delayed.
#[derive(Debug, Default)]
pub struct DynamicConverter {
    pub to: Option<String>,
    pub fun: Executor,
    pub use_upstream_id: bool,
    pub delay: i32,
}

/// The mission for a dynamic converter.
pub open spec fn spec_dynamic_mission(d: &DynamicConverter) -> MissionView {
    MissionView {
        to: match d.to {
            None => crate::meta::spec_plain_meta(MetaType::Null, Seq::empty(), 1),
            Some(s) => crate::meta::spec_plain_meta(MetaType::Dynamic, s@, 1),
        },
        executor: d.fun@,
        filter_before: Seq::empty(),
        filter_after: Seq::empty(),
        target_demand: crate::executor::RelationTargetView { states: None, copy_para: Seq::empty() },
        use_upstream_id: d.use_upstream_id,
        delay: d.delay,
        sys_context: Seq::empty(),
    }
}

impl Mission {
    /// The missions for dynamic converters, one each, in order.
    pub fn for_dynamic(dynamic: Vec<DynamicConverter>) -> (r: Vec<Mission>)
        ensures
            r@.len() == dynamic@.len(),
            forall|i: int| 0 <= i < r@.len() ==> #[trigger] r@[i]@ == spec_dynamic_mission(&dynamic@[i]),
    {
        let mut missions: Vec<Mission> = Vec::new();
        let mut i: usize = 0;
        while i < dynamic.len()
            invariant
                0 <= i <= dynamic.len(),
                missions@.len() == i,
                forall|j: int| 0 <= j < i ==> #[trigger] missions@[j]@ == spec_dynamic_mission(&dynamic@[j]),
            decreases dynamic.len() - i,
        {
            let d = &dynamic[i];
            let t = match &d.to {
                None => Meta::new("", 1, MetaType::Null),
                Some(s) => Meta::new(s.as_str(), 1, MetaType::Dynamic),
            };
            proof {
                reveal_strlit("");
            }
            let m = Mission {
                to: t,
                executor: d.fun.clone(),
                filter_before: Vec::new(),
                filter_after: Vec::new(),
                target_demand: RelationTarget { states: None, copy_para: Vec::new() },
                use_upstream_id: d.use_upstream_id,
                delay: d.delay,
                sys_context: Vec::new(),
            };
            assert(m@.filter_before =~= Seq::empty());
            assert(m@.filter_after =~= Seq::empty());
            assert(m@.sys_context =~= Seq::empty());
            assert(m@.target_demand.copy_para =~= Seq::empty());
            assert(""@ =~= Seq::<char>::empty());
            assert(m@.to == spec_dynamic_mission(d).to);
            assert(m@ == spec_dynamic_mission(d));
            missions.push(m);
            i = i + 1;
        }
        missions
    }

    /// The mission that a written-down mission stands for, given its target meta
    /// as the meta cache gave it for `raw.to`.
    pub fn from_raw(raw: &MissionRaw, to: Result<Meta, NatureError>) -> (r: Result<Mission, NatureError>)
        ensures
            match to {
                Err(e) => r is Err && r->Err_0@ == e@,
                Ok(m) => r is Ok && r->Ok_0@ == (MissionView {
                    to: m@,
                    executor: raw.executor@,
                    filter_before: executors_view(raw.filter_before@),
                    filter_after: executors_view(raw.filter_after@),
                    target_demand: raw.target_demand@,
                    use_upstream_id: raw.use_upstream_id,
                    delay: raw.delay,
                    sys_context: Seq::empty(),
                }),
            },
    {
        let m = to?;
        let r = Mission {
            to: m,
            executor: raw.executor.clone(),
            filter_before: clone_executors(&raw.filter_before),
            filter_after: clone_executors(&raw.filter_after),
            target_demand: raw.target_demand.clone(),
            use_upstream_id: raw.use_upstream_id,
            delay: raw.delay,
            sys_context: Vec::new(),
        };
        assert(r@.sys_context =~= Seq::empty());
        Ok(r)
    }

    /// The mission a relation gives, with the given delay.
    pub fn from_relation(r: &Relation, delay: i32) -> (m: Mission)
        ensures
            m@ == spec_mission_of_relation(r@, delay),
    {
        let m = Mission {
            to: r.to.clone(),
            executor: r.executor.clone(),
            filter_before: clone_executors(&r.filter_before),
            filter_after: clone_executors(&r.filter_after),
            target_demand: r.target.clone(),
            use_upstream_id: r.use_upstream_id,
            delay,
            sys_context: Vec::new(),
        };
        assert(m.sys_context@ =~= Seq::empty());
        m
    }

    /// The missions that `relations` give for `instance` at the time `now`:
    /// those whose selector the instance's context, system context and states
    /// meet, in order, each with its delay; a relation whose delay cannot be
    /// reckoned is left out.
    pub fn get_by_instance_at(instance: &Instance, relations: &Vec<Relation>, now: i64) -> (r: Vec<Mission>)
        ensures
            missions_view(r@) == spec_missions(instance, relations_view(relations@), now),
    {
        let ghost rels = relations_view(relations@);
        let mut rtn: Vec<Mission> = Vec::new();
        let mut i: usize = 0;
        while i < relations.len()
            invariant
                0 <= i <= relations.len(),
                rels == relations_view(relations@),
                missions_view(rtn@) == spec_missions(instance, rels.take(i as int), now),
            decreases relations.len() - i,
        {
            let r = &relations[i];
            proof {
                rels.lemma_filter_map_take_succ(|x: RelationView| spec_mission_for(instance, x, now), i as int);
                assert(rels[i as int] == r@);
            }
            let selected = match &r.selector {
                Some(selector) => selector.context_check(&instance.context)
                    && selector.sys_context_check(&instance.sys_context)
                    && selector.source_status_check(&instance.states),
                None => true,
            };
            if selected {
                match get_delay_at(instance, r, now) {
                    Ok(d) => {
                        let m = Mission::from_relation(r, d);
                        let ghost before = rtn@;
                        rtn.push(m);
                        assert(missions_view(rtn@) =~= missions_view(before).push(m@));
                    },
                    Err(_) => {},
                }
            }
            i = i + 1;
        }
        assert(rels.take(relations.len() as int) == rels);
        rtn
    }

    /// The missions that `relations` give for `instance`, delays reckoned from the local clock.
    pub fn get_by_instance(instance: &Instance, relations: &Vec<Relation>) -> (r: Vec<Mission>)
        ensures
            exists|now: i64| missions_view(r@) == #[trigger] spec_missions(instance, relations_view(relations@), now),
    {
        if relations.len() == 0 {
            let r: Vec<Mission> = Vec::new();
            assert(missions_view(r@) =~= spec_missions(instance, relations_view(relations@), 0));
            return r;
        }
        let now = now_millis();
        Self::get_by_instance_at(instance, relations, now)
    }
}

/// Whether mission `m` carries what relation `r` says of its conversion: the
/// target meta, the executor, the filters before and after, the demand on the
/// target, and whether the upstream's id is used.
pub open spec fn spec_carries_relation(m: MissionView, r: RelationView) -> bool {
    &&& m.to == r.to
    &&& m.executor == r.executor
    &&& m.filter_before == r.filter_before
    &&& m.filter_after == r.filter_after
    &&& m.target_demand == r.target
    &&& m.use_upstream_id == r.use_upstream_id
}

/// The mission a relation gives carries what the relation says, with the delay
/// given and an empty system context.
pub proof fn lemma_mission_copies_relation(r: RelationView, delay: i32)
    ensures
        spec_carries_relation(spec_mission_of_relation(r, delay), r),
        spec_mission_of_relation(r, delay).delay == delay,
        spec_mission_of_relation(r, delay).sys_context.len() == 0,
{
}

/// Every mission an instance gives comes from one of the relations, one whose
/// selector the instance meets, and carries what that relation says, with the
/// delay the relation asks of the instance: here for the mission at `j`.
pub proof fn lemma_missions_come_from_relations(ins: &Instance, rels: Seq<RelationView>, now: i64, j: int)
    requires
        0 <= j < spec_missions(ins, rels, now).len(),
    ensures
        exists|i: int| 0 <= i < rels.len() && spec_selected(ins, rels[i])
            && #[trigger] spec_carries_relation(spec_missions(ins, rels, now)[j], rels[i])
            && spec_delay(ins.para@, rels[i], now) == Some(spec_missions(ins, rels, now)[j].delay),
{
    let m = spec_missions(ins, rels, now)[j];
    assert(spec_missions(ins, rels, now).contains(m));
    rels.lemma_filter_map_contains(|r: RelationView| spec_mission_for(ins, r, now), m);
    let t = choose|t: RelationView| #[trigger] rels.contains(t) && spec_mission_for(ins, t, now) == Some(m);
    let i = choose|i: int| 0 <= i < rels.len() && rels[i] == t;
    assert(spec_carries_relation(spec_missions(ins, rels, now)[j], rels[i]));
}

/// The mission for a dynamic converter keeps the converter's executor, delay and
/// use of the upstream's id; its target is the dynamic meta the converter names
/// (version 1), or the null meta when it names none.
pub proof fn lemma_dynamic_mission_keeps_converter(d: &DynamicConverter)
    ensures
        spec_dynamic_mission(d).delay == d.delay,
        spec_dynamic_mission(d).use_upstream_id == d.use_upstream_id,
        spec_dynamic_mission(d).executor == d.fun@,
        spec_dynamic_mission(d).to.version == 1,
        d.to is None ==> spec_dynamic_mission(d).to.meta_type == MetaType::Null,
        d.to matches Some(k) ==> spec_dynamic_mission(d).to.meta_type == MetaType::Dynamic
            && spec_dynamic_mission(d).to.key == k@,
        spec_dynamic_mission(d).filter_before.len() == 0,
        spec_dynamic_mission(d).filter_after.len() == 0,
{
}

/// A relation's own delay, when set, is the delay, whatever the para and the time.
pub proof fn lemma_own_delay_first(para: Seq<char>, r: RelationView, now: i64)
    requires
        r.delay > 0,
    ensures
        spec_delay(para, r, now) == Some(r.delay),
{
}

/// No relations give no missions.
pub proof fn lemma_no_relation_no_mission(ins: &Instance, now: i64)
    ensures
        spec_missions(ins, Seq::empty(), now) == Seq::<MissionView>::empty(),
{
    reveal_with_fuel(Seq::<_>::filter_map, 1);
}

/// At most one mission per relation.
pub proof fn lemma_missions_at_most_relations(ins: &Instance, rels: Seq<RelationView>, now: i64)
    ensures
        spec_missions(ins, rels, now).len() <= rels.len(),
    decreases rels.len(),
{
    reveal_with_fuel(Seq::<_>::filter_map, 1);
    if rels.len() > 0 {
        lemma_missions_at_most_relations(ins, rels.drop_last(), now);
    }
}

/// Relations without a selector and without a delay on the para each give their
/// mission, in order, whatever the instance and the time.
pub proof fn lemma_unselected_relations_all_taken(ins: &Instance, rels: Seq<RelationView>, now: i64)
    requires
        forall|i: int| 0 <= i < rels.len() ==> (#[trigger] rels[i]).selector is None && rels[i].delay_on_pare.0 <= 0,
    ensures
        spec_missions(ins, rels, now).len() == rels.len(),
        forall|i: int| 0 <= i < rels.len() ==> #[trigger] spec_missions(ins, rels, now)[i]
            == spec_mission_of_relation(rels[i], if rels[i].delay > 0 { rels[i].delay } else { 0 }),
    decreases rels.len(),
{
    reveal_with_fuel(Seq::<_>::filter_map, 1);
    if rels.len() > 0 {
        let p = rels.drop_last();
        assert forall|i: int| 0 <= i < p.len() implies (#[trigger] p[i]).selector is None && p[i].delay_on_pare.0 <= 0 by {
            assert(p[i] == rels[i]);
        }
        lemma_unselected_relations_all_taken(ins, p, now);
        let l = rels.last();
        assert(l == rels[rels.len() - 1]);
        assert(spec_mission_for(ins, l, now) == Some(spec_mission_of_relation(l, if l.delay > 0 { l.delay } else { 0 })));
        assert forall|i: int| 0 <= i < rels.len() implies #[trigger] spec_missions(ins, rels, now)[i]
            == spec_mission_of_relation(rels[i], if rels[i].delay > 0 { rels[i].delay } else { 0 }) by {
            if i < p.len() {
                assert(spec_missions(ins, rels, now)[i] == spec_missions(ins, p, now)[i]);
                assert(p[i] == rels[i]);
            }
        }
    }
}

/// A relation whose selector the instance does not meet gives no mission.
pub proof fn lemma_unmet_selector_no_mission(ins: &Instance, r: RelationView, now: i64)
    requires
        !spec_selected(ins, r),
    ensures
        spec_missions(ins, seq![r], now) == Seq::<MissionView>::empty(),
{
    reveal_with_fuel(Seq::<_>::filter_map, 2);
    assert(seq![r].drop_last() =~= Seq::<RelationView>::empty());
}

} // verus!
