//! One-step flows: the earlier form of a relation, one flow per executor, the
//! executors of one setting sharing one group.

use vstd::prelude::*;

use crate::error::{ErrorKind, NatureError};
use crate::executor::{executors_view, Executor, ExecutorView, TargetState, TargetStateView};
use crate::meta::{Meta, MetaView};
use crate::relation::{err_view, spec_check_target_states, Relation};
use crate::selector::{clone_opt_selector, opt_selector_view, FlowSelector, FlowSelectorView};

verus! {

/// A one-step flow as stored: its two metas, its settings as JSON and its flag.
#[derive(Debug, PartialEq)]
pub struct RawOneStepFlow {
    pub from_meta: String,
    pub to_meta: String,
    pub settings: String,
    pub flag: i32,
}

/// The settings of a one-step flow.
#[derive(Debug, Default, PartialEq)]
pub struct OneStepFlowSettings {
    pub selector: Option<FlowSelector>,
    pub executor: Vec<Executor>,
    pub use_upstream_id: bool,
    pub target_states: Option<TargetState>,
}

/// The view of the settings of a one-step flow.
pub struct OneStepFlowSettingsView {
    pub selector: Option<FlowSelectorView>,
    pub executor: Seq<ExecutorView>,
    pub use_upstream_id: bool,
    pub target_states: Option<TargetStateView>,
}

impl View for OneStepFlowSettings {
    type V = OneStepFlowSettingsView;

    open spec fn view(&self) -> OneStepFlowSettingsView {
        OneStepFlowSettingsView {
            selector: opt_selector_view(self.selector),
            executor: executors_view(self.executor@),
            use_upstream_id: self.use_upstream_id,
            target_states: opt_target_state_view(self.target_states),
        }
    }
}

/// A flow from one meta to another through one executor.
#[derive(Debug, PartialEq)]
pub struct OneStepFlow {
    pub from: Meta,
    pub to: Meta,
    pub selector: Option<FlowSelector>,
    pub executor: Executor,
    pub use_upstream_id: bool,
    pub target_states: Option<TargetState>,
}

pub struct OneStepFlowView {
    pub from: MetaView,
    pub to: MetaView,
    pub selector: Option<FlowSelectorView>,
    pub executor: ExecutorView,
    pub use_upstream_id: bool,
    pub target_states: Option<TargetStateView>,
}

/// The view of optional target states.
pub open spec fn opt_target_state_view(t: Option<TargetState>) -> Option<TargetStateView> {
    match t {
        Some(x) => Some(x@),
        None => None,
    }
}

impl View for OneStepFlow {
    type V = OneStepFlowView;

    open spec fn view(&self) -> OneStepFlowView {
        OneStepFlowView {
            from: self.from@,
            to: self.to@,
            selector: opt_selector_view(self.selector),
            executor: self.executor@,
            use_upstream_id: self.use_upstream_id,
            target_states: opt_target_state_view(self.target_states),
        }
    }
}

impl Clone for OneStepFlow {
    fn clone(&self) -> (r: Self)
        ensures
            r@ == self@,
    {
        OneStepFlow {
            from: self.from.clone(),
            to: self.to.clone(),
            selector: clone_opt_selector(&self.selector),
            executor: self.executor.clone(),
            use_upstream_id: self.use_upstream_id,
            target_states: match &self.target_states {
                Some(t) => Some(t.clone()),
                None => None,
            },
        }
    }
}

/// The views of a list of flows.
pub open spec fn flows_view(v: Seq<OneStepFlow>) -> Seq<OneStepFlowView> {
    v.map_values(|f: OneStepFlow| f@)
}

/// The groups of a list of executors.
pub open spec fn groups_of(v: Seq<ExecutorView>) -> Seq<Seq<char>> {
    v.map_values(|e: ExecutorView| e.group)
}

/// One step of the group scan: the first non-empty group is taken (the id
/// `id` standing in for an empty one); any later group that differs fails it.
pub open spec fn spec_group_step(st: (Seq<char>, bool), g: Seq<char>, id: Seq<char>) -> (Seq<char>, bool) {
    if st.0.len() == 0 {
        (if g.len() == 0 { id } else { g }, st.1)
    } else if st.0 != g {
        (st.0, false)
    } else {
        st
    }
}

/// The group that the executors with groups `gs` share, and whether they do.
pub open spec fn spec_group_scan(gs: Seq<Seq<char>>, id: Seq<char>) -> (Seq<char>, bool)
    decreases gs.len(),
{
    if gs.len() == 0 {
        (Seq::empty(), true)
    } else {
        spec_group_step(spec_group_scan(gs.drop_last(), id), gs.last(), id)
    }
}

/// The message for executors of one setting that do not share a group.
pub open spec fn spec_group_error() -> Seq<char> {
    "in one setting all executor's grpup must be same."@
}

/// The flows a stored one-step flow becomes, given its parsed settings, the id
/// that stands for an empty group and its two metas; or the error that stops it.
pub open spec fn spec_flows_from_raw(
    settings: Result<OneStepFlowSettings, String>,
    id: Seq<char>,
    m_from: Result<Meta, NatureError>,
    m_to: Result<Meta, NatureError>,
) -> Result<Seq<OneStepFlowView>, (ErrorKind, Seq<char>)> {
    match settings {
        Err(e) => Err((ErrorKind::VerifyError, e@)),
        Ok(s) => {
            let st = spec_group_scan(groups_of(executors_view(s.executor@)), id);
            if !st.1 {
                Err((ErrorKind::VerifyError, spec_group_error()))
            } else {
                match m_from {
                    Err(e) => Err(e@),
                    Ok(f) => match m_to {
                        Err(e) => Err(e@),
                        Ok(t) => match spec_check_target_states(t@, opt_target_state_view(s.target_states)) {
                            Some(e) => Err(e),
                            None => Ok(executors_view(s.executor@).map_values(|e: ExecutorView| OneStepFlowView {
                                from: f@,
                                to: t@,
                                selector: opt_selector_view(s.selector),
                                executor: ExecutorView { group: st.0, ..e },
                                use_upstream_id: s.use_upstream_id,
                                target_states: opt_target_state_view(s.target_states),
                            })),
                        },
                    },
                }
            }
        },
    }
}

/// The group the executors of one setting are put in: the first executor's, or
/// the id when the first names none.
pub open spec fn spec_first_group(gs: Seq<Seq<char>>, id: Seq<char>) -> Seq<char> {
    if gs[0].len() == 0 {
        id
    } else {
        gs[0]
    }
}

/// With a non-empty id, the group scan keeps the first executor's group (the id
/// for an empty one), and passes exactly when every later executor names that group.
pub proof fn lemma_group_scan(gs: Seq<Seq<char>>, id: Seq<char>)
    requires
        id.len() > 0,
        gs.len() > 0,
    ensures
        spec_group_scan(gs, id).0 == spec_first_group(gs, id),
        spec_group_scan(gs, id).1 <==> forall|i: int| 1 <= i < gs.len() ==> #[trigger] gs[i] == spec_first_group(gs, id),
    decreases gs.len(),
{
    let d = gs.drop_last();
    if gs.len() == 1 {
        assert(d =~= Seq::<Seq<char>>::empty());
        assert(spec_group_scan(d, id) == (Seq::<char>::empty(), true));
    } else {
        lemma_group_scan(d, id);
        assert(d[0] == gs[0]);
        assert(spec_first_group(d, id) == spec_first_group(gs, id));
        if spec_group_scan(gs, id).1 {
            assert forall|i: int| 1 <= i < gs.len() implies #[trigger] gs[i] == spec_first_group(gs, id) by {
                if i < gs.len() - 1 {
                    assert(gs[i] == d[i]);
                }
            }
        }
        if forall|i: int| 1 <= i < gs.len() ==> #[trigger] gs[i] == spec_first_group(gs, id) {
            assert forall|i: int| 1 <= i < d.len() implies #[trigger] d[i] == spec_first_group(d, id) by {
                assert(gs[i] == d[i]);
            }
            assert(gs.last() == gs[gs.len() - 1]);
        }
    }
}

/// The flows one stored setting becomes all share one group, the first executor's
/// (the id for an empty one), one flow per executor; and a setting whose later
/// executors name another group is refused. The id must not be empty.
pub proof fn lemma_one_setting_one_group(
    s: OneStepFlowSettings,
    id: Seq<char>,
    m_from: Result<Meta, NatureError>,
    m_to: Result<Meta, NatureError>,
)
    requires
        id.len() > 0,
        s.executor@.len() > 0,
    ensures
        ({
            let gs = groups_of(executors_view(s.executor@));
            let r = spec_flows_from_raw(Ok(s), id, m_from, m_to);
            &&& r is Ok ==> r->Ok_0.len() == s.executor@.len()
                && forall|i: int| 0 <= i < r->Ok_0.len() ==> (#[trigger] r->Ok_0[i]).executor.group == spec_first_group(gs, id)
            &&& (exists|i: int| 1 <= i < gs.len() && #[trigger] gs[i] != spec_first_group(gs, id))
                ==> r == Err::<Seq<OneStepFlowView>, (ErrorKind, Seq<char>)>((ErrorKind::VerifyError, spec_group_error()))
        }),
{
    let gs = groups_of(executors_view(s.executor@));
    lemma_group_scan(gs, id);
}

/// The flows read from a stored setting keep what the setting says: one per
/// executor, in order, each from and to the metas given, with the setting's
/// selector, `use_upstream_id` and target states, and its executor as the setting
/// names it but for the group they share.
pub proof fn lemma_flows_keep_setting(
    settings: Result<OneStepFlowSettings, String>,
    id: Seq<char>,
    m_from: Result<Meta, NatureError>,
    m_to: Result<Meta, NatureError>,
)
    ensures
        spec_flows_from_raw(settings, id, m_from, m_to) matches Ok(v) ==> {
            &&& settings is Ok && m_from is Ok && m_to is Ok
            &&& v.len() == settings->Ok_0.executor@.len()
            &&& forall|i: int| 0 <= i < v.len() ==> {
                let f = #[trigger] v[i];
                let e = settings->Ok_0.executor@[i];
                &&& f.from == m_from->Ok_0@
                &&& f.to == m_to->Ok_0@
                &&& f.selector == opt_selector_view(settings->Ok_0.selector)
                &&& f.use_upstream_id == settings->Ok_0.use_upstream_id
                &&& f.target_states == opt_target_state_view(settings->Ok_0.target_states)
                &&& f.executor.protocol == e.protocol
                &&& f.executor.url == e.url@
                &&& f.executor.settings == e.settings@
                &&& f.executor.proportion == e.proportion
            }
        },
{
    if let Ok(v) = spec_flows_from_raw(settings, id, m_from, m_to) {
        let s = settings->Ok_0;
        assert forall|i: int| 0 <= i < v.len() implies {
            let f = #[trigger] v[i];
            let e = s.executor@[i];
            &&& f.executor.protocol == e.protocol
            &&& f.executor.url == e.url@
        } by {
            assert(executors_view(s.executor@)[i] == s.executor@[i]@);
        }
    }
}

/// The flows of `flows` whose executor is in the group `label`, in order.
pub open spec fn spec_flows_in_group(flows: Seq<OneStepFlowView>, label: Seq<char>) -> Seq<OneStepFlowView> {
    flows.filter(|f: OneStepFlowView| f.executor.group == label)
}

/// What `get_label_groups` gives for `flows`: the labels, each once, and for each
/// the flows in its group, in order; every flow's label is among them.
pub open spec fn spec_is_label_grouping(flows: Seq<OneStepFlowView>, keys: Seq<Seq<char>>, groups: Seq<Seq<OneStepFlowView>>) -> bool {
    &&& keys.len() == groups.len()
    &&& forall|a: int, b: int| 0 <= a < b < keys.len() ==> keys[a] != keys[b]
    &&& forall|j: int| 0 <= j < keys.len() ==> #[trigger] groups[j] == spec_flows_in_group(flows, keys[j])
    &&& forall|i: int| 0 <= i < flows.len() ==> keys.contains(#[trigger] flows[i].executor.group)
}

/// The labels of groups.
pub open spec fn group_keys(g: Seq<(String, Vec<OneStepFlow>)>) -> Seq<Seq<char>> {
    g.map_values(|p: (String, Vec<OneStepFlow>)| p.0@)
}

/// The flows of groups.
pub open spec fn group_flows(g: Seq<(String, Vec<OneStepFlow>)>) -> Seq<Seq<OneStepFlowView>> {
    g.map_values(|p: (String, Vec<OneStepFlow>)| flows_view(p.1@))
}

/// The position of the group labelled `label`, if any.
fn find_group(groups: &Vec<(String, Vec<OneStepFlow>)>, label: &String) -> (r: Option<usize>)
    ensures
        match r {
            Some(j) => j < groups@.len() && group_keys(groups@)[j as int] == label@,
            None => !group_keys(groups@).contains(label@),
        },
{
    let mut j: usize = 0;
    while j < groups.len()
        invariant
            0 <= j <= groups.len(),
            forall|k: int| 0 <= k < j ==> group_keys(groups@)[k] != label@,
        decreases groups.len() - j,
    {
        if groups[j].0 == *label {
            return Some(j);
        }
        j = j + 1;
    }
    None
}

/// A fresh random id, for the group of executors that name none: `Uuid::new_v4`
/// written in its hyphenated form, 36 characters. Which id comes out is not stated.
#[verifier::external_body]
pub(crate) fn new_group_id() -> (r: String)
    ensures
        r@.len() == 36,
{
    uuid::Uuid::new_v4().to_string()
}

/// The view of a result of flows.
pub open spec fn flows_result_view(r: Result<Vec<OneStepFlow>, NatureError>) -> Result<Seq<OneStepFlowView>, (ErrorKind, Seq<char>)> {
    match r {
        Ok(v) => Ok(flows_view(v@)),
        Err(e) => Err(e@),
    }
}

/// What the grouping of a setting with executors gives, for the id `id` standing
/// in for an empty first group: on success every flow is in the first executor's
/// group (the id for an empty one) and so is every later executor; a later
/// executor naming another group refuses the setting.
pub open spec fn spec_one_group_outcome(
    settings: Result<OneStepFlowSettings, String>,
    id: Seq<char>,
    r: Result<Vec<OneStepFlow>, NatureError>,
) -> bool {
    match settings {
        Ok(s) => s.executor@.len() > 0 ==> {
            let gs = groups_of(executors_view(s.executor@));
            &&& (r is Ok ==> forall|i: int| 0 <= i < r->Ok_0@.len()
                ==> (#[trigger] r->Ok_0@[i]).executor.group@ == spec_first_group(gs, id))
            &&& (r is Ok ==> forall|i: int| 1 <= i < gs.len() ==> #[trigger] gs[i] == spec_first_group(gs, id))
            &&& ((exists|i: int| 1 <= i < gs.len() && #[trigger] gs[i] != spec_first_group(gs, id))
                ==> r is Err && r->Err_0@ == (ErrorKind::VerifyError, spec_group_error()))
        },
        Err(_) => true,
    }
}

impl OneStepFlow {
    /// The group that the executors share (`id` standing in for an empty one), or none when they do not.
    pub fn unified_group(executors: &Vec<Executor>, id: &String) -> (r: Option<String>)
        ensures
            ({
                let st = spec_group_scan(groups_of(executors_view(executors@)), id@);
                &&& r is Some <==> st.1
                &&& r is Some ==> r->Some_0@ == st.0
            }),
    {
        let ghost gs = groups_of(executors_view(executors@));
        let mut group = String::new();
        let mut ok = true;
        let mut i: usize = 0;
        while i < executors.len()
            invariant
                0 <= i <= executors.len(),
                gs == groups_of(executors_view(executors@)),
                spec_group_scan(gs.take(i as int), id@) == (group@, ok),
            decreases executors.len() - i,
        {
            proof {
                assert(gs.take(i + 1).drop_last() == gs.take(i as int));
                assert(gs.take(i + 1).last() == executors@[i as int].group@);
            }
            if group.as_str().is_empty() {
                group = executors[i].group.clone();
                if group.as_str().is_empty() {
                    group = id.clone();
                }
            } else if group != executors[i].group {
                ok = false;
            }
            i = i + 1;
        }
        assert(gs.take(executors.len() as int) == gs);
        if ok {
            Some(group)
        } else {
            None
        }
    }

    /// The flows a stored one-step flow becomes: one per executor of its settings,
    /// all put in the group the executors share (`id` standing in for an empty one).
    /// `settings` is the stored settings parsed as JSON, or the parser's description
    /// of why they could not be; `m_from` and `m_to` are its metas as the meta cache
    /// gave them.
    pub fn from_raw_with_id(
        settings: Result<OneStepFlowSettings, String>,
        id: String,
        m_from: Result<Meta, NatureError>,
        m_to: Result<Meta, NatureError>,
    ) -> (r: Result<Vec<OneStepFlow>, NatureError>)
        ensures
            flows_result_view(r) == spec_flows_from_raw(settings, id@, m_from, m_to),
    {
        let settings = match settings {
            Ok(s) => s,
            Err(e) => return Err(NatureError::VerifyError(e)),
        };
        let group = match OneStepFlow::unified_group(&settings.executor, &id) {
            Some(g) => g,
            None => return Err(NatureError::VerifyError("in one setting all executor's grpup must be same.".to_string())),
        };
        let m_from = m_from?;
        let m_to = m_to?;
        Relation::check_target_states(&m_to, &settings.target_states)?;
        let ghost st = spec_group_scan(groups_of(executors_view(settings.executor@)), id@);
        let ghost expected = executors_view(settings.executor@).map_values(|e: ExecutorView| OneStepFlowView {
            from: m_from@,
            to: m_to@,
            selector: opt_selector_view(settings.selector),
            executor: ExecutorView { group: st.0, ..e },
            use_upstream_id: settings.use_upstream_id,
            target_states: opt_target_state_view(settings.target_states),
        });
        let mut rtn: Vec<OneStepFlow> = Vec::new();
        let mut i: usize = 0;
        while i < settings.executor.len()
            invariant
                0 <= i <= settings.executor.len(),
                group@ == st.0,
                expected.len() == settings.executor@.len(),
                forall|j: int| 0 <= j < settings.executor@.len() ==> #[trigger] expected[j] == (OneStepFlowView {
                    from: m_from@,
                    to: m_to@,
                    selector: opt_selector_view(settings.selector),
                    executor: ExecutorView { group: st.0, ..settings.executor@[j]@ },
                    use_upstream_id: settings.use_upstream_id,
                    target_states: opt_target_state_view(settings.target_states),
                }),
                flows_view(rtn@) == expected.take(i as int),
            decreases settings.executor.len() - i,
        {
            let mut e2 = settings.executor[i].clone();
            e2.group = group.clone();
            let f = OneStepFlow {
                from: m_from.clone(),
                to: m_to.clone(),
                selector: clone_opt_selector(&settings.selector),
                executor: e2,
                use_upstream_id: settings.use_upstream_id,
                target_states: match &settings.target_states {
                    Some(t) => Some(t.clone()),
                    None => None,
                },
            };
            let ghost before = rtn@;
            rtn.push(f);
            assert(f@ == expected[i as int]);
            assert(flows_view(rtn@) =~= flows_view(before).push(f@));
            assert(expected.take(i + 1) =~= expected.take(i as int).push(expected[i as int]));
            i = i + 1;
        }
        assert(expected.take(settings.executor.len() as int) =~= expected);
        Ok(rtn)
    }

    /// Groups flows by the group of their executor: the labels, each once, in the
    /// order they first appear, each with its flows in order. Only one flow of a
    /// group is taken at a time, which lets two flows be switched smoothly.
    pub fn get_label_groups(maps: &Vec<OneStepFlow>) -> (r: Vec<(String, Vec<OneStepFlow>)>)
        ensures
            spec_is_label_grouping(flows_view(maps@), group_keys(r@), group_flows(r@)),
    {
        let ghost fl = flows_view(maps@);
        let mut groups: Vec<(String, Vec<OneStepFlow>)> = Vec::new();
        let mut i: usize = 0;
        while i < maps.len()
            invariant
                0 <= i <= maps.len(),
                fl == flows_view(maps@),
                spec_is_label_grouping(fl.take(i as int), group_keys(groups@), group_flows(groups@)),
            decreases maps.len() - i,
        {
            let f = maps[i].clone();
            let label = f.executor.group.clone();
            let ghost old_groups = groups@;
            let ghost prev = fl.take(i as int);
            let ghost next = fl.take(i + 1);
            proof {
                reveal_with_fuel(Seq::<_>::filter, 1);
                assert(next.drop_last() == prev);
                assert(next.last() == f@);
                assert forall|k: int| 0 <= k < group_keys(old_groups).len() implies
                    #[trigger] spec_flows_in_group(next, group_keys(old_groups)[k])
                        == if group_keys(old_groups)[k] == label@ {
                            spec_flows_in_group(prev, group_keys(old_groups)[k]).push(f@)
                        } else {
                            spec_flows_in_group(prev, group_keys(old_groups)[k])
                        } by {
                }
            }
            match find_group(&groups, &label) {
                Some(j) => {
                    let (k, mut l) = groups.remove(j);
                    let ghost before_l = l@;
                    l.push(f);
                    groups.insert(j, (k, l));
                    proof {
                        assert(groups@ =~= old_groups.update(j as int, (k, l)));
                        assert(flows_view(l@) =~= flows_view(before_l).push(f@));
                        assert(group_keys(groups@) =~= group_keys(old_groups));
                        assert forall|x: int| 0 <= x < group_keys(groups@).len() implies
                            #[trigger] group_flows(groups@)[x] == spec_flows_in_group(next, group_keys(groups@)[x]) by {
                            assert(group_keys(groups@)[x] == group_keys(old_groups)[x]);
                            assert(spec_flows_in_group(next, group_keys(old_groups)[x]) == if group_keys(old_groups)[x] == label@ {
                                spec_flows_in_group(prev, group_keys(old_groups)[x]).push(f@)
                            } else {
                                spec_flows_in_group(prev, group_keys(old_groups)[x])
                            });
                            assert(group_flows(old_groups)[x] == spec_flows_in_group(prev, group_keys(old_groups)[x]));
                            if x == j as int {
                                assert(before_l == old_groups[j as int].1@);
                                assert(group_flows(groups@)[x] == flows_view(l@));
                            } else {
                                assert(group_keys(old_groups)[x] != group_keys(old_groups)[j as int]);
                                assert(group_flows(groups@)[x] == group_flows(old_groups)[x]);
                            }
                        }
                        assert forall|y: int| 0 <= y < next.len() implies
                            group_keys(groups@).contains(#[trigger] next[y].executor.group) by {
                            if y < prev.len() {
                                assert(next[y] == prev[y]);
                            } else {
                                assert(group_keys(groups@)[j as int] == label@);
                            }
                        }
                    }
                },
                None => {
                    let mut l: Vec<OneStepFlow> = Vec::new();
                    l.push(f);
                    groups.push((label, l));
                    proof {
                        assert(group_keys(groups@) =~= group_keys(old_groups).push(label@));
                        assert(flows_view(l@) =~= seq![f@]);
                        assert(group_flows(groups@) =~= group_flows(old_groups).push(flows_view(l@)));
                        assert forall|y: int| 0 <= y < prev.len() implies
                            !((|g: OneStepFlowView| g.executor.group == label@)(#[trigger] prev[y])) by {
                            assert(group_keys(old_groups).contains(prev[y].executor.group));
                        }
                        prev.lemma_all_neg_filter_empty(|g: OneStepFlowView| g.executor.group == label@);
                        assert forall|x: int| 0 <= x < group_keys(groups@).len() implies
                            #[trigger] group_flows(groups@)[x] == spec_flows_in_group(next, group_keys(groups@)[x]) by {
                            if x == group_keys(old_groups).len() {
                                assert(spec_flows_in_group(prev, label@) =~= Seq::empty());
                                assert(spec_flows_in_group(next, label@) =~= seq![f@]);
                            } else {
                                assert(group_keys(old_groups).contains(group_keys(old_groups)[x]));
                                assert(group_flows(groups@)[x] == group_flows(old_groups)[x]);
                            }
                        }
                        assert forall|y: int| 0 <= y < next.len() implies
                            group_keys(groups@).contains(#[trigger] next[y].executor.group) by {
                            if y < prev.len() {
                                assert(next[y] == prev[y]);
                                assert(group_keys(old_groups).contains(prev[y].executor.group));
                                let k = choose|k: int| 0 <= k < group_keys(old_groups).len() && group_keys(old_groups)[k] == prev[y].executor.group;
                                assert(group_keys(groups@)[k] == group_keys(old_groups)[k]);
                            } else {
                                assert(group_keys(groups@)[group_keys(old_groups).len() as int] == label@);
                            }
                        }
                    }
                },
            }
            i = i + 1;
        }
        assert(fl.take(maps.len() as int) == fl);
        groups
    }

    /// As `from_raw_with_id`, with a fresh random id (never empty) standing in for an
    /// empty group. So the flows share a group that is never empty: the first
    /// executor's, or the fresh id; and the setting is refused exactly when a later
    /// executor names another group than that one.
    pub fn from_raw(
        settings: Result<OneStepFlowSettings, String>,
        m_from: Result<Meta, NatureError>,
        m_to: Result<Meta, NatureError>,
    ) -> (r: Result<Vec<OneStepFlow>, NatureError>)
        ensures
            exists|id: Seq<char>| id.len() > 0
                && flows_result_view(r) == #[trigger] spec_flows_from_raw(settings, id, m_from, m_to)
                && spec_one_group_outcome(settings, id, r),
            r is Ok ==> forall|i: int| 0 <= i < r->Ok_0@.len() ==> (#[trigger] r->Ok_0@[i]).executor.group@.len() > 0,
    {
        let id = new_group_id();
        let ghost idv = id@;
        let ghost st = settings;
        let ghost mf = m_from;
        let ghost mt = m_to;
        let r = Self::from_raw_with_id(settings, id, m_from, m_to);
        let ghost rg = r;
        proof {
            if let Ok(s) = st {
                let gs = groups_of(executors_view(s.executor@));
                if s.executor@.len() > 0 {
                    lemma_one_setting_one_group(s, idv, mf, mt);
                    lemma_group_scan(gs, idv);
                    assert(spec_first_group(gs, idv).len() > 0);
                    if let Ok(v) = rg {
                        assert forall|i: int| 0 <= i < v@.len() implies
                            (#[trigger] v@[i]).executor.group@ == spec_first_group(gs, idv) by {
                            assert(flows_view(v@)[i] == v@[i]@);
                        }
                    }
                } else if let Ok(v) = rg {
                    assert(flows_view(v@).len() == 0);
                }
                assert(spec_one_group_outcome(st, idv, r));
            }
            assert(spec_one_group_outcome(st, idv, r));
        }
        r
    }
}

} // verus!
