//! Relations: a stored link from one meta to another, with the settings that
//! say when and how an upstream instance is converted into a downstream one.

use vstd::prelude::*;
use vstd::string::StringExecFns;

use crate::error::{ErrorKind, NatureError};
use crate::executor::{
    clone_executors, executors_view, spec_auto_executor, Executor, ExecutorView, Protocol,
    RelationTarget, RelationTargetView, TargetState, TargetStateView,
};
use crate::meta::{spec_has_state, spec_meta_string, spec_plain_meta, Meta, MetaType, MetaView};
use crate::selector::{clone_opt_selector, opt_selector_view, FlowSelector, FlowSelectorView};
use crate::text::views;

verus! {

/// A relation as stored: its two metas, its settings as JSON and its flag.
#[derive(Debug, PartialEq)]
pub struct RawRelation {
    pub from_meta: String,
    pub to_meta: String,
    pub settings: String,
    pub flag: i32,
}

pub struct RawRelationView {
    pub from_meta: Seq<char>,
    pub to_meta: Seq<char>,
    pub settings: Seq<char>,
    pub flag: i32,
}

impl View for RawRelation {
    type V = RawRelationView;

    open spec fn view(&self) -> RawRelationView {
        RawRelationView { from_meta: self.from_meta@, to_meta: self.to_meta@, settings: self.settings@, flag: self.flag }
    }
}

impl Clone for RawRelation {
    fn clone(&self) -> (r: Self)
        ensures
            r@ == self@,
    {
        RawRelation {
            from_meta: self.from_meta.clone(),
            to_meta: self.to_meta.clone(),
            settings: self.settings.clone(),
            flag: self.flag,
        }
    }
}

/// `relation[<from>  --->  <to>]`.
pub open spec fn spec_raw_relation_string(r: RawRelationView) -> Seq<char> {
    "relation["@ + r.from_meta + "  --->  "@ + r.to_meta + "]"@
}

impl RawRelation {
    /// `relation[<from>  --->  <to>]`.
    pub fn get_string(&self) -> (r: String)
        ensures
            r@ == spec_raw_relation_string(self@),
    {
        "relation[".to_string().concat(self.from_meta.as_str()).concat("  --->  ").concat(self.to_meta.as_str()).concat("]")
    }
}

/// The settings of a relation.
#[derive(Debug, Default, PartialEq)]
pub struct RelationSettings {
    pub selector: Option<FlowSelector>,
    pub executor: Option<Executor>,
    pub filter_before: Vec<Executor>,
    pub filter_after: Vec<Executor>,
    /// When the downstream meta holds states, use the upstream's id as the downstream's id.
    pub use_upstream_id: bool,
    pub target: RelationTarget,
    /// Seconds to wait before the conversion runs.
    pub delay: i32,
    /// Seconds to wait after the time written in the para part at the given position.
    pub delay_on_para: (i32, u8),
    pub id_bridge: bool,
}

pub struct RelationSettingsView {
    pub selector: Option<FlowSelectorView>,
    pub executor: Option<ExecutorView>,
    pub filter_before: Seq<ExecutorView>,
    pub filter_after: Seq<ExecutorView>,
    pub use_upstream_id: bool,
    pub target: RelationTargetView,
    pub delay: i32,
    pub delay_on_para: (i32, u8),
    pub id_bridge: bool,
}

impl View for RelationSettings {
    type V = RelationSettingsView;

    open spec fn view(&self) -> RelationSettingsView {
        RelationSettingsView {
            selector: opt_selector_view(self.selector),
            executor: match self.executor {
                Some(e) => Some(e@),
                None => None,
            },
            filter_before: executors_view(self.filter_before@),
            filter_after: executors_view(self.filter_after@),
            use_upstream_id: self.use_upstream_id,
            target: self.target@,
            delay: self.delay,
            delay_on_para: self.delay_on_para,
            id_bridge: self.id_bridge,
        }
    }
}

/// A relation that the engine follows.
#[derive(Debug, PartialEq)]
pub struct Relation {
    pub from: String,
    pub to: Meta,
    pub selector: Option<FlowSelector>,
    pub executor: Executor,
    pub filter_before: Vec<Executor>,
    pub filter_after: Vec<Executor>,
    pub use_upstream_id: bool,
    pub target: RelationTarget,
    pub delay: i32,
    pub delay_on_pare: (i32, u8),
    pub id_bridge: bool,
}

pub struct RelationView {
    pub from: Seq<char>,
    pub to: MetaView,
    pub selector: Option<FlowSelectorView>,
    pub executor: ExecutorView,
    pub filter_before: Seq<ExecutorView>,
    pub filter_after: Seq<ExecutorView>,
    pub use_upstream_id: bool,
    pub target: RelationTargetView,
    pub delay: i32,
    pub delay_on_pare: (i32, u8),
    pub id_bridge: bool,
}

impl View for Relation {
    type V = RelationView;

    open spec fn view(&self) -> RelationView {
        RelationView {
            from: self.from@,
            to: self.to@,
            selector: opt_selector_view(self.selector),
            executor: self.executor@,
            filter_before: executors_view(self.filter_before@),
            filter_after: executors_view(self.filter_after@),
            use_upstream_id: self.use_upstream_id,
            target: self.target@,
            delay: self.delay,
            delay_on_pare: self.delay_on_pare,
            id_bridge: self.id_bridge,
        }
    }
}

impl Default for Relation {
    /// A relation from nowhere to the default meta, without selector, settings or delay.
    fn default() -> (r: Relation)
        ensures
            r@.from == Seq::<char>::empty(),
            r@.to == spec_plain_meta(MetaType::Business, Seq::empty(), 1),
            r@.selector is None,
            r@.executor == (ExecutorView { protocol: Protocol::LocalRust, url: Seq::empty(), settings: Seq::empty(), group: Seq::empty(), proportion: 0 }),
            r@.filter_before.len() == 0,
            r@.filter_after.len() == 0,
            !r@.use_upstream_id,
            r@.target.states is None,
            r@.target.copy_para.len() == 0,
            r@.delay == 0,
            r@.delay_on_pare == (0i32, 0u8),
            !r@.id_bridge,
    {
        Relation {
            from: String::new(),
            to: Meta::default(),
            selector: None,
            executor: Executor::default(),
            filter_before: Vec::new(),
            filter_after: Vec::new(),
            use_upstream_id: false,
            target: RelationTarget { states: None, copy_para: Vec::new() },
            delay: 0,
            delay_on_pare: (0, 0),
            id_bridge: false,
        }
    }
}

impl Clone for Relation {
    fn clone(&self) -> (r: Self)
        ensures
            r@ == self@,
    {
        Relation {
            from: self.from.clone(),
            to: self.to.clone(),
            selector: clone_opt_selector(&self.selector),
            executor: self.executor.clone(),
            filter_before: clone_executors(&self.filter_before),
            filter_after: clone_executors(&self.filter_after),
            use_upstream_id: self.use_upstream_id,
            target: self.target.clone(),
            delay: self.delay,
            delay_on_pare: self.delay_on_pare,
            id_bridge: self.id_bridge,
        }
    }
}

/// The `Debug` text of a list of names.
pub uninterp spec fn debug_names_text(names: Seq<Seq<char>>) -> Seq<char>;

/// Writes a list of names with `{:?}`.
#[verifier::external_body]
fn debug_names(names: &Vec<String>) -> (r: String)
    ensures
        r@ == debug_names_text(views(names@)),
{
    format!("{:?}", names)
}

/// The names in `x` that the meta `m` does not define as states, in their order.
pub open spec fn spec_undefined_states(m: MetaView, x: Seq<Seq<char>>) -> Seq<Seq<char>> {
    x.filter(|n: Seq<char>| !spec_has_state(m, n))
}

/// The error, if any, for the state names `x` against the meta `m`.
pub open spec fn spec_check_state(m: MetaView, x: Seq<Seq<char>>) -> Option<(ErrorKind, Seq<char>)> {
    let b = spec_undefined_states(m, x);
    if b.len() > 0 {
        Some((ErrorKind::VerifyError, "[to meta] did not defined state : "@ + debug_names_text(b) + " "@))
    } else {
        None
    }
}

/// The error, if any, for the states that `target` adds and removes against the meta `m`.
pub open spec fn spec_check_target(m: MetaView, target: RelationTargetView) -> Option<(ErrorKind, Seq<char>)> {
    spec_check_target_states(m, target.states)
}

/// The error, if any, for the states that `states` adds (checked first) and removes against the meta `m`.
pub open spec fn spec_check_target_states(m: MetaView, states: Option<TargetStateView>) -> Option<(ErrorKind, Seq<char>)> {
    match states {
        Some(ts) => {
            let add_err = match ts.add {
                Some(x) => spec_check_state(m, x),
                None => None,
            };
            if add_err is Some {
                add_err
            } else {
                match ts.remove {
                    Some(x) => spec_check_state(m, x),
                    None => None,
                }
            }
        },
        None => None,
    }
}

/// The view of a result that carries an error.
pub open spec fn err_view<T>(r: Result<T, NatureError>) -> Option<(ErrorKind, Seq<char>)> {
    match r {
        Ok(_) => None,
        Err(e) => Some(e@),
    }
}

/// The relation that a stored relation becomes, given its parsed settings and its
/// target meta; or the error that stops it.
pub open spec fn spec_from_raw(
    val: RawRelationView,
    settings: Result<RelationSettingsView, Seq<char>>,
    m_to: Result<MetaView, (ErrorKind, Seq<char>)>,
) -> Result<RelationView, (ErrorKind, Seq<char>)> {
    match settings {
        Err(e) => Err((ErrorKind::VerifyError, spec_raw_relation_string(val) + "'s setting format error: "@ + e)),
        Ok(s) => match m_to {
            Err(e) => Err(e),
            Ok(m) => match spec_check_target(m, s.target) {
                Some(e) => Err(e),
                None => {
                    let base = RelationView {
                        from: val.from_meta,
                        to: m,
                        selector: s.selector,
                        executor: spec_auto_executor(),
                        filter_before: s.filter_before,
                        filter_after: s.filter_after,
                        use_upstream_id: s.use_upstream_id,
                        target: s.target,
                        delay: s.delay,
                        delay_on_pare: s.delay_on_para,
                        id_bridge: s.id_bridge,
                    };
                    match s.executor {
                        Some(e) => if e.protocol == Protocol::Auto {
                            Err((ErrorKind::VerifyError, spec_raw_relation_string(val) + " Protocol::Auto can not be used by user. "@))
                        } else {
                            Ok(RelationView { executor: e, ..base })
                        },
                        None => if m.setting is Some && m.setting->Some_0.master is Some {
                            Ok(base)
                        } else {
                            Err((ErrorKind::VerifyError, "master or executor should be defined"@))
                        },
                    }
                },
            },
        },
    }
}

/// The view of a parse result for settings.
pub open spec fn settings_result_view(r: Result<RelationSettings, String>) -> Result<RelationSettingsView, Seq<char>> {
    match r {
        Ok(s) => Ok(s@),
        Err(e) => Err(e@),
    }
}

/// The view of a meta result.
pub open spec fn meta_result_view(r: Result<Meta, NatureError>) -> Result<MetaView, (ErrorKind, Seq<char>)> {
    match r {
        Ok(m) => Ok(m@),
        Err(e) => Err(e@),
    }
}

/// The view of a relation result.
pub open spec fn relation_result_view(r: Result<Relation, NatureError>) -> Result<RelationView, (ErrorKind, Seq<char>)> {
    match r {
        Ok(x) => Ok(x@),
        Err(e) => Err(e@),
    }
}

/// A relation read from the store has the engine's own `Auto` executor exactly
/// when its settings name no executor, and then its target meta has a master;
/// an executor named in the settings is kept as it is.
pub proof fn lemma_auto_only_for_master(
    val: RawRelationView,
    settings: Result<RelationSettingsView, Seq<char>>,
    m_to: Result<MetaView, (ErrorKind, Seq<char>)>,
)
    ensures
        spec_from_raw(val, settings, m_to) matches Ok(r) ==> {
            &&& settings is Ok && m_to is Ok
            &&& (r.executor.protocol == Protocol::Auto <==> settings->Ok_0.executor is None)
            &&& settings->Ok_0.executor is None ==> r.executor == spec_auto_executor()
                && m_to->Ok_0.setting is Some && m_to->Ok_0.setting->Some_0.master is Some
            &&& settings->Ok_0.executor matches Some(e) ==> r.executor == e
        },
{
}

/// A relation read from the store keeps what its stored form says: it starts
/// from the stored `from_meta`, goes to the target meta given, and carries the
/// selector, filters, target, delays, `use_upstream_id` and `id_bridge` of its
/// parsed settings, whichever executor it gets.
pub proof fn lemma_from_raw_keeps_settings(
    val: RawRelationView,
    settings: Result<RelationSettingsView, Seq<char>>,
    m_to: Result<MetaView, (ErrorKind, Seq<char>)>,
)
    ensures
        spec_from_raw(val, settings, m_to) matches Ok(r) ==> {
            &&& settings is Ok && m_to is Ok
            &&& r.from == val.from_meta
            &&& r.to == m_to->Ok_0
            &&& r.selector == settings->Ok_0.selector
            &&& r.filter_before == settings->Ok_0.filter_before
            &&& r.filter_after == settings->Ok_0.filter_after
            &&& r.target == settings->Ok_0.target
            &&& r.delay == settings->Ok_0.delay
            &&& r.delay_on_pare == settings->Ok_0.delay_on_para
            &&& r.use_upstream_id == settings->Ok_0.use_upstream_id
            &&& r.id_bridge == settings->Ok_0.id_bridge
        },
{
}

impl Relation {
    /// Checks that the meta `m_to` defines every state named in `x`.
    pub fn check_state(m_to: &Meta, x: &Vec<String>) -> (r: Result<(), NatureError>)
        ensures
            err_view(r) == spec_check_state(m_to@, views(x@)),
    {
        let mut b: Vec<String> = Vec::new();
        let mut i: usize = 0;
        while i < x.len()
            invariant
                0 <= i <= x.len(),
                views(b@) == spec_undefined_states(m_to@, views(x@).take(i as int)),
            decreases x.len() - i,
        {
            let ghost t1 = views(x@).take(i + 1);
            proof {
                reveal_with_fuel(Seq::<_>::filter, 1);
                assert(t1.drop_last() == views(x@).take(i as int));
                assert(t1.last() == x@[i as int]@);
            }
            let defined = m_to.has_state_name(&x[i]);
            assert(defined == spec_has_state(m_to@, t1.last()));
            if !defined {
                let n = x[i].clone();
                let ghost before = b@;
                b.push(n);
                assert(views(b@) =~= views(before).push(n@));
            }
            i = i + 1;
        }
        assert(views(x@).take(x.len() as int) == views(x@));
        if b.len() > 0 {
            let msg = "[to meta] did not defined state : ".to_string().concat(debug_names(&b).as_str()).concat(" ");
            Err(NatureError::VerifyError(msg))
        } else {
            Ok(())
        }
    }

    /// Checks the states that `target` adds and removes against the meta `m_to`.
    pub fn check_target(m_to: &Meta, target: &RelationTarget) -> (r: Result<(), NatureError>)
        ensures
            err_view(r) == spec_check_target(m_to@, target@),
    {
        Relation::check_target_states(m_to, &target.states)
    }

    /// Checks the states that `states` adds and removes against the meta `m_to`.
    pub fn check_target_states(m_to: &Meta, states: &Option<TargetState>) -> (r: Result<(), NatureError>)
        ensures
            err_view(r) == spec_check_target_states(m_to@, match states {
                Some(s) => Some(s@),
                None => None,
            }),
    {
        if let Some(ts) = states {
            if let Some(x) = &ts.add {
                Relation::check_state(m_to, x)?;
            }
            if let Some(x) = &ts.remove {
                Relation::check_state(m_to, x)?;
            }
        }
        Ok(())
    }

    /// Turns a stored relation into a relation. `settings` is the stored settings
    /// parsed as JSON, or the parser's description of why they could not be;
    /// `m_to` is the target meta as the meta cache gave it.
    pub fn from_raw(val: RawRelation, settings: Result<RelationSettings, String>, m_to: Result<Meta, NatureError>) -> (r: Result<Relation, NatureError>)
        ensures
            relation_result_view(r) == spec_from_raw(val@, settings_result_view(settings), meta_result_view(m_to)),
    {
        let settings = match settings {
            Ok(s) => s,
            Err(e) => {
                let msg = val.get_string().concat("'s setting format error: ").concat(e.as_str());
                return Err(NatureError::VerifyError(msg));
            },
        };
        let m_to = match m_to {
            Ok(m) => m,
            Err(e) => return Err(e),
        };
        Relation::check_target(&m_to, &settings.target)?;
        let RelationSettings { selector, executor, filter_before, filter_after, use_upstream_id, target, delay, delay_on_para, id_bridge } = settings;
        match executor {
            Some(e) => {
                if e.protocol == Protocol::Auto {
                    let err = val.get_string().concat(" Protocol::Auto can not be used by user. ");
                    return Err(NatureError::VerifyError(err));
                }
                Ok(Relation {
                    from: val.from_meta,
                    to: m_to,
                    selector,
                    executor: e,
                    filter_before,
                    filter_after,
                    use_upstream_id,
                    target,
                    delay,
                    delay_on_pare: delay_on_para,
                    id_bridge,
                })
            },
            None => {
                let has_master = match &m_to.setting {
                    Some(s) => s.master.is_some(),
                    None => false,
                };
                if has_master {
                    Ok(Relation {
                        from: val.from_meta,
                        to: m_to,
                        selector,
                        executor: Executor::new_auto(),
                        filter_before,
                        filter_after,
                        use_upstream_id,
                        target,
                        delay,
                        delay_on_pare: delay_on_para,
                        id_bridge,
                    })
                } else {
                    Err(NatureError::VerifyError("master or executor should be defined".to_string()))
                }
            },
        }
    }

    /// `<from>-><to's meta string>`.
    pub fn relation_string(&self) -> (r: String)
        ensures
            r@ == self.from@ + "->"@ + spec_meta_string(self.to@),
    {
        self.from.clone().concat("->").concat(self.to.meta_string().as_str())
    }
}

} // verus!
