//! Executors that convert an upstream instance, and the demands on the target.

use vstd::prelude::*;
use vstd::string::StringExecFns;

use crate::error::{ErrorKind, NatureError};
use crate::text::{clone_opt_strings, clone_strings, opt_views, views};

verus! {

/// How an executor is reached.
#[derive(Debug, Clone, Copy, PartialEq, Eq, Hash, Structural)]
pub enum Protocol {
    LocalRust,
    Http,
    Https,
    BuiltIn,
    /// Set by the engine for a relation to a meta with a master; users may not choose it.
    Auto,
}

impl Default for Protocol {
    fn default() -> (r: Protocol)
        ensures
            r == Protocol::LocalRust,
    {
        Protocol::LocalRust
    }
}

/// The protocol that `s` names, if any.
pub open spec fn spec_protocol_of(s: Seq<char>) -> Option<Protocol> {
    if s == "localRust"@ {
        Some(Protocol::LocalRust)
    } else if s == "http"@ {
        Some(Protocol::Http)
    } else if s == "https"@ {
        Some(Protocol::Https)
    } else if s == "builtIn"@ {
        Some(Protocol::BuiltIn)
    } else if s == "auto"@ {
        Some(Protocol::Auto)
    } else {
        None
    }
}

impl Protocol {
    /// The protocol named `s` (`localRust`, `http`, `https`, `builtIn` or `auto`).
    pub fn from_str(s: &str) -> (r: Result<Protocol, NatureError>)
        ensures
            match spec_protocol_of(s@) {
                Some(p) => r == Ok::<Protocol, NatureError>(p),
                None => r is Err && r->Err_0@ == (ErrorKind::VerifyError, "unknown protocol : "@ + s@),
            },
    {
        let t = s.to_string();
        if t == "localRust".to_string() {
            Ok(Protocol::LocalRust)
        } else if t == "http".to_string() {
            Ok(Protocol::Http)
        } else if t == "https".to_string() {
            Ok(Protocol::Https)
        } else if t == "builtIn".to_string() {
            Ok(Protocol::BuiltIn)
        } else if t == "auto".to_string() {
            Ok(Protocol::Auto)
        } else {
            Err(NatureError::VerifyError("unknown protocol : ".to_string().concat(s)))
        }
    }
}

/// An executor: how it is reached, where, with which settings; executors of one
/// group share the work in proportion to `proportion`.
#[derive(Debug, PartialEq, Eq, Hash)]
pub struct Executor {
    pub protocol: Protocol,
    pub url: String,
    pub settings: String,
    pub group: String,
    pub proportion: u32,
}

pub struct ExecutorView {
    pub protocol: Protocol,
    pub url: Seq<char>,
    pub settings: Seq<char>,
    pub group: Seq<char>,
    pub proportion: u32,
}

impl View for Executor {
    type V = ExecutorView;

    open spec fn view(&self) -> ExecutorView {
        ExecutorView {
            protocol: self.protocol,
            url: self.url@,
            settings: self.settings@,
            group: self.group@,
            proportion: self.proportion,
        }
    }
}

impl Default for Executor {
    /// A local executor with an empty url, no settings, no group and no share.
    fn default() -> (r: Executor)
        ensures
            r@ == (ExecutorView { protocol: Protocol::LocalRust, url: Seq::empty(), settings: Seq::empty(), group: Seq::empty(), proportion: 0 }),
    {
        Executor { protocol: Protocol::LocalRust, url: String::new(), settings: String::new(), group: String::new(), proportion: 0 }
    }
}

/// The views of a list of executors.
pub open spec fn executors_view(v: Seq<Executor>) -> Seq<ExecutorView> {
    v.map_values(|e: Executor| e@)
}

impl Clone for Executor {
    fn clone(&self) -> (r: Self)
        ensures
            r@ == self@,
    {
        Executor {
            protocol: self.protocol,
            url: self.url.clone(),
            settings: self.settings.clone(),
            group: self.group.clone(),
            proportion: self.proportion,
        }
    }
}

/// A copy of a list of executors.
pub fn clone_executors(v: &Vec<Executor>) -> (r: Vec<Executor>)
    ensures
        executors_view(r@) == executors_view(v@),
{
    let mut r: Vec<Executor> = Vec::new();
    let mut i: usize = 0;
    while i < v.len()
        invariant
            0 <= i <= v.len(),
            executors_view(r@) == executors_view(v@.take(i as int)),
        decreases v.len() - i,
    {
        let e = v[i].clone();
        let ghost before = r@;
        r.push(e);
        assert(v@.take(i + 1) == v@.take(i as int).push(v@[i as int]));
        assert(executors_view(r@) =~= executors_view(before).push(e@));
        assert(executors_view(v@.take(i + 1)) =~= executors_view(v@.take(i as int)).push(v@[i as int]@));
        i = i + 1;
    }
    assert(v@.take(v.len() as int) == v@);
    r
}

/// The executor the engine sets itself for a relation to a meta with a master.
pub open spec fn spec_auto_executor() -> ExecutorView {
    ExecutorView { protocol: Protocol::Auto, url: Seq::empty(), settings: Seq::empty(), group: Seq::empty(), proportion: 1 }
}

impl Executor {
    /// The executor the engine sets itself for a relation to a meta with a master.
    pub fn new_auto() -> (r: Executor)
        ensures
            r@ == spec_auto_executor(),
    {
        Executor { protocol: Protocol::Auto, url: String::new(), settings: String::new(), group: String::new(), proportion: 1 }
    }

    /// A local executor at `url`.
    pub fn for_local(url: &str) -> (r: Executor)
        ensures
            r@ == (ExecutorView { protocol: Protocol::LocalRust, url: url@, settings: Seq::empty(), group: Seq::empty(), proportion: 1 }),
    {
        Executor { protocol: Protocol::LocalRust, url: url.to_string(), settings: String::new(), group: String::new(), proportion: 1 }
    }
}

/// States to add to and remove from the target instance.
#[derive(Debug, Default, PartialEq)]
pub struct TargetState {
    pub add: Option<Vec<String>>,
    pub remove: Option<Vec<String>>,
}

pub struct TargetStateView {
    pub add: Option<Seq<Seq<char>>>,
    pub remove: Option<Seq<Seq<char>>>,
}

impl View for TargetState {
    type V = TargetStateView;

    open spec fn view(&self) -> TargetStateView {
        TargetStateView { add: opt_views(self.add), remove: opt_views(self.remove) }
    }
}

impl Clone for TargetState {
    fn clone(&self) -> (r: Self)
        ensures
            r@ == self@,
    {
        TargetState { add: clone_opt_strings(&self.add), remove: clone_opt_strings(&self.remove) }
    }
}

/// What a relation demands of its target instance.
#[derive(Debug, Default, PartialEq)]
pub struct RelationTarget {
    pub states: Option<TargetState>,
    /// Positions of the upstream para parts that the target's para is made of.
    pub copy_para: Vec<u8>,
}

pub struct RelationTargetView {
    pub states: Option<TargetStateView>,
    pub copy_para: Seq<u8>,
}

impl View for RelationTarget {
    type V = RelationTargetView;

    open spec fn view(&self) -> RelationTargetView {
        RelationTargetView {
            states: match self.states {
                Some(s) => Some(s@),
                None => None,
            },
            copy_para: self.copy_para@,
        }
    }
}

impl Clone for RelationTarget {
    fn clone(&self) -> (r: Self)
        ensures
            r@ == self@,
    {
        let c = self.copy_para.clone();
        assert(c@ =~= self.copy_para@);
        RelationTarget {
            states: match &self.states {
                Some(s) => Some(s.clone()),
                None => None,
            },
            copy_para: c,
        }
    }
}

} // verus!
