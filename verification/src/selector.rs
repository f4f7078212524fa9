//! Selectors: which contexts and states an instance must, may or must not carry
//! for a relation to be followed.
//!
//! For each group of names the rule is the same:
//! - none: the highest priority, the instance must carry none of them;
//! - all: the middle priority, the instance must carry all of them;
//! - any: the lowest priority, the instance must carry one of them, unless there are none.

use vstd::prelude::*;

use crate::text::{clone_strings, views};

verus! {

/// Key and value pairs attached to an instance (its context or its system context).
pub type Context = Vec<(String, String)>;

/// Whether `ctx` holds an entry with the key `k`.
pub open spec fn has_key(ctx: Seq<(String, String)>, k: Seq<char>) -> bool {
    exists|i: int| 0 <= i < ctx.len() && #[trigger] ctx[i].0@ == k
}

/// Whether `names` holds the name `k`.
pub open spec fn has_name(names: Seq<String>, k: Seq<char>) -> bool {
    exists|i: int| 0 <= i < names.len() && #[trigger] names[i]@ == k
}

/// The selector rule over a membership test `present`.
pub open spec fn selects(present: spec_fn(Seq<char>) -> bool, none: Seq<Seq<char>>, all: Seq<Seq<char>>, any: Seq<Seq<char>>) -> bool {
    &&& forall|i: int| 0 <= i < none.len() ==> !present(#[trigger] none[i])
    &&& forall|i: int| 0 <= i < all.len() ==> present(#[trigger] all[i])
    &&& (any.len() == 0 || exists|i: int| 0 <= i < any.len() && present(#[trigger] any[i]))
}

/// The selector rule applied to the keys of a context.
pub open spec fn context_selects(ctx: Seq<(String, String)>, none: Seq<Seq<char>>, all: Seq<Seq<char>>, any: Seq<Seq<char>>) -> bool {
    selects(|k: Seq<char>| has_key(ctx, k), none, all, any)
}

/// The selector rule applied to a set of state names.
pub open spec fn state_selects(states: Seq<String>, none: Seq<Seq<char>>, all: Seq<Seq<char>>, any: Seq<Seq<char>>) -> bool {
    selects(|k: Seq<char>| has_name(states, k), none, all, any)
}

/// Whether `ctx` holds an entry keyed `k`.
pub fn contains_key(ctx: &Vec<(String, String)>, k: &String) -> (r: bool)
    ensures
        r == has_key(ctx@, k@),
{
    let mut i: usize = 0;
    while i < ctx.len()
        invariant
            0 <= i <= ctx.len(),
            forall|j: int| 0 <= j < i ==> ctx@[j].0@ != k@,
        decreases ctx.len() - i,
    {
        if ctx[i].0 == *k {
            return true;
        }
        i = i + 1;
    }
    false
}

/// The views of the entries of a context.
pub open spec fn ctx_view(ctx: Seq<(String, String)>) -> Seq<(Seq<char>, Seq<char>)> {
    ctx.map_values(|p: (String, String)| (p.0@, p.1@))
}

/// The value of the last entry keyed `k`, if any.
pub open spec fn context_get(ctx: Seq<(Seq<char>, Seq<char>)>, k: Seq<char>) -> Option<Seq<char>>
    decreases ctx.len(),
{
    if ctx.len() == 0 {
        None
    } else if ctx.last().0 == k {
        Some(ctx.last().1)
    } else {
        context_get(ctx.drop_last(), k)
    }
}

/// `ctx` with every entry keyed `k` removed.
pub open spec fn without_key(ctx: Seq<(Seq<char>, Seq<char>)>, k: Seq<char>) -> Seq<(Seq<char>, Seq<char>)> {
    ctx.filter(|p: (Seq<char>, Seq<char>)| p.0 != k)
}

/// Removing the entries of one key leaves what another key reads as it was.
pub proof fn lemma_without_key_get(ctx: Seq<(Seq<char>, Seq<char>)>, k: Seq<char>, other: Seq<char>)
    requires
        k != other,
    ensures
        context_get(without_key(ctx, k), other) == context_get(ctx, other),
    decreases ctx.len(),
{
    reveal_with_fuel(Seq::<_>::filter, 1);
    if ctx.len() > 0 {
        lemma_without_key_get(ctx.drop_last(), k, other);
        let f = without_key(ctx, k);
        let g = without_key(ctx.drop_last(), k);
        if ctx.last().0 != k {
            assert(f == g.push(ctx.last()));
            assert(f.drop_last() =~= g);
        } else {
            assert(f == g);
        }
    }
}

/// Setting one key leaves what another key reads as it was.
pub proof fn lemma_context_with_other_key(ctx: Seq<(Seq<char>, Seq<char>)>, k: Seq<char>, v: Seq<char>, other: Seq<char>)
    requires
        k != other,
    ensures
        context_get(context_with(ctx, k, v), other) == context_get(ctx, other),
{
    lemma_without_key_get(ctx, k, other);
    assert(context_with(ctx, k, v).drop_last() =~= without_key(ctx, k));
    assert(context_with(ctx, k, v).last() == (k, v));
}

/// `ctx` with every entry keyed `k` removed and `(k, v)` added at the end.
pub open spec fn context_with(ctx: Seq<(Seq<char>, Seq<char>)>, k: Seq<char>, v: Seq<char>) -> Seq<(Seq<char>, Seq<char>)> {
    without_key(ctx, k).push((k, v))
}

/// After setting `k` to `v`, reading `k` gives `v`.
pub proof fn lemma_context_with_get(ctx: Seq<(Seq<char>, Seq<char>)>, k: Seq<char>, v: Seq<char>)
    ensures
        context_get(context_with(ctx, k, v), k) == Some(v),
{
    let c = context_with(ctx, k, v);
    assert(c.last() == (k, v));
}

/// The value of the last entry keyed `k`, if any.
pub fn context_value(ctx: &Context, k: &str) -> (r: Option<String>)
    ensures
        crate::text::opt_view(r) == context_get(ctx_view(ctx@), k@),
{
    let ks = k.to_string();
    let mut found: Option<String> = None;
    let mut i: usize = 0;
    while i < ctx.len()
        invariant
            0 <= i <= ctx.len(),
            ks@ == k@,
            crate::text::opt_view(found) == context_get(ctx_view(ctx@.take(i as int)), k@),
        decreases ctx.len() - i,
    {
        assert(ctx@.take(i + 1).drop_last() == ctx@.take(i as int));
        assert(ctx@.take(i + 1).last() == ctx@[i as int]);
        assert(ctx_view(ctx@.take(i + 1)).drop_last() =~= ctx_view(ctx@.take(i as int)));
        if ctx[i].0 == ks {
            found = Some(ctx[i].1.clone());
        }
        i = i + 1;
    }
    assert(ctx@.take(ctx.len() as int) == ctx@);
    found
}

/// Whether no two entries of `ctx` share a key.
pub open spec fn keys_distinct(ctx: Seq<(Seq<char>, Seq<char>)>) -> bool {
    forall|i: int, j: int| 0 <= i < j < ctx.len() ==> (#[trigger] ctx[i]).0 != (#[trigger] ctx[j]).0
}

/// Whether some entry of `ctx` has the key `k`.
pub open spec fn entries_have_key(ctx: Seq<(Seq<char>, Seq<char>)>, k: Seq<char>) -> bool {
    exists|i: int| 0 <= i < ctx.len() && (#[trigger] ctx[i]).0 == k
}

/// One entry per key, with the value of the key's last entry: the entries taken
/// from the last to the first, each whose key was not taken yet.
pub open spec fn spec_distinct_entries(ctx: Seq<(Seq<char>, Seq<char>)>) -> Seq<(Seq<char>, Seq<char>)>
    decreases ctx.len(),
{
    if ctx.len() == 0 {
        Seq::empty()
    } else {
        let rest = spec_distinct_entries(ctx.drop_first());
        if entries_have_key(rest, ctx[0].0) {
            rest
        } else {
            rest.push(ctx[0])
        }
    }
}

/// No entry keyed `k` is exactly when reading `k` gives nothing.
pub proof fn lemma_context_get_none(ctx: Seq<(Seq<char>, Seq<char>)>, k: Seq<char>)
    ensures
        context_get(ctx, k) is None <==> !entries_have_key(ctx, k),
    decreases ctx.len(),
{
    if ctx.len() > 0 {
        lemma_context_get_none(ctx.drop_last(), k);
        if ctx.last().0 == k {
            assert(ctx[ctx.len() - 1].0 == k);
        } else if entries_have_key(ctx, k) {
            let i = choose|i: int| 0 <= i < ctx.len() && (#[trigger] ctx[i]).0 == k;
            assert(ctx.drop_last()[i].0 == k);
        } else if entries_have_key(ctx.drop_last(), k) {
            let i = choose|i: int| 0 <= i < ctx.drop_last().len() && (#[trigger] ctx.drop_last()[i]).0 == k;
            assert(ctx[i].0 == k);
        }
    }
}

/// Reading a key of entries with one put in front: the later entries win.
pub proof fn lemma_context_get_prepend(e: (Seq<char>, Seq<char>), s: Seq<(Seq<char>, Seq<char>)>, k: Seq<char>)
    ensures
        context_get(seq![e] + s, k) == if context_get(s, k) is Some {
            context_get(s, k)
        } else if e.0 == k {
            Some(e.1)
        } else {
            None
        },
    decreases s.len(),
{
    let t = seq![e] + s;
    if s.len() == 0 {
        assert(t.drop_last() =~= Seq::<(Seq<char>, Seq<char>)>::empty());
        assert(t.last() == e);
        assert(context_get(Seq::<(Seq<char>, Seq<char>)>::empty(), k) is None);
        assert(context_get(s, k) is None);
    } else {
        assert(t.last() == s.last());
        assert(t.drop_last() =~= seq![e] + s.drop_last());
        lemma_context_get_prepend(e, s.drop_last(), k);
        if s.last().0 != k {
            assert(context_get(s, k) == context_get(s.drop_last(), k));
            assert(context_get(t, k) == context_get(t.drop_last(), k));
        }
    }
}

/// The distinct entries have distinct keys and give every key the value the entries give it.
pub proof fn lemma_distinct_entries(ctx: Seq<(Seq<char>, Seq<char>)>)
    ensures
        keys_distinct(spec_distinct_entries(ctx)),
        forall|k: Seq<char>| #[trigger] context_get(spec_distinct_entries(ctx), k) == context_get(ctx, k),
    decreases ctx.len(),
{
    if ctx.len() > 0 {
        let e = ctx[0];
        let s = ctx.drop_first();
        let rest = spec_distinct_entries(s);
        lemma_distinct_entries(s);
        assert(ctx =~= seq![e] + s);
        assert forall|k: Seq<char>| #[trigger] context_get(spec_distinct_entries(ctx), k) == context_get(ctx, k) by {
            lemma_context_get_prepend(e, s, k);
            lemma_context_get_none(rest, k);
            lemma_context_get_none(rest, e.0);
            if !entries_have_key(rest, e.0) {
                assert(rest.push(e).drop_last() =~= rest);
            }
        }
        if !entries_have_key(rest, e.0) {
            let r2 = rest.push(e);
            assert forall|i: int, j: int| 0 <= i < j < r2.len() implies (#[trigger] r2[i]).0 != (#[trigger] r2[j]).0 by {
                if j == r2.len() - 1 {
                    assert(rest[i] == r2[i]);
                } else {
                    assert(rest[i] == r2[i] && rest[j] == r2[j]);
                }
            }
        }
    }
}

/// One entry per key of `ctx`, with the value of the key's last entry.
pub fn distinct_context(ctx: &Context) -> (r: Context)
    ensures
        ctx_view(r@) == spec_distinct_entries(ctx_view(ctx@)),
        keys_distinct(ctx_view(r@)),
        forall|k: Seq<char>| #[trigger] context_get(ctx_view(r@), k) == context_get(ctx_view(ctx@), k),
{
    let ghost cv = ctx_view(ctx@);
    let mut r: Context = Vec::new();
    let mut j: usize = ctx.len();
    while j > 0
        invariant
            j <= ctx.len(),
            cv == ctx_view(ctx@),
            ctx_view(r@) == spec_distinct_entries(cv.skip(j as int)),
        decreases j,
    {
        let ghost suffix = cv.skip(j - 1);
        proof {
            assert(suffix.drop_first() =~= cv.skip(j as int));
            assert(suffix[0] == (ctx@[j - 1].0@, ctx@[j - 1].1@));
            assert(has_key(r@, ctx@[j - 1].0@) == entries_have_key(ctx_view(r@), ctx@[j - 1].0@)) by {
                if has_key(r@, ctx@[j - 1].0@) {
                    let i = choose|i: int| 0 <= i < r@.len() && #[trigger] r@[i].0@ == ctx@[j - 1].0@;
                    assert(ctx_view(r@)[i].0 == ctx@[j - 1].0@);
                }
                if entries_have_key(ctx_view(r@), ctx@[j - 1].0@) {
                    let i = choose|i: int| 0 <= i < ctx_view(r@).len() && (#[trigger] ctx_view(r@)[i]).0 == ctx@[j - 1].0@;
                    assert(r@[i].0@ == ctx@[j - 1].0@);
                }
            }
        }
        if !contains_key(&r, &ctx[j - 1].0) {
            let e = (ctx[j - 1].0.clone(), ctx[j - 1].1.clone());
            let ghost before = r@;
            r.push(e);
            assert(ctx_view(r@) =~= ctx_view(before).push((e.0@, e.1@)));
        }
        j = j - 1;
    }
    assert(cv.skip(0) =~= cv);
    proof {
        lemma_distinct_entries(cv);
    }
    r
}

/// Sets the value of the key `k` to `v`: entries keyed `k` are removed, `(k, v)` is added at the end.
pub fn context_insert(ctx: &mut Context, k: String, v: String)
    ensures
        ctx_view(final(ctx)@) == context_with(ctx_view(old(ctx)@), k@, v@),
{
    let ghost old_view = old(ctx)@.map_values(|p: (String, String)| (p.0@, p.1@));
    let mut kept: Context = Vec::new();
    let mut i: usize = 0;
    while i < ctx.len()
        invariant
            0 <= i <= ctx.len(),
            ctx@ == old(ctx)@,
            old_view == old(ctx)@.map_values(|p: (String, String)| (p.0@, p.1@)),
            kept@.map_values(|p: (String, String)| (p.0@, p.1@))
                == without_key(old_view.take(i as int), k@),
        decreases ctx.len() - i,
    {
        proof {
            reveal_with_fuel(Seq::<_>::filter, 1);
            assert(old_view.take(i + 1).drop_last() == old_view.take(i as int));
            assert(old_view.take(i + 1).last() == (ctx@[i as int].0@, ctx@[i as int].1@));
        }
        if ctx[i].0 != k {
            let e = (ctx[i].0.clone(), ctx[i].1.clone());
            let ghost before = kept@;
            kept.push(e);
            assert(kept@.map_values(|p: (String, String)| (p.0@, p.1@)) =~= before.map_values(|p: (String, String)| (p.0@, p.1@)).push((e.0@, e.1@)));
        }
        i = i + 1;
    }
    assert(old_view.take(ctx.len() as int) == old_view);
    let ghost before = kept@;
    let ghost kv = k@;
    let ghost vv = v@;
    kept.push((k, v));
    assert(kept@.map_values(|p: (String, String)| (p.0@, p.1@)) =~= before.map_values(|p: (String, String)| (p.0@, p.1@)).push((kv, vv)));
    *ctx = kept;
}

/// Whether `names` holds `k`.
pub fn contains_name(names: &Vec<String>, k: &String) -> (r: bool)
    ensures
        r == has_name(names@, k@),
{
    let mut i: usize = 0;
    while i < names.len()
        invariant
            0 <= i <= names.len(),
            forall|j: int| 0 <= j < i ==> names@[j]@ != k@,
        decreases names.len() - i,
    {
        if names[i] == *k {
            return true;
        }
        i = i + 1;
    }
    false
}

/// Checks the keys of `contexts` against the `none`, `all` and `any` groups.
pub fn context_check(contexts: &Context, none: &Vec<String>, all: &Vec<String>, any: &Vec<String>) -> (r: bool)
    ensures
        r == context_selects(contexts@, views(none@), views(all@), views(any@)),
{
    let mut i: usize = 0;
    while i < none.len()
        invariant
            0 <= i <= none.len(),
            forall|j: int| 0 <= j < i ==> !has_key(contexts@, #[trigger] views(none@)[j]),
        decreases none.len() - i,
    {
        assert(views(none@)[i as int] == none@[i as int]@);
        if contains_key(contexts, &none[i]) {
            return false;
        }
        i = i + 1;
    }
    let mut i: usize = 0;
    while i < all.len()
        invariant
            0 <= i <= all.len(),
            forall|j: int| 0 <= j < none.len() ==> !has_key(contexts@, #[trigger] views(none@)[j]),
            forall|j: int| 0 <= j < i ==> has_key(contexts@, #[trigger] views(all@)[j]),
        decreases all.len() - i,
    {
        assert(views(all@)[i as int] == all@[i as int]@);
        if !contains_key(contexts, &all[i]) {
            return false;
        }
        i = i + 1;
    }
    if any.len() == 0 {
        return true;
    }
    let mut i: usize = 0;
    while i < any.len()
        invariant
            0 <= i <= any.len(),
            forall|j: int| 0 <= j < none.len() ==> !has_key(contexts@, #[trigger] views(none@)[j]),
            forall|j: int| 0 <= j < all.len() ==> has_key(contexts@, #[trigger] views(all@)[j]),
            forall|j: int| 0 <= j < i ==> !has_key(contexts@, #[trigger] views(any@)[j]),
        decreases any.len() - i,
    {
        assert(views(any@)[i as int] == any@[i as int]@);
        if contains_key(contexts, &any[i]) {
            assert(has_key(contexts@, views(any@)[i as int]));
            return true;
        }
        i = i + 1;
    }
    false
}

/// Checks the state names in `status` against the `none`, `all` and `any` groups.
pub fn state_check(status: &Vec<String>, none: &Vec<String>, all: &Vec<String>, any: &Vec<String>) -> (r: bool)
    ensures
        r == state_selects(status@, views(none@), views(all@), views(any@)),
{
    let mut i: usize = 0;
    while i < none.len()
        invariant
            0 <= i <= none.len(),
            forall|j: int| 0 <= j < i ==> !has_name(status@, #[trigger] views(none@)[j]),
        decreases none.len() - i,
    {
        assert(views(none@)[i as int] == none@[i as int]@);
        if contains_name(status, &none[i]) {
            return false;
        }
        i = i + 1;
    }
    let mut i: usize = 0;
    while i < all.len()
        invariant
            0 <= i <= all.len(),
            forall|j: int| 0 <= j < none.len() ==> !has_name(status@, #[trigger] views(none@)[j]),
            forall|j: int| 0 <= j < i ==> has_name(status@, #[trigger] views(all@)[j]),
        decreases all.len() - i,
    {
        assert(views(all@)[i as int] == all@[i as int]@);
        if !contains_name(status, &all[i]) {
            return false;
        }
        i = i + 1;
    }
    if any.len() == 0 {
        return true;
    }
    let mut i: usize = 0;
    while i < any.len()
        invariant
            0 <= i <= any.len(),
            forall|j: int| 0 <= j < none.len() ==> !has_name(status@, #[trigger] views(none@)[j]),
            forall|j: int| 0 <= j < all.len() ==> has_name(status@, #[trigger] views(all@)[j]),
            forall|j: int| 0 <= j < i ==> !has_name(status@, #[trigger] views(any@)[j]),
        decreases any.len() - i,
    {
        assert(views(any@)[i as int] == any@[i as int]@);
        if contains_name(status, &any[i]) {
            assert(has_name(status@, views(any@)[i as int]));
            return true;
        }
        i = i + 1;
    }
    false
}

/// Conditions on the upstream instance (its states, context and system context)
/// and on the downstream one (its states) for a relation to be followed.
#[derive(Debug, Default, PartialEq)]
pub struct FlowSelector {
    pub source_state_all: Vec<String>,
    pub source_state_any: Vec<String>,
    pub source_state_none: Vec<String>,
    pub target_state_all: Vec<String>,
    pub target_state_any: Vec<String>,
    pub target_state_none: Vec<String>,
    pub context_all: Vec<String>,
    pub context_any: Vec<String>,
    pub context_none: Vec<String>,
    pub sys_context_all: Vec<String>,
    pub sys_context_any: Vec<String>,
    pub sys_context_none: Vec<String>,
}

/// The view of a selector: the names of each group.
pub struct FlowSelectorView {
    pub source_state_all: Seq<Seq<char>>,
    pub source_state_any: Seq<Seq<char>>,
    pub source_state_none: Seq<Seq<char>>,
    pub target_state_all: Seq<Seq<char>>,
    pub target_state_any: Seq<Seq<char>>,
    pub target_state_none: Seq<Seq<char>>,
    pub context_all: Seq<Seq<char>>,
    pub context_any: Seq<Seq<char>>,
    pub context_none: Seq<Seq<char>>,
    pub sys_context_all: Seq<Seq<char>>,
    pub sys_context_any: Seq<Seq<char>>,
    pub sys_context_none: Seq<Seq<char>>,
}

impl View for FlowSelector {
    type V = FlowSelectorView;

    open spec fn view(&self) -> FlowSelectorView {
        FlowSelectorView {
            source_state_all: views(self.source_state_all@),
            source_state_any: views(self.source_state_any@),
            source_state_none: views(self.source_state_none@),
            target_state_all: views(self.target_state_all@),
            target_state_any: views(self.target_state_any@),
            target_state_none: views(self.target_state_none@),
            context_all: views(self.context_all@),
            context_any: views(self.context_any@),
            context_none: views(self.context_none@),
            sys_context_all: views(self.sys_context_all@),
            sys_context_any: views(self.sys_context_any@),
            sys_context_none: views(self.sys_context_none@),
        }
    }
}

/// The view of an optional selector.
pub open spec fn opt_selector_view(s: Option<FlowSelector>) -> Option<FlowSelectorView> {
    match s {
        Some(x) => Some(x@),
        None => None,
    }
}

impl Clone for FlowSelector {
    fn clone(&self) -> (r: Self)
        ensures
            r@ == self@,
    {
        FlowSelector {
            source_state_all: clone_strings(&self.source_state_all),
            source_state_any: clone_strings(&self.source_state_any),
            source_state_none: clone_strings(&self.source_state_none),
            target_state_all: clone_strings(&self.target_state_all),
            target_state_any: clone_strings(&self.target_state_any),
            target_state_none: clone_strings(&self.target_state_none),
            context_all: clone_strings(&self.context_all),
            context_any: clone_strings(&self.context_any),
            context_none: clone_strings(&self.context_none),
            sys_context_all: clone_strings(&self.sys_context_all),
            sys_context_any: clone_strings(&self.sys_context_any),
            sys_context_none: clone_strings(&self.sys_context_none),
        }
    }
}

/// A copy of an optional selector.
pub fn clone_opt_selector(s: &Option<FlowSelector>) -> (r: Option<FlowSelector>)
    ensures
        opt_selector_view(r) == opt_selector_view(*s),
{
    match s {
        Some(x) => Some(x.clone()),
        None => None,
    }
}

impl FlowSelectorView {
    /// Whether the keys of `contexts` meet the context groups of this selector.
    pub open spec fn spec_context_ok(self, contexts: Seq<(String, String)>) -> bool {
        context_selects(contexts, self.context_none, self.context_all, self.context_any)
    }

    /// Whether the keys of `contexts` meet the system context groups of this selector.
    pub open spec fn spec_sys_context_ok(self, contexts: Seq<(String, String)>) -> bool {
        context_selects(contexts, self.sys_context_none, self.sys_context_all, self.sys_context_any)
    }

    /// Whether the state names in `status` meet the source state groups of this selector.
    pub open spec fn spec_source_status_ok(self, status: Seq<String>) -> bool {
        state_selects(status, self.source_state_none, self.source_state_all, self.source_state_any)
    }
}

impl FlowSelector {

    pub fn context_check(&self, contexts: &Context) -> (r: bool)
        ensures
            r == self@.spec_context_ok(contexts@),
    {
        context_check(contexts, &self.context_none, &self.context_all, &self.context_any)
    }

    pub fn sys_context_check(&self, contexts: &Context) -> (r: bool)
        ensures
            r == self@.spec_sys_context_ok(contexts@),
    {
        context_check(contexts, &self.sys_context_none, &self.sys_context_all, &self.sys_context_any)
    }

    pub fn source_status_check(&self, status: &Vec<String>) -> (r: bool)
        ensures
            r == self@.spec_source_status_ok(status@),
    {
        state_check(status, &self.source_state_none, &self.source_state_all, &self.source_state_any)
    }
}

/// A name of the `none` group that is present rejects, whatever the other groups hold.
pub proof fn lemma_none_rejects(present: spec_fn(Seq<char>) -> bool, none: Seq<Seq<char>>, all: Seq<Seq<char>>, any: Seq<Seq<char>>, i: int)
    requires
        0 <= i < none.len(),
        present(none[i]),
    ensures
        !selects(present, none, all, any),
{
}

/// With every group empty, everything is selected.
pub proof fn lemma_empty_groups_select(present: spec_fn(Seq<char>) -> bool)
    ensures
        selects(present, Seq::empty(), Seq::empty(), Seq::empty()),
{
}

/// With the `none` and `all` groups met, a present name of the `any` group selects.
pub proof fn lemma_any_member_selects(present: spec_fn(Seq<char>) -> bool, none: Seq<Seq<char>>, all: Seq<Seq<char>>, any: Seq<Seq<char>>, i: int)
    requires
        forall|j: int| 0 <= j < none.len() ==> !present(#[trigger] none[j]),
        forall|j: int| 0 <= j < all.len() ==> present(#[trigger] all[j]),
        0 <= i < any.len(),
        present(any[i]),
    ensures
        selects(present, none, all, any),
{
}

/// A missing name of the `all` group rejects.
pub proof fn lemma_all_missing_rejects(present: spec_fn(Seq<char>) -> bool, none: Seq<Seq<char>>, all: Seq<Seq<char>>, any: Seq<Seq<char>>, i: int)
    requires
        0 <= i < all.len(),
        !present(all[i]),
    ensures
        !selects(present, none, all, any),
{
}

} // verus!
