//! Caches in front of the store: metas by meta string, relations by the meta
//! string they start from. Entries expire an hour after their last use.
//!
//! Filling a cache needs the store, which is reached asynchronously outside this
//! crate; so each cache offers the decisions of a lookup as steps: first
//! `lookup`, then, when that finds nothing, the step that takes what the store gave.

use vstd::prelude::*;
use vstd::string::StringExecFns;

use lru_time_cache::LruCache;

use crate::error::{ErrorKind, NatureError};
use crate::meta::{spec_parse_meta_string, spec_plain_meta, Meta, MetaSetting, MetaType, MetaView};
use crate::raw_meta::{setting_result_view, spec_raw_meta_into, RawMeta};
use crate::relation::{meta_result_view, Relation, RelationView};
use crate::mission::relations_view;
use crate::text::{clone_strings, views};

verus! {

#[verifier::external_type_specification]
#[verifier::external_body]
#[verifier::reject_recursive_types(Key)]
#[verifier::reject_recursive_types(Value)]
pub struct ExLruCache<Key, Value>(LruCache<Key, Value>);

/// What the meta cache holds: meta string to meta.
pub uninterp spec fn meta_cache_contents(c: LruCache<String, Meta>) -> Map<Seq<char>, MetaView>;

/// What the relation cache holds: the meta string relations start from, to the relations.
pub uninterp spec fn relation_cache_contents(c: LruCache<String, Vec<Relation>>) -> Map<Seq<char>, Seq<RelationView>>;

/// `LruCache::with_expiry_duration`: an empty cache whose entries expire `secs` seconds after their last use.
#[verifier::external_body]
fn new_meta_lru(secs: u64) -> (r: LruCache<String, Meta>)
    ensures
        meta_cache_contents(r).is_empty(),
{
    LruCache::with_expiry_duration(std::time::Duration::from_secs(secs))
}

/// `LruCache::get`: what the cache holds for `key`, if it holds it and it has not
/// expired. Expired entries are dropped; nothing else changes; so when it gives
/// nothing, the cache holds nothing for `key` afterwards.
#[verifier::external_body]
fn meta_lru_get<'a>(c: &'a mut LruCache<String, Meta>, key: &str) -> (r: Option<&'a Meta>)
    ensures
        r is Some ==> meta_cache_contents(*old(c)).contains_key(key@)
            && (*r->Some_0)@ == meta_cache_contents(*old(c))[key@]
            && meta_cache_contents(*final(c)).contains_key(key@),
        r is None ==> !meta_cache_contents(*final(c)).contains_key(key@),
        meta_cache_contents(*final(c)).submap_of(meta_cache_contents(*old(c))),
{
    c.get(key)
}

/// `LruCache::insert`: the cache holds `value` for `key`. Expired entries are dropped.
#[verifier::external_body]
fn meta_lru_insert(c: &mut LruCache<String, Meta>, key: String, value: Meta)
    ensures
        meta_cache_contents(*final(c)).contains_key(key@),
        meta_cache_contents(*final(c))[key@] == value@,
        meta_cache_contents(*final(c)).submap_of(meta_cache_contents(*old(c)).insert(key@, value@)),
{
    let _ = c.insert(key, value);
}

/// `LruCache::with_expiry_duration`: an empty cache whose entries expire `secs` seconds after their last use.
#[verifier::external_body]
fn new_relation_lru(secs: u64) -> (r: LruCache<String, Vec<Relation>>)
    ensures
        relation_cache_contents(r).is_empty(),
{
    LruCache::with_expiry_duration(std::time::Duration::from_secs(secs))
}

/// `LruCache::get`: what the cache holds for `key`, if it holds it and it has not
/// expired. Expired entries are dropped; nothing else changes; so when it gives
/// nothing, the cache holds nothing for `key` afterwards.
#[verifier::external_body]
fn relation_lru_get<'a>(c: &'a mut LruCache<String, Vec<Relation>>, key: &str) -> (r: Option<&'a Vec<Relation>>)
    ensures
        r is Some ==> relation_cache_contents(*old(c)).contains_key(key@)
            && relations_view((*r->Some_0)@) == relation_cache_contents(*old(c))[key@]
            && relation_cache_contents(*final(c)).contains_key(key@),
        r is None ==> !relation_cache_contents(*final(c)).contains_key(key@),
        relation_cache_contents(*final(c)).submap_of(relation_cache_contents(*old(c))),
{
    c.get(key)
}

/// `LruCache::insert`: the cache holds `value` for `key`. Expired entries are dropped.
#[verifier::external_body]
fn relation_lru_insert(c: &mut LruCache<String, Vec<Relation>>, key: String, value: Vec<Relation>)
    ensures
        relation_cache_contents(*final(c)).contains_key(key@),
        relation_cache_contents(*final(c))[key@] == relations_view(value@),
        relation_cache_contents(*final(c)).submap_of(relation_cache_contents(*old(c)).insert(key@, relations_view(value@))),
{
    let _ = c.insert(key, value);
}

/// The seconds an entry lives after its last use.
pub const CACHE_EXPIRY_SECS: u64 = 3600;

/// What to do after the store was asked for a meta.
#[derive(Debug)]
pub enum MetaStep {
    /// The answer.
    Done(Result<Meta, NatureError>),
    /// A multi-meta, cached: load each of its sub-metas (their results do not
    /// matter), then answer with the meta.
    LoadSubMetas(Meta, Vec<String>),
    /// A meta with a master: load the master; if that fails, answer its error;
    /// else `record` the meta and answer with it.
    LoadMaster(Meta, String),
}

pub enum MetaStepView {
    Done(Result<MetaView, (ErrorKind, Seq<char>)>),
    LoadSubMetas(MetaView, Seq<Seq<char>>),
    LoadMaster(MetaView, Seq<char>),
}

impl View for MetaStep {
    type V = MetaStepView;

    open spec fn view(&self) -> MetaStepView {
        match self {
            MetaStep::Done(r) => MetaStepView::Done(meta_result_view(*r)),
            MetaStep::LoadSubMetas(m, v) => MetaStepView::LoadSubMetas(m@, views(v@)),
            MetaStep::LoadMaster(m, s) => MetaStepView::LoadMaster(m@, s@),
        }
    }
}

/// The message for an empty meta string.
pub open spec fn spec_empty_meta_error() -> Seq<char> {
    "[biz] can not be empty!"@
}

/// The message for a meta the store does not define.
pub open spec fn spec_not_defined(meta_str: Seq<char>) -> Seq<char> {
    meta_str + " not defined"@
}

/// The step after a meta was converted from what the store held.
pub open spec fn spec_step_for_meta(m: MetaView) -> MetaStepView {
    if m.meta_type == MetaType::Multi {
        MetaStepView::LoadSubMetas(m, match m.setting {
            Some(s) => s.multi_meta,
            None => Seq::empty(),
        })
    } else {
        match m.setting {
            Some(s) => match s.master {
                Some(ms) => MetaStepView::LoadMaster(m, ms),
                None => MetaStepView::Done(Ok(m)),
            },
            None => MetaStepView::Done(Ok(m)),
        }
    }
}

/// The step after the store was asked for `meta_str` and gave `fetched`: its
/// error; for no meta, the meta the string names when it is of type `Null` or
/// `Dynamic` (which need no definition); for a stored meta, the meta it stands
/// for (with its sub-metas or master to load).
pub open spec fn spec_meta_step(
    meta_str: Seq<char>,
    fetched: Result<Option<(RawMeta, Result<MetaSetting, String>)>, NatureError>,
) -> MetaStepView {
    match fetched {
        Err(e) => MetaStepView::Done(Err(e@)),
        Ok(None) => match spec_parse_meta_string(meta_str) {
            None => MetaStepView::Done(Err((ErrorKind::VerifyError, crate::meta::spec_bad_meta_string(meta_str)))),
            Some((t, k, v)) => if t == MetaType::Null || t == MetaType::Dynamic {
                MetaStepView::Done(Ok(spec_plain_meta(t, k, v)))
            } else {
                MetaStepView::Done(Err((ErrorKind::VerifyError, spec_not_defined(meta_str))))
            },
        },
        Ok(Some((raw, setting))) => match spec_raw_meta_into(
            raw.full_key@,
            raw.version,
            crate::text::opt_view(raw.states),
            raw.config@,
            setting_result_view(setting),
        ) {
            Err(e) => MetaStepView::Done(Err(e)),
            Ok(m) => spec_step_for_meta(m),
        },
    }
}

/// The meta a step records in the cache, if any.
pub open spec fn spec_step_records(step: MetaStepView) -> Option<MetaView> {
    match step {
        MetaStepView::Done(Ok(m)) => Some(m),
        MetaStepView::LoadSubMetas(m, _) => Some(m),
        _ => None,
    }
}

/// The metas, by meta string, that the store defines or that need no definition.
pub struct MetaCacheImpl {
    cache: LruCache<String, Meta>,
}

impl MetaCacheImpl {
    /// What the cache holds.
    pub closed spec fn contents(&self) -> Map<Seq<char>, MetaView> {
        meta_cache_contents(self.cache)
    }

    /// An empty cache.
    pub fn new() -> (r: MetaCacheImpl)
        ensures
            r.contents().is_empty(),
    {
        MetaCacheImpl { cache: new_meta_lru(CACHE_EXPIRY_SECS) }
    }

    /// The first step of getting a meta: an empty meta string is refused; a cached
    /// meta that has not expired is the answer; `None` means the store must be
    /// asked, and then the cache holds nothing for `meta_str`.
    pub fn lookup(&mut self, meta_str: &str) -> (r: Option<Result<Meta, NatureError>>)
        ensures
            meta_str@.len() == 0 ==> r is Some && r->Some_0 is Err
                && r->Some_0->Err_0@ == (ErrorKind::VerifyError, spec_empty_meta_error()),
            meta_str@.len() > 0 && r is Some ==> r->Some_0 is Ok
                && old(self).contents().contains_key(meta_str@)
                && r->Some_0->Ok_0@ == old(self).contents()[meta_str@]
                && final(self).contents().contains_key(meta_str@),
            meta_str@.len() > 0 && r is None ==> !final(self).contents().contains_key(meta_str@),
            final(self).contents().submap_of(old(self).contents()),
    {
        if meta_str.is_empty() {
            return Some(Err(NatureError::VerifyError("[biz] can not be empty!".to_string())));
        }
        match meta_lru_get(&mut self.cache, meta_str) {
            Some(m) => Some(Ok(m.clone())),
            None => None,
        }
    }

    /// The step after the store was asked for `meta_str` and gave `fetched` (a stored
    /// meta comes with its config parsed as a setting). A meta that needs nothing
    /// more, and a multi-meta, are cached.
    pub fn on_fetched(
        &mut self,
        meta_str: &str,
        fetched: Result<Option<(RawMeta, Result<MetaSetting, String>)>, NatureError>,
    ) -> (r: MetaStep)
        ensures
            r@ == spec_meta_step(meta_str@, fetched),
            match spec_step_records(r@) {
                Some(m) => final(self).contents().contains_key(meta_str@) && final(self).contents()[meta_str@] == m
                    && final(self).contents().submap_of(old(self).contents().insert(meta_str@, m)),
                None => final(self).contents() == old(self).contents(),
            },
    {
        match fetched {
            Err(e) => MetaStep::Done(Err(e)),
            Ok(None) => {
                let m = match Meta::from_string(meta_str) {
                    Ok(m) => m,
                    Err(e) => return MetaStep::Done(Err(e)),
                };
                match m.meta_type {
                    MetaType::Null | MetaType::Dynamic => {
                        let c = m.clone();
                        meta_lru_insert(&mut self.cache, meta_str.to_string(), c);
                        MetaStep::Done(Ok(m))
                    },
                    _ => MetaStep::Done(Err(NatureError::VerifyError(meta_str.to_string().concat(" not defined")))),
                }
            },
            Ok(Some((raw, setting))) => {
                let m = match raw.try_into(setting) {
                    Ok(m) => m,
                    Err(e) => return MetaStep::Done(Err(e)),
                };
                if m.meta_type == MetaType::Multi {
                    let c = m.clone();
                    meta_lru_insert(&mut self.cache, meta_str.to_string(), c);
                    let subs = match &m.setting {
                        Some(s) => clone_strings(&s.multi_meta),
                        None => Vec::new(),
                    };
                    proof {
                        if m.setting is None {
                            assert(views(subs@) =~= Seq::empty());
                        }
                    }
                    MetaStep::LoadSubMetas(m, subs)
                } else {
                    let master = match &m.setting {
                        Some(s) => match &s.master {
                            Some(ms) => Some(ms.clone()),
                            None => None,
                        },
                        None => None,
                    };
                    match master {
                        Some(ms) => MetaStep::LoadMaster(m, ms),
                        None => {
                            let c = m.clone();
                            meta_lru_insert(&mut self.cache, meta_str.to_string(), c);
                            MetaStep::Done(Ok(m))
                        },
                    }
                }
            },
        }
    }

    /// Caches `meta` for `meta_str` (after its master loaded) and gives it back.
    pub fn record(&mut self, meta_str: &str, meta: Meta) -> (r: Meta)
        ensures
            r@ == meta@,
            final(self).contents().contains_key(meta_str@),
            final(self).contents()[meta_str@] == meta@,
            final(self).contents().submap_of(old(self).contents().insert(meta_str@, meta@)),
    {
        let c = meta.clone();
        meta_lru_insert(&mut self.cache, meta_str.to_string(), c);
        meta
    }
}

/// The relations, by the meta string they start from, that the store holds.
pub struct RelationCacheImpl {
    cache: LruCache<String, Vec<Relation>>,
}

impl RelationCacheImpl {
    /// What the cache holds.
    pub closed spec fn contents(&self) -> Map<Seq<char>, Seq<RelationView>> {
        relation_cache_contents(self.cache)
    }

    /// An empty cache.
    pub fn new() -> (r: RelationCacheImpl)
        ensures
            r.contents().is_empty(),
    {
        RelationCacheImpl { cache: new_relation_lru(CACHE_EXPIRY_SECS) }
    }

    /// The cached relations from `meta_from`, if cached and not expired; `None` means
    /// the store must be asked, and then the cache holds nothing for `meta_from`.
    pub fn lookup(&mut self, meta_from: &str) -> (r: Option<Vec<Relation>>)
        ensures
            r is Some ==> old(self).contents().contains_key(meta_from@)
                && relations_view(r->Some_0@) == old(self).contents()[meta_from@]
                && final(self).contents().contains_key(meta_from@),
            r is None ==> !final(self).contents().contains_key(meta_from@),
            final(self).contents().submap_of(old(self).contents()),
    {
        match relation_lru_get(&mut self.cache, meta_from) {
            Some(v) => Some(clone_relations(v)),
            None => None,
        }
    }

    /// The answer after the store was asked for the relations from `meta_from`:
    /// what it gave. Relations it gave are cached; an error is not.
    pub fn on_fetched(&mut self, meta_from: &str, fetched: Result<Vec<Relation>, NatureError>) -> (r: Result<Vec<Relation>, NatureError>)
        ensures
            match fetched {
                Ok(v) => r is Ok && relations_view(r->Ok_0@) == relations_view(v@)
                    && final(self).contents().contains_key(meta_from@)
                    && final(self).contents()[meta_from@] == relations_view(v@)
                    && final(self).contents().submap_of(old(self).contents().insert(meta_from@, relations_view(v@))),
                Err(e) => r is Err && r->Err_0@ == e@ && final(self).contents() == old(self).contents(),
            },
    {
        match fetched {
            Ok(v) => {
                let cpy = clone_relations(&v);
                relation_lru_insert(&mut self.cache, meta_from.to_string(), v);
                Ok(cpy)
            },
            Err(e) => Err(e),
        }
    }
}

/// A copy of a list of relations.
pub fn clone_relations(v: &Vec<Relation>) -> (r: Vec<Relation>)
    ensures
        relations_view(r@) == relations_view(v@),
{
    let mut r: Vec<Relation> = Vec::new();
    let mut i: usize = 0;
    while i < v.len()
        invariant
            0 <= i <= v.len(),
            relations_view(r@) == relations_view(v@.take(i as int)),
        decreases v.len() - i,
    {
        let e = v[i].clone();
        let ghost before = r@;
        r.push(e);
        assert(relations_view(r@) =~= relations_view(before).push(e@));
        assert(v@.take(i + 1) == v@.take(i as int).push(v@[i as int]));
        assert(relations_view(v@.take(i + 1)) =~= relations_view(v@.take(i as int)).push(v@[i as int]@));
        i = i + 1;
    }
    assert(v@.take(v.len() as int) == v@);
    r
}

} // verus!
