//! Instances as the store keeps them.

use vstd::prelude::*;
use vstd::string::StringExecFns;
use vstd::utf8::encode_utf8;

use crate::error::{ErrorKind, NatureError};
use crate::instance::{
    lemma_key_no_state_round_trip, lemma_key_round_trip, spec_key, spec_key_no_state, spec_parse_from_key, spec_parse_key_no_state,
    FromInstance, Instance,
};
use crate::selector::{context_get, ctx_view, distinct_context, keys_distinct, spec_distinct_entries, Context};
use crate::text::{dedup_names, int_text, spec_dedup_names, usize_text, views};

verus! {

/// The limits on what an instance may hold.
#[derive(Debug, Clone, Copy, PartialEq, Eq)]
pub struct Limits {
    /// The most bytes of content an instance may hold.
    pub instance_content_max_length: usize,
    /// The most entries a context of an instance may hold.
    pub instance_context_max_length: usize,
    /// The most bytes of data a task may hold.
    pub task_content_max_length: usize,
}

impl Limits {
    /// The limits used when none are configured.
    pub fn new() -> (r: Limits)
        ensures
            r.instance_content_max_length == 65535,
            r.instance_context_max_length == 65535,
            r.task_content_max_length == 16777215,
    {
        Limits { instance_content_max_length: 65535, instance_context_max_length: 65535, task_content_max_length: 16777215 }
    }
}

/// The JSON object that `serde_json` writes for the string map of these entries (keys distinct).
pub uninterp spec fn json_object_text(entries: Seq<(Seq<char>, Seq<char>)>) -> Seq<char>;

/// The JSON array that `serde_json` writes for these strings.
pub uninterp spec fn json_array_text(items: Seq<Seq<char>>) -> Seq<char>;

/// The entries of the JSON object of strings `s` (keys in order), if it is one.
pub uninterp spec fn json_object_entries(s: Seq<char>) -> Option<Seq<(Seq<char>, Seq<char>)>>;

/// The items of the JSON array of strings `s`, if it is one.
pub uninterp spec fn json_array_items(s: Seq<char>) -> Option<Seq<Seq<char>>>;

/// Whether `s` is a JSON object of strings that, read back, gives for every key
/// the value that the last entry of `entries` with that key gives.
pub open spec fn spec_reads_back_as(s: Seq<char>, entries: Seq<(Seq<char>, Seq<char>)>) -> bool {
    &&& json_object_entries(s) is Some
    &&& forall|k: Seq<char>| #[trigger] context_get(json_object_entries(s)->Some_0, k) == context_get(entries, k)
}

/// `serde_json::to_string` of a context whose keys are distinct, as a string map;
/// reading the text back gives every key its value.
#[verifier::external_body]
fn context_to_json(c: &Context) -> (r: String)
    requires
        keys_distinct(ctx_view(c@)),
    ensures
        r@ == json_object_text(ctx_view(c@)),
        spec_reads_back_as(r@, ctx_view(c@)),
{
    let m: std::collections::BTreeMap<&String, &String> = c.iter().map(|p| (&p.0, &p.1)).collect();
    serde_json::to_string(&m).unwrap_or_default()
}

/// `serde_json::to_string` of a list of strings; reading the text back gives the strings.
#[verifier::external_body]
fn strings_to_json(v: &Vec<String>) -> (r: String)
    ensures
        r@ == json_array_text(views(v@)),
        json_array_items(r@) == Some(views(v@)),
{
    serde_json::to_string(v).unwrap_or_default()
}

/// `serde_json::from_str` into a string map, its entries in key order; the error is the parser's text.
#[verifier::external_body]
fn json_to_context(s: &str) -> (r: Result<Context, String>)
    ensures
        r is Ok <==> json_object_entries(s@) is Some,
        r is Ok ==> ctx_view(r->Ok_0@) == json_object_entries(s@)->Some_0,
{
    match serde_json::from_str::<std::collections::BTreeMap<String, String>>(s) {
        Ok(m) => Ok(m.into_iter().collect()),
        Err(e) => Err(e.to_string()),
    }
}

/// `serde_json::from_str` into a list of strings; the error is the parser's text.
#[verifier::external_body]
fn json_to_strings(s: &str) -> (r: Result<Vec<String>, String>)
    ensures
        r is Ok <==> json_array_items(s@) is Some,
        r is Ok ==> views(r->Ok_0@) == json_array_items(s@)->Some_0,
{
    serde_json::from_str::<Vec<String>>(s).map_err(|e| e.to_string())
}

/// An instance as the store keeps it.
#[derive(Debug, PartialEq)]
pub struct RawInstance {
    /// `<meta>|<id in hex>|<para>`.
    pub ins_key: String,
    pub content: String,
    /// The context as a JSON object, none when empty.
    pub context: Option<String>,
    /// The states as a JSON array, none when there are none.
    pub states: Option<String>,
    pub state_version: i32,
    /// Milliseconds since the Unix epoch.
    pub create_time: i64,
    /// The system context as a JSON object, none when empty.
    pub sys_context: Option<String>,
    /// The key of the upstream instance, empty when there is none.
    pub from_key: String,
}

/// The message for a context with too many entries.
pub open spec fn spec_context_too_long(which: Seq<char>, max: usize) -> Seq<char> {
    which + "'s length can' be over : "@ + int_text(max as int)
}

/// The message for too much content.
pub open spec fn spec_content_too_long(max: usize) -> Seq<char> {
    "content's length can' be over : "@ + int_text(max as int)
}

/// The view of a stored optional JSON text.
pub open spec fn opt_text(o: Option<String>) -> Option<Seq<char>> {
    crate::text::opt_view(o)
}

/// What `new` stores for an instance: its key without the state version, its
/// content, its contexts and states as JSON (none when empty), which read back as
/// they were, its state version and time, and the key of its upstream instance.
pub open spec fn spec_stored_as(instance: &Instance, raw: &RawInstance) -> bool {
    &&& raw.ins_key@ == spec_key_no_state(instance.meta@, instance.id, instance.para@)
    &&& raw.content@ == instance.content@
    &&& opt_text(raw.context) == if instance.context@.len() == 0 { None } else {
        Some(json_object_text(spec_distinct_entries(ctx_view(instance.context@))))
    }
    &&& (raw.context matches Some(c) ==> spec_reads_back_as(c@, ctx_view(instance.context@)))
    &&& opt_text(raw.states) == if instance.states@.len() == 0 { None } else {
        Some(json_array_text(views(instance.states@)))
    }
    &&& (raw.states matches Some(t) ==> json_array_items(t@) == Some(views(instance.states@)))
    &&& raw.state_version == instance.state_version
    &&& raw.create_time == instance.create_time
    &&& opt_text(raw.sys_context) == if instance.sys_context@.len() == 0 { None } else {
        Some(json_object_text(spec_distinct_entries(ctx_view(instance.sys_context@))))
    }
    &&& (raw.sys_context matches Some(c) ==> spec_reads_back_as(c@, ctx_view(instance.sys_context@)))
    &&& raw.from_key@ == match instance.from {
        None => Seq::empty(),
        Some(f) => spec_key(f.meta@, f.id, f.para@, f.state_version),
    }
}

/// Whether `to` can read a stored instance: its keys parse and its JSON texts are
/// of the right shape.
pub open spec fn spec_readable(raw: &RawInstance) -> bool {
    &&& (raw.from_key@.len() == 0 || spec_parse_from_key(raw.from_key@) is Some)
    &&& spec_parse_key_no_state(raw.ins_key@) is Some
    &&& (raw.context is None || json_object_entries(raw.context->Some_0@) is Some)
    &&& (raw.sys_context is None || json_object_entries(raw.sys_context->Some_0@) is Some)
    &&& (raw.states is None || json_array_items(raw.states->Some_0@) is Some)
}

/// What `to` reads from a readable stored instance.
pub open spec fn spec_read_as(raw: &RawInstance, ins: &Instance) -> bool {
    let (m, id, p) = spec_parse_key_no_state(raw.ins_key@)->Some_0;
    &&& ins.id == id
    &&& ins.meta@ == m
    &&& ins.para@ == p
    &&& ins.content@ == raw.content@
    &&& ctx_view(ins.context@) == match raw.context {
        None => Seq::empty(),
        Some(s) => json_object_entries(s@)->Some_0,
    }
    &&& ctx_view(ins.sys_context@) == match raw.sys_context {
        None => Seq::empty(),
        Some(s) => json_object_entries(s@)->Some_0,
    }
    &&& views(ins.states@) == match raw.states {
        None => Seq::empty(),
        Some(s) => spec_dedup_names(json_array_items(s@)->Some_0),
    }
    &&& ins.state_version == raw.state_version
    &&& ins.create_time == raw.create_time
    &&& if raw.from_key@.len() == 0 {
        ins.from is None
    } else {
        let (fm, fid, fp, fv) = spec_parse_from_key(raw.from_key@)->Some_0;
        ins.from is Some && ins.from->Some_0.meta@ == fm && ins.from->Some_0.id == fid
            && ins.from->Some_0.para@ == fp && ins.from->Some_0.state_version == fv
    }
}

/// What is stored reads back as it was written: an instance stored by `new`
/// (whose meta and para, and those of its upstream instance, hold no `|`) can be
/// read by `to`, and what it reads has the instance's id, meta, para, content,
/// state names (each once, in the order they first occur), state version, time and
/// upstream instance, and for every key of its context and system context the
/// value the instance gave that key.
pub proof fn lemma_stored_instance_reads_back(ins: &Instance, raw: &RawInstance, back: &Instance)
    requires
        !ins.meta@.contains('|'),
        !ins.para@.contains('|'),
        ins.from matches Some(f) ==> !f.meta@.contains('|') && !f.para@.contains('|'),
        spec_stored_as(ins, raw),
    ensures
        spec_readable(raw),
        spec_read_as(raw, back) ==> {
            &&& back.id == ins.id
            &&& back.meta@ == ins.meta@
            &&& back.para@ == ins.para@
            &&& back.content@ == ins.content@
            &&& views(back.states@) == spec_dedup_names(views(ins.states@))
            &&& back.state_version == ins.state_version
            &&& back.create_time == ins.create_time
            &&& forall|k: Seq<char>| #[trigger] context_get(ctx_view(back.context@), k) == context_get(ctx_view(ins.context@), k)
            &&& forall|k: Seq<char>| #[trigger] context_get(ctx_view(back.sys_context@), k) == context_get(ctx_view(ins.sys_context@), k)
            &&& match ins.from {
                None => back.from is None,
                Some(f) => back.from is Some && back.from->Some_0.meta@ == f.meta@ && back.from->Some_0.id == f.id
                    && back.from->Some_0.para@ == f.para@ && back.from->Some_0.state_version == f.state_version,
            }
        },
{
    lemma_key_no_state_round_trip(ins.meta@, ins.id, ins.para@);
    if let Some(f) = ins.from {
        lemma_key_round_trip(f.meta@, f.id, f.para@, f.state_version);
        lemma_key_not_empty(f.meta@, f.id, f.para@, f.state_version);
    }
    if spec_read_as(raw, back) {
        if ins.context@.len() == 0 {
            assert(ctx_view(ins.context@) =~= Seq::empty());
        }
        if ins.sys_context@.len() == 0 {
            assert(ctx_view(ins.sys_context@) =~= Seq::empty());
        }
        if ins.states@.len() == 0 {
            assert(views(ins.states@) =~= Seq::empty());
        }
    }
}

/// A key with a state version is never empty.
proof fn lemma_key_not_empty(meta: Seq<char>, id: u128, para: Seq<char>, state_version: i32)
    ensures
        spec_key(meta, id, para, state_version).len() > 0,
{
    reveal_strlit("|");
}

impl RawInstance {
    /// A context as it is stored: an error when it has more than `max` entries,
    /// none when it is empty, else its JSON object.
    pub fn context_to_raw(context: &Context, which: &str, max: usize) -> (r: Result<Option<String>, NatureError>)
        ensures
            context@.len() > max ==> r is Err && r->Err_0@ == (ErrorKind::SystemError, spec_context_too_long(which@, max)),
            context@.len() <= max ==> r is Ok && opt_text(r->Ok_0) == if context@.len() == 0 {
                None
            } else {
                Some(json_object_text(spec_distinct_entries(ctx_view(context@))))
            },
            context@.len() <= max && context@.len() > 0
                ==> spec_reads_back_as(json_object_text(spec_distinct_entries(ctx_view(context@))), ctx_view(context@)),
    {
        let ctx_len = context.len();
        if ctx_len > max {
            let msg = which.to_string().concat("'s length can' be over : ").concat(usize_text(max).as_str());
            return Err(NatureError::SystemError(msg));
        }
        if ctx_len == 0 {
            Ok(None)
        } else {
            let d = distinct_context(context);
            let text = context_to_json(&d);
            assert forall|k: Seq<char>| #[trigger] context_get(json_object_entries(text@)->Some_0, k) == context_get(ctx_view(context@), k) by {
                assert(context_get(ctx_view(d@), k) == context_get(ctx_view(context@), k));
            }
            Ok(Some(text))
        }
    }

    /// An instance as it is stored, within the limits.
    pub fn new(instance: &Instance, limits: &Limits) -> (r: Result<RawInstance, NatureError>)
        ensures
            ({
                let cmax = limits.instance_content_max_length;
                let xmax = limits.instance_context_max_length;
                if (encode_utf8(instance.content@).len() as usize) > cmax {
                    r is Err && r->Err_0@ == (ErrorKind::SystemError, spec_content_too_long(cmax))
                } else if instance.context@.len() > xmax {
                    r is Err && r->Err_0@ == (ErrorKind::SystemError, spec_context_too_long("context"@, xmax))
                } else if instance.sys_context@.len() > xmax {
                    r is Err && r->Err_0@ == (ErrorKind::SystemError, spec_context_too_long("sys_context"@, xmax))
                } else {
                    r is Ok && spec_stored_as(instance, &r->Ok_0)
                }
            }),
    {
        let ins_key = instance.key_no_state();
        if instance.content.as_str().len() > limits.instance_content_max_length {
            let msg = "content's length can' be over : ".to_string().concat(usize_text(limits.instance_content_max_length).as_str());
            return Err(NatureError::SystemError(msg));
        }
        proof {
            reveal_strlit("context");
            reveal_strlit("sys_context");
        }
        let context = Self::context_to_raw(&instance.context, "context", limits.instance_context_max_length)?;
        let states = if instance.states.len() == 0 { None } else { Some(strings_to_json(&instance.states)) };
        let sys_context = Self::context_to_raw(&instance.sys_context, "sys_context", limits.instance_context_max_length)?;
        let from_key = match &instance.from {
            None => String::new(),
            Some(from) => from.to_string(),
        };
        Ok(RawInstance {
            ins_key,
            content: instance.content.clone(),
            context,
            states,
            state_version: instance.state_version,
            create_time: instance.create_time,
            sys_context,
            from_key,
        })
    }

    /// The instances stored rows stand for, in order; the first row that cannot be
    /// read stops it with its error.
    pub fn to_all(rows: &Vec<RawInstance>) -> (r: Result<Vec<Instance>, NatureError>)
        ensures
            r is Ok <==> forall|i: int| 0 <= i < rows@.len() ==> spec_readable(#[trigger] &rows@[i]),
            r is Ok ==> r->Ok_0@.len() == rows@.len()
                && forall|i: int| 0 <= i < rows@.len() ==> spec_read_as(&rows@[i], #[trigger] &r->Ok_0@[i]),
    {
        let mut rtn: Vec<Instance> = Vec::new();
        let mut i: usize = 0;
        while i < rows.len()
            invariant
                0 <= i <= rows.len(),
                rtn@.len() == i,
                forall|j: int| 0 <= j < i ==> spec_readable(#[trigger] &rows@[j]),
                forall|j: int| 0 <= j < i ==> spec_read_as(&rows@[j], #[trigger] &rtn@[j]),
            decreases rows.len() - i,
        {
            let one = rows[i].to()?;
            rtn.push(one);
            i = i + 1;
        }
        Ok(rtn)
    }

    /// The instance a stored instance stands for: its key and upstream key parsed,
    /// its contexts and states read back from JSON (a repeated state name kept once).
    pub fn to(&self) -> (r: Result<Instance, NatureError>)
        ensures
            r is Ok <==> spec_readable(self),
            r is Ok ==> spec_read_as(self, &r->Ok_0),
    {
        let from = if self.from_key.as_str().is_empty() {
            None
        } else {
            Some(FromInstance::from_str(self.from_key.as_str())?)
        };
        let key = FromInstance::from_key_no_state(self.ins_key.as_str())?;
        let context = match &self.context {
            None => Vec::new(),
            Some(s) => match json_to_context(s.as_str()) {
                Ok(c) => c,
                Err(e) => return Err(NatureError::VerifyError(e)),
            },
        };
        let sys_context = match &self.sys_context {
            None => Vec::new(),
            Some(s) => match json_to_context(s.as_str()) {
                Ok(c) => c,
                Err(e) => return Err(NatureError::VerifyError(e)),
            },
        };
        let states = match &self.states {
            None => Vec::new(),
            Some(s) => match json_to_strings(s.as_str()) {
                Ok(c) => dedup_names(c),
                Err(e) => return Err(NatureError::VerifyError(e)),
            },
        };
        let r = Instance {
            id: key.id,
            meta: key.meta,
            content: self.content.clone(),
            context,
            sys_context,
            states,
            state_version: self.state_version,
            from,
            para: key.para,
            create_time: self.create_time,
        };
        proof {
            if self.context is None {
                assert(ctx_view(r.context@) =~= Seq::empty());
            }
            if self.sys_context is None {
                assert(ctx_view(r.sys_context@) =~= Seq::empty());
            }
            if self.states is None {
                assert(views(r.states@) =~= Seq::empty());
            }
        }
        Ok(r)
    }
}

} // verus!
