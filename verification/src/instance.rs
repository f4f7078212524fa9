//! Instances: the business objects that flow between metas.

use vstd::prelude::*;

use vstd::string::StringExecFns;

use crate::error::{ErrorKind, NatureError};
use crate::selector::Context;
use crate::text::{
    digits, hex_text, int_text, i64_text, lemma_digits_chars, lemma_hex_text_parses, lemma_int_text_parses, lemma_split_concat,
    lemma_split_single, parse_hex_u128, parse_i32, spec_parse_hex_u128, spec_parse_i32, split, split_str, u128_hex, views,
};

verus! {

/// The upstream instance an instance was converted from.
#[derive(Debug, Default, PartialEq)]
pub struct FromInstance {
    pub id: u128,
    pub meta: String,
    pub para: String,
    pub state_version: i32,
}

/// An instance of a meta.
#[derive(Debug, Default, PartialEq)]
pub struct Instance {
    pub id: u128,
    /// The meta string of the instance's meta.
    pub meta: String,
    pub content: String,
    pub context: Context,
    pub sys_context: Context,
    pub states: Vec<String>,
    pub state_version: i32,
    pub from: Option<FromInstance>,
    /// Parts separated by `/` that, with the meta and the id, identify the instance.
    pub para: String,
    /// Milliseconds since the Unix epoch.
    pub create_time: i64,
}

/// The separator of the parts of an instance key.
pub open spec fn key_sep() -> Seq<char> {
    "|"@
}

/// `<meta>|<id in hex>|<para>`.
pub open spec fn spec_key_no_state(meta: Seq<char>, id: u128, para: Seq<char>) -> Seq<char> {
    meta + "|"@ + hex_text(id as nat) + "|"@ + para
}

/// `<meta>|<id in hex>|<para>|<state version>`.
pub open spec fn spec_key(meta: Seq<char>, id: u128, para: Seq<char>, state_version: i32) -> Seq<char> {
    spec_key_no_state(meta, id, para) + "|"@ + int_text(state_version as int)
}

/// The meta, id, para and state version that a key `<meta>|<id>|<para>|<state version>` names, if well formed.
pub open spec fn spec_parse_from_key(s: Seq<char>) -> Option<(Seq<char>, u128, Seq<char>, i32)> {
    let parts = split(s, '|');
    if parts.len() == 4 && spec_parse_hex_u128(parts[1]) is Some && spec_parse_i32(parts[3]) is Some {
        Some((parts[0], spec_parse_hex_u128(parts[1])->Some_0, parts[2], spec_parse_i32(parts[3])->Some_0))
    } else {
        None
    }
}

/// The meta, id and para that a key `<meta>|<id>|<para>` names, if well formed.
pub open spec fn spec_parse_key_no_state(s: Seq<char>) -> Option<(Seq<char>, u128, Seq<char>)> {
    let parts = split(s, '|');
    if parts.len() == 3 && spec_parse_hex_u128(parts[1]) is Some {
        Some((parts[0], spec_parse_hex_u128(parts[1])->Some_0, parts[2]))
    } else {
        None
    }
}

/// The message for a malformed instance key.
pub open spec fn spec_bad_key(s: Seq<char>) -> Seq<char> {
    "illegal format for instance key : "@ + s
}

/// What a key is made of, read back: the key of a meta, an id, a para and a state
/// version parses to those four, provided neither the meta nor the para holds a `|`.
pub proof fn lemma_key_round_trip(meta: Seq<char>, id: u128, para: Seq<char>, state_version: i32)
    requires
        !meta.contains('|'),
        !para.contains('|'),
    ensures
        spec_parse_from_key(spec_key(meta, id, para, state_version)) == Some((meta, id, para, state_version)),
{
    let h = hex_text(id as nat);
    let t = int_text(state_version as int);
    lemma_key_parts(meta, id, para);
    lemma_no_bar_in_digits(state_version as int);
    lemma_split_single(t, '|');
    reveal_strlit("|");
    lemma_split_concat(spec_key_no_state(meta, id, para), t, '|');
    assert(spec_key(meta, id, para, state_version) == spec_key_no_state(meta, id, para) + seq!['|'] + t);
    let parts = split(spec_key(meta, id, para, state_version), '|');
    assert(parts =~= seq![meta, h, para, t]);
    lemma_hex_text_parses(id);
    lemma_int_text_parses(state_version);
}

/// What a key without a state version is made of, read back: it parses to the meta,
/// id and para it was made of, provided neither the meta nor the para holds a `|`.
pub proof fn lemma_key_no_state_round_trip(meta: Seq<char>, id: u128, para: Seq<char>)
    requires
        !meta.contains('|'),
        !para.contains('|'),
    ensures
        spec_parse_key_no_state(spec_key_no_state(meta, id, para)) == Some((meta, id, para)),
{
    lemma_key_parts(meta, id, para);
    lemma_hex_text_parses(id);
}

/// The pieces of a key without a state version are its meta, id text and para.
proof fn lemma_key_parts(meta: Seq<char>, id: u128, para: Seq<char>)
    requires
        !meta.contains('|'),
        !para.contains('|'),
    ensures
        split(spec_key_no_state(meta, id, para), '|') == seq![meta, hex_text(id as nat), para],
{
    let h = hex_text(id as nat);
    reveal_strlit("|");
    assert forall|i: int| 0 <= i < meta.len() implies meta[i] != '|' by {
        if meta[i] == '|' {
            assert(meta.contains('|'));
        }
    }
    assert forall|i: int| 0 <= i < para.len() implies para[i] != '|' by {
        if para[i] == '|' {
            assert(para.contains('|'));
        }
    }
    lemma_digits_chars(id as nat, 16);
    lemma_split_single(meta, '|');
    lemma_split_single(h, '|');
    lemma_split_single(para, '|');
    lemma_split_concat(meta, h, '|');
    lemma_split_concat(meta + seq!['|'] + h, para, '|');
    assert(spec_key_no_state(meta, id, para) == meta + seq!['|'] + h + seq!['|'] + para);
    assert(seq![meta] + seq![h] + seq![para] =~= seq![meta, h, para]);
}

/// The decimal text of an integer holds no `|`.
proof fn lemma_no_bar_in_digits(v: int)
    ensures
        forall|i: int| 0 <= i < int_text(v).len() ==> int_text(v)[i] != '|',
{
    if v < 0 {
        lemma_digits_chars((-v) as nat, 10);
        assert forall|i: int| 0 <= i < int_text(v).len() implies int_text(v)[i] != '|' by {
            if i > 0 {
                assert(int_text(v)[i] == digits((-v) as nat, 10)[i - 1]);
            }
        }
    } else {
        lemma_digits_chars(v as nat, 10);
    }
}

impl FromInstance {
    /// `<meta>|<id in hex>|<para>|<state version>`.
    pub fn to_string(&self) -> (r: String)
        ensures
            r@ == spec_key(self.meta@, self.id, self.para@, self.state_version),
    {
        self.meta.clone().concat("|").concat(u128_hex(self.id).as_str()).concat("|").concat(self.para.as_str())
            .concat("|").concat(i64_text(self.state_version as i64).as_str())
    }

    /// Parses `<meta>|<id in hex>|<para>|<state version>`.
    pub fn from_str(s: &str) -> (r: Result<FromInstance, NatureError>)
        ensures
            match spec_parse_from_key(s@) {
                Some((m, id, p, v)) => r is Ok && r->Ok_0.meta@ == m && r->Ok_0.id == id && r->Ok_0.para@ == p
                    && r->Ok_0.state_version == v,
                None => r is Err && r->Err_0@ == (ErrorKind::VerifyError, spec_bad_key(s@)),
            },
    {
        let parts = split_str(s, '|');
        if parts.len() == 4 {
            assert(views(parts@)[1] == parts@[1]@ && views(parts@)[3] == parts@[3]@);
            assert(views(parts@)[0] == parts@[0]@ && views(parts@)[2] == parts@[2]@);
            let id = parse_hex_u128(parts[1].as_str());
            let v = parse_i32(parts[3].as_str());
            if let (Some(id), Some(v)) = (id, v) {
                return Ok(FromInstance { id, meta: parts[0].clone(), para: parts[2].clone(), state_version: v });
            }
        }
        Err(NatureError::VerifyError("illegal format for instance key : ".to_string().concat(s)))
    }

    /// Parses `<meta>|<id in hex>|<para>`; the state version is 0.
    pub fn from_key_no_state(s: &str) -> (r: Result<FromInstance, NatureError>)
        ensures
            match spec_parse_key_no_state(s@) {
                Some((m, id, p)) => r is Ok && r->Ok_0.meta@ == m && r->Ok_0.id == id && r->Ok_0.para@ == p
                    && r->Ok_0.state_version == 0,
                None => r is Err && r->Err_0@ == (ErrorKind::VerifyError, spec_bad_key(s@)),
            },
    {
        let parts = split_str(s, '|');
        if parts.len() == 3 {
            assert(views(parts@)[1] == parts@[1]@);
            assert(views(parts@)[0] == parts@[0]@ && views(parts@)[2] == parts@[2]@);
            if let Some(id) = parse_hex_u128(parts[1].as_str()) {
                return Ok(FromInstance { id, meta: parts[0].clone(), para: parts[2].clone(), state_version: 0 });
            }
        }
        Err(NatureError::VerifyError("illegal format for instance key : ".to_string().concat(s)))
    }
}

impl Instance {
    /// `<meta>|<id in hex>|<para>`.
    pub fn key_no_state(&self) -> (r: String)
        ensures
            r@ == spec_key_no_state(self.meta@, self.id, self.para@),
    {
        self.meta.clone().concat("|").concat(u128_hex(self.id).as_str()).concat("|").concat(self.para.as_str())
    }

    /// Gives the instance the id `generated` (the hash of its content) when it has
    /// none yet (id 0), and answers its id.
    pub fn id_generate_if_not_set(&mut self, generated: u128) -> (r: u128)
        ensures
            old(self).id == 0 ==> final(self).id == generated && r == generated,
            old(self).id != 0 ==> final(self).id == old(self).id && r == old(self).id,
            final(self).meta == old(self).meta,
            final(self).content == old(self).content,
            final(self).context == old(self).context,
            final(self).sys_context == old(self).sys_context,
            final(self).states == old(self).states,
            final(self).state_version == old(self).state_version,
            final(self).from == old(self).from,
            final(self).para == old(self).para,
            final(self).create_time == old(self).create_time,
    {
        if self.id == 0 {
            self.id = generated;
        }
        self.id
    }

    /// `<meta>|<id in hex>|<para>|<state version>`.
    pub fn get_key(&self) -> (r: String)
        ensures
            r@ == spec_key(self.meta@, self.id, self.para@, self.state_version),
    {
        self.key_no_state().concat("|").concat(i64_text(self.state_version as i64).as_str())
    }
}

/// The result of a callback: an error text or the instances it produced.
#[derive(Debug)]
pub enum CallbackResult {
    Error(String),
    Instances(Vec<Instance>),
}

impl Default for CallbackResult {
    fn default() -> (r: Self)
        ensures
            r matches CallbackResult::Instances(v) && v@.len() == 0,
    {
        CallbackResult::Instances(Vec::new())
    }
}

/// Instances delivered for a carrier after a delay.
#[derive(Debug, Default)]
pub struct DelayedInstances {
    pub carrier_id: Vec<u8>,
    pub result: CallbackResult,
}

} // verus!
