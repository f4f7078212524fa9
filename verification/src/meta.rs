//! Metas: the kinds of business object that instances are of, written
//! `<type>:<key>:<version>` (for example `B:sale/order:1`), or by their full
//! key `/<type>/<key>` beside a version.

use vstd::prelude::*;
use vstd::string::StringExecFns;

use crate::error::{ErrorKind, NatureError};
use crate::selector::contains_name;
use crate::text::{digits, lemma_digits_chars, lemma_int_text_parses, lemma_split_concat, lemma_split_single, lemma_has_name_views, opt_view, opt_views, clone_opt_string, clone_opt_strings, clone_strings, i64_text, int_text, parse_i32, spec_parse_i32, split, split_str, str_chars, views, chars_to_string};

verus! {

/// The type of a meta, written as one letter in its string.
#[derive(Debug, Clone, Copy, PartialEq, Eq, Structural)]
pub enum MetaType {
    Business,
    System,
    Dynamic,
    Null,
    Multi,
    Loop,
}

/// The letter of a meta type.
pub open spec fn spec_prefix(t: MetaType) -> char {
    match t {
        MetaType::Business => 'B',
        MetaType::System => 'S',
        MetaType::Dynamic => 'D',
        MetaType::Null => 'N',
        MetaType::Multi => 'M',
        MetaType::Loop => 'L',
    }
}

/// The meta type written as the one-letter text `p`, if any.
pub open spec fn spec_type_of_prefix(p: Seq<char>) -> Option<MetaType> {
    if p.len() != 1 {
        None
    } else if p[0] == 'B' {
        Some(MetaType::Business)
    } else if p[0] == 'S' {
        Some(MetaType::System)
    } else if p[0] == 'D' {
        Some(MetaType::Dynamic)
    } else if p[0] == 'N' {
        Some(MetaType::Null)
    } else if p[0] == 'M' {
        Some(MetaType::Multi)
    } else if p[0] == 'L' {
        Some(MetaType::Loop)
    } else {
        None
    }
}

impl MetaType {
    /// The meta type of a letter, if any.
    pub fn from_prefix_char(c: char) -> (r: Option<MetaType>)
        ensures
            r == spec_type_of_prefix(seq![c]),
    {
        if c == 'B' {
            Some(MetaType::Business)
        } else if c == 'S' {
            Some(MetaType::System)
        } else if c == 'D' {
            Some(MetaType::Dynamic)
        } else if c == 'N' {
            Some(MetaType::Null)
        } else if c == 'M' {
            Some(MetaType::Multi)
        } else if c == 'L' {
            Some(MetaType::Loop)
        } else {
            None
        }
    }

    /// The letter of this meta type, as a string.
    pub fn get_prefix(&self) -> (r: String)
        ensures
            r@ == seq![spec_prefix(*self)],
    {
        let s = match self {
            MetaType::Business => "B",
            MetaType::System => "S",
            MetaType::Dynamic => "D",
            MetaType::Null => "N",
            MetaType::Multi => "M",
            MetaType::Loop => "L",
        };
        proof {
            reveal_strlit("B");
            reveal_strlit("S");
            reveal_strlit("D");
            reveal_strlit("N");
            reveal_strlit("M");
            reveal_strlit("L");
        }
        s.to_string()
    }
}

/// Settings of a meta.
#[derive(Debug, Default, PartialEq)]
pub struct MetaSetting {
    /// Whether instances of the meta carry states.
    pub is_state: bool,
    /// The meta string of the master meta, if any.
    pub master: Option<String>,
    /// For a `Multi` meta: the meta strings of its sub-metas.
    pub multi_meta: Vec<String>,
    /// Whether saved instances are cached.
    pub cache_saved: bool,
}

/// The view of a meta setting.
pub struct MetaSettingView {
    pub is_state: bool,
    pub master: Option<Seq<char>>,
    pub multi_meta: Seq<Seq<char>>,
    pub cache_saved: bool,
}

impl View for MetaSetting {
    type V = MetaSettingView;

    open spec fn view(&self) -> MetaSettingView {
        MetaSettingView {
            is_state: self.is_state,
            master: opt_view(self.master),
            multi_meta: views(self.multi_meta@),
            cache_saved: self.cache_saved,
        }
    }
}

/// The view of a meta.
pub struct MetaView {
    pub meta_type: MetaType,
    pub key: Seq<char>,
    pub version: i32,
    pub state: Option<Seq<Seq<char>>>,
    pub is_state: bool,
    pub setting: Option<MetaSettingView>,
}

/// The view of an optional meta setting.
pub open spec fn opt_setting_view(s: Option<MetaSetting>) -> Option<MetaSettingView> {
    match s {
        Some(x) => Some(x@),
        None => None,
    }
}

/// A meta, as the storage layer reads it.
#[derive(Debug, PartialEq)]
pub struct Meta {
    pub meta_type: MetaType,
    pub key: String,
    pub version: i32,
    /// The names of the states the meta defines, if it defines any.
    pub state: Option<Vec<String>>,
    pub is_state: bool,
    pub setting: Option<MetaSetting>,
}

impl View for Meta {
    type V = MetaView;

    open spec fn view(&self) -> MetaView {
        MetaView {
            meta_type: self.meta_type,
            key: self.key@,
            version: self.version,
            state: opt_views(self.state),
            is_state: self.is_state,
            setting: opt_setting_view(self.setting),
        }
    }
}

/// Whether the meta defines a state named `name`.
pub open spec fn spec_has_state(m: MetaView, name: Seq<char>) -> bool {
    m.state is Some && m.state->Some_0.contains(name)
}

/// `<type>:<key>:<version>`.
pub open spec fn spec_meta_string(m: MetaView) -> Seq<char> {
    seq![spec_prefix(m.meta_type)] + ":"@ + m.key + ":"@ + int_text(m.version as int)
}

/// `/<type>/<key>`.
pub open spec fn spec_full_key(m: MetaView) -> Seq<char> {
    seq!['/', spec_prefix(m.meta_type), '/'] + m.key
}

/// A meta of the given type, key and version, with no states and no setting.
pub open spec fn spec_plain_meta(t: MetaType, key: Seq<char>, version: i32) -> MetaView {
    MetaView { meta_type: t, key, version, state: None, is_state: false, setting: None }
}

/// The type, key and version that a meta string names, if it is well formed:
/// three pieces between `:`, a known type letter and a decimal version.
pub open spec fn spec_parse_meta_string(s: Seq<char>) -> Option<(MetaType, Seq<char>, i32)> {
    let parts = split(s, ':');
    if parts.len() == 3 && spec_type_of_prefix(parts[0]) is Some && spec_parse_i32(parts[2]) is Some {
        Some((spec_type_of_prefix(parts[0])->Some_0, parts[1], spec_parse_i32(parts[2])->Some_0))
    } else {
        None
    }
}

/// The type and key that a full key `/<type>/<key>` names, if it is well formed.
pub open spec fn spec_parse_full_key(s: Seq<char>) -> Option<(MetaType, Seq<char>)> {
    if s.len() >= 3 && s[0] == '/' && s[2] == '/' && spec_type_of_prefix(seq![s[1]]) is Some {
        Some((spec_type_of_prefix(seq![s[1]])->Some_0, s.subrange(3, s.len() as int)))
    } else {
        None
    }
}

/// The message for a malformed meta string.
pub open spec fn spec_bad_meta_string(s: Seq<char>) -> Seq<char> {
    "illegal format for meta string : "@ + s
}

/// The message for a malformed full key.
pub open spec fn spec_bad_full_key(s: Seq<char>) -> Seq<char> {
    "illegal format for `full_key` : "@ + s
}

impl Clone for MetaSetting {
    fn clone(&self) -> (r: Self)
        ensures
            r@ == self@,
    {
        MetaSetting {
            is_state: self.is_state,
            master: clone_opt_string(&self.master),
            multi_meta: clone_strings(&self.multi_meta),
            cache_saved: self.cache_saved,
        }
    }
}

impl Default for Meta {
    /// A business meta with an empty key, version 1.
    fn default() -> (r: Meta)
        ensures
            r@ == spec_plain_meta(MetaType::Business, Seq::empty(), 1),
    {
        Meta { meta_type: MetaType::Business, key: String::new(), version: 1, state: None, is_state: false, setting: None }
    }
}

impl Clone for Meta {
    fn clone(&self) -> (r: Self)
        ensures
            r@ == self@,
    {
        Meta {
            meta_type: self.meta_type,
            key: self.key.clone(),
            version: self.version,
            state: clone_opt_strings(&self.state),
            is_state: self.is_state,
            setting: match &self.setting {
                Some(s) => Some(s.clone()),
                None => None,
            },
        }
    }
}

/// A meta string reads back as what it was written from: the type, key and
/// version of a meta whose key holds no `:`.
pub proof fn lemma_meta_string_round_trip(m: MetaView)
    requires
        !m.key.contains(':'),
    ensures
        spec_parse_meta_string(spec_meta_string(m)) == Some((m.meta_type, m.key, m.version)),
{
    let p = seq![spec_prefix(m.meta_type)];
    let t = int_text(m.version as int);
    reveal_strlit(":");
    assert forall|i: int| 0 <= i < m.key.len() implies m.key[i] != ':' by {
        if m.key[i] == ':' {
            assert(m.key.contains(':'));
        }
    }
    assert(p[0] != ':');
    lemma_digits_chars((if m.version < 0 { -m.version } else { m.version as int }) as nat, 10);
    assert forall|i: int| 0 <= i < t.len() implies t[i] != ':' by {
        if m.version < 0 && i > 0 {
            assert(t[i] == digits((-m.version) as nat, 10)[i - 1]);
        }
    }
    lemma_split_single(p, ':');
    lemma_split_single(m.key, ':');
    lemma_split_single(t, ':');
    lemma_split_concat(p, m.key, ':');
    lemma_split_concat(p + seq![':'] + m.key, t, ':');
    assert(spec_meta_string(m) == p + seq![':'] + m.key + seq![':'] + t);
    assert(split(spec_meta_string(m), ':') =~= seq![p, m.key, t]);
    lemma_int_text_parses(m.version);
    assert(spec_type_of_prefix(p) == Some(m.meta_type));
}

/// A full key reads back as the type and key it was written from.
pub proof fn lemma_full_key_round_trip(m: MetaView)
    ensures
        spec_parse_full_key(spec_full_key(m)) == Some((m.meta_type, m.key)),
{
    let s = spec_full_key(m);
    assert(s.subrange(3, s.len() as int) =~= m.key);
    assert(spec_type_of_prefix(seq![s[1]]) == Some(m.meta_type));
}

impl Meta {
    /// A meta of the given key, version and type, with no states and no setting.
    pub fn new(key: &str, version: i32, meta_type: MetaType) -> (r: Meta)
        ensures
            r@ == spec_plain_meta(meta_type, key@, version),
    {
        Meta { meta_type, key: key.to_string(), version, state: None, is_state: false, setting: None }
    }

    /// Parses `<type>:<key>:<version>`.
    pub fn from_string(s: &str) -> (r: Result<Meta, NatureError>)
        ensures
            match spec_parse_meta_string(s@) {
                Some((t, k, v)) => r is Ok && r->Ok_0@ == spec_plain_meta(t, k, v),
                None => r is Err && r->Err_0@ == (ErrorKind::VerifyError, spec_bad_meta_string(s@)),
            },
    {
        let parts = split_str(s, ':');
        if parts.len() == 3 {
            let first = str_chars(parts[0].as_str());
            let t = if first.len() == 1 { MetaType::from_prefix_char(first[0]) } else { None };
            proof {
                assert(views(parts@)[0] == parts@[0]@);
                if first.len() == 1 {
                    assert(first@ == seq![first@[0]]);
                }
            }
            let v = parse_i32(parts[2].as_str());
            assert(views(parts@)[1] == parts@[1]@);
            assert(views(parts@)[2] == parts@[2]@);
            match (t, v) {
                (Some(t), Some(v)) => {
                    return Ok(Meta::new(parts[1].as_str(), v, t));
                },
                _ => {},
            }
        }
        let msg = "illegal format for meta string : ".to_string().concat(s);
        Err(NatureError::VerifyError(msg))
    }

    /// Parses a full key `/<type>/<key>` and takes the version beside it.
    pub fn from_full_key(full_key: &str, version: i32) -> (r: Result<Meta, NatureError>)
        ensures
            match spec_parse_full_key(full_key@) {
                Some((t, k)) => r is Ok && r->Ok_0@ == spec_plain_meta(t, k, version),
                None => r is Err && r->Err_0@ == (ErrorKind::VerifyError, spec_bad_full_key(full_key@)),
            },
    {
        let c = str_chars(full_key);
        if c.len() >= 3 && c[0] == '/' && c[2] == '/' {
            let t = MetaType::from_prefix_char(c[1]);
            match t {
                Some(t) => {
                    let key = chars_to_string(vstd::slice::slice_subrange(c.as_slice(), 3, c.len()));
                    return Ok(Meta::new(key.as_str(), version, t));
                },
                None => {},
            }
        }
        let msg = "illegal format for `full_key` : ".to_string().concat(full_key);
        Err(NatureError::VerifyError(msg))
    }

    pub fn get_meta_type(&self) -> (r: MetaType)
        ensures
            r == self.meta_type,
    {
        self.meta_type
    }

    pub fn get_key(&self) -> (r: String)
        ensures
            r@ == self.key@,
    {
        self.key.clone()
    }

    pub fn get_setting(&self) -> (r: &Option<MetaSetting>)
        ensures
            *r == self.setting,
    {
        &self.setting
    }

    /// `<type>:<key>:<version>`.
    pub fn meta_string(&self) -> (r: String)
        ensures
            r@ == spec_meta_string(self@),
    {
        let p = self.meta_type.get_prefix();
        proof {
            reveal_strlit(":");
        }
        p.concat(":").concat(self.key.as_str()).concat(":").concat(i64_text(self.version as i64).as_str())
    }

    /// `/<type>/<key>`.
    pub fn get_full_key(&self) -> (r: String)
        ensures
            r@ == spec_full_key(self@),
    {
        let p = self.meta_type.get_prefix();
        proof {
            reveal_strlit("/");
        }
        "/".to_string().concat(p.as_str()).concat("/").concat(self.key.as_str())
    }

    /// Whether the meta defines a state named `name`.
    pub fn has_state_name(&self, name: &String) -> (r: bool)
        ensures
            r == spec_has_state(self@, name@),
    {
        match &self.state {
            Some(v) => {
                proof {
                    lemma_has_name_views(v@, name@);
                }
                contains_name(v, name)
            },
            None => false,
        }
    }

    pub fn is_state(&self) -> (r: bool)
        ensures
            r == self.is_state,
    {
        self.is_state
    }

    /// Whether `master` is the meta string of this meta's master.
    pub fn check_master(&self, master: &String) -> (r: bool)
        ensures
            r == (self.setting is Some && self.setting->Some_0.master is Some
                && self.setting->Some_0.master->Some_0@ == master@),
    {
        match &self.setting {
            Some(s) => match &s.master {
                Some(m) => *m == *master,
                None => false,
            },
            None => false,
        }
    }
}

} // verus!
