//! Metas as the store keeps them.

use vstd::prelude::*;
use vstd::string::StringExecFns;

use crate::error::{ErrorKind, NatureError};
use crate::meta::{spec_full_key, spec_parse_full_key, spec_bad_full_key, spec_plain_meta, Meta, MetaSetting, MetaSettingView, MetaView};
use crate::mission::now_millis;
use crate::relation::err_view;
use crate::text::{join_strings, join_with, split, split_str, views};

verus! {

/// A meta as the store keeps it.
#[derive(Debug, PartialEq)]
pub struct RawMeta {
    /// `/<type>/<key>`.
    pub full_key: String,
    /// For people: what the meta is.
    pub description: Option<String>,
    pub version: i32,
    /// The names of its states, separated by `,`.
    pub states: Option<String>,
    /// What the meta's content holds.
    pub fields: Option<String>,
    /// Its setting, as JSON.
    pub config: String,
    pub flag: i32,
    /// Milliseconds since the Unix epoch.
    pub create_time: i64,
}

impl Default for RawMeta {
    /// An empty meta of version 1, flag 1, configured `{}`, created now.
    fn default() -> (r: RawMeta)
        ensures
            r.full_key@ == Seq::<char>::empty(),
            r.description is None,
            r.version == 1,
            r.states is None,
            r.fields is None,
            r.config@ == "{}"@,
            r.flag == 1,
    {
        RawMeta {
            full_key: String::new(),
            description: None,
            version: 1,
            states: None,
            fields: None,
            config: "{}".to_string(),
            flag: 1,
            create_time: now_millis(),
        }
    }
}

/// The `Debug` text of a string: quoted, special characters escaped.
pub uninterp spec fn debug_str_text(s: Seq<char>) -> Seq<char>;

/// Writes a string with `{:?}`.
#[verifier::external_body]
pub(crate) fn debug_str(s: &str) -> (r: String)
    ensures
        r@ == debug_str_text(s@),
{
    format!("{:?}", s)
}

/// The position of the first name that repeats an earlier one, if any.
pub open spec fn spec_first_repeat(names: Seq<Seq<char>>) -> Option<int>
    decreases names.len(),
{
    if names.len() == 0 {
        None
    } else {
        match spec_first_repeat(names.drop_last()) {
            Some(i) => Some(i),
            None => if names.drop_last().contains(names.last()) {
                Some(names.len() - 1)
            } else {
                None
            },
        }
    }
}

/// A repeat found in a prefix is the first repeat of the whole.
pub proof fn lemma_first_repeat_prefix(names: Seq<Seq<char>>, k: int)
    requires
        0 <= k <= names.len(),
        spec_first_repeat(names.take(k)) is Some,
    ensures
        spec_first_repeat(names) == spec_first_repeat(names.take(k)),
    decreases names.len() - k,
{
    if k < names.len() {
        assert(names.take(k + 1).drop_last() == names.take(k));
        lemma_first_repeat_prefix(names, k + 1);
    } else {
        assert(names.take(k) == names);
    }
}

/// No repeat at all is exactly no duplicates.
pub proof fn lemma_first_repeat_none(names: Seq<Seq<char>>)
    ensures
        spec_first_repeat(names) is None <==> names.no_duplicates(),
    decreases names.len(),
{
    if names.len() > 0 {
        let p = names.drop_last();
        lemma_first_repeat_none(p);
        if names.no_duplicates() {
            assert(p.no_duplicates());
            if p.contains(names.last()) {
                let k = choose|k: int| 0 <= k < p.len() && p[k] == names.last();
                assert(names[k] == names[names.len() - 1]);
            }
        }
        if spec_first_repeat(names) is None {
            assert forall|a: int, b: int| 0 <= a < names.len() && 0 <= b < names.len() && a != b implies names[a] != names[b] by {
                if a < names.len() - 1 && b < names.len() - 1 {
                    assert(p[a] == names[a] && p[b] == names[b]);
                } else if a == names.len() - 1 {
                    assert(p[b] == names[b]);
                } else {
                    assert(p[a] == names[a]);
                }
            }
        }
    }
}

/// The message for a repeated state name.
pub open spec fn spec_repeated_state(name: Seq<char>, full_key: Seq<char>) -> Seq<char> {
    "repeated state name: "@ + debug_str_text(name) + ", for `Meta`: "@ + debug_str_text(full_key)
}

/// The state names written in `s`, separated by `,`; none for an empty text.
pub open spec fn spec_state_names(s: Seq<char>) -> Option<Seq<Seq<char>>> {
    if s.len() == 0 {
        None
    } else {
        Some(split(s, ','))
    }
}

/// The meta a stored meta stands for, given its setting as parsed from its
/// config (used only when the config is not empty); or the error that stops it.
pub open spec fn spec_raw_meta_into(
    full_key: Seq<char>,
    version: i32,
    states: Option<Seq<char>>,
    config: Seq<char>,
    setting: Result<MetaSettingView, Seq<char>>,
) -> Result<MetaView, (ErrorKind, Seq<char>)> {
    match spec_parse_full_key(full_key) {
        None => Err((ErrorKind::VerifyError, spec_bad_full_key(full_key))),
        Some((t, k)) => {
            let names = match states {
                Some(s) => spec_state_names(s),
                None => None,
            };
            if spec_names_error(names, full_key) is Some {
                Err((ErrorKind::VerifyError, spec_names_error(names, full_key)->Some_0))
            } else if config.len() > 0 && setting is Err {
                Err((ErrorKind::VerifyError, setting->Err_0))
            } else {
                let set = if config.len() > 0 { Some(setting->Ok_0) } else { None };
                Ok(MetaView {
                    meta_type: t,
                    key: k,
                    version,
                    state: names,
                    is_state: names is Some || (set is Some && set->Some_0.is_state),
                    setting: set,
                })
            }
        },
    }
}

/// The message for the first repeated name among `names`, if one repeats.
pub open spec fn spec_names_error(names: Option<Seq<Seq<char>>>, full_key: Seq<char>) -> Option<Seq<char>> {
    match names {
        Some(ns) => match spec_first_repeat(ns) {
            Some(i) => Some(spec_repeated_state(ns[i], full_key)),
            None => None,
        },
        None => None,
    }
}

/// What the store keeps of a meta reads back as the meta: its full key, version and
/// state names joined by `,` (as `from_meta` writes them, with an empty config for a
/// meta without a setting) give the meta back, whatever setting is offered, provided
/// its state names are distinct, not empty and hold no `,`, there is at least one if
/// it has states, and it is a state meta exactly when it has states.
pub proof fn lemma_stored_meta_reads_back(m: MetaView, setting: Result<MetaSettingView, Seq<char>>)
    requires
        m.setting is None,
        m.is_state == m.state is Some,
        m.state matches Some(ns) ==> {
            &&& ns.len() > 0
            &&& ns.no_duplicates()
            &&& forall|i: int| 0 <= i < ns.len() ==> (#[trigger] ns[i]).len() > 0 && !ns[i].contains(',')
        },
    ensures
        spec_raw_meta_into(
            spec_full_key(m),
            m.version,
            match m.state {
                Some(ns) => Some(join_with(ns, ","@)),
                None => None,
            },
            Seq::empty(),
            setting,
        ) == Ok::<MetaView, (ErrorKind, Seq<char>)>(m),
{
    crate::meta::lemma_full_key_round_trip(m);
    reveal_strlit(",");
    if let Some(ns) = m.state {
        assert forall|i: int, j: int| 0 <= i < ns.len() && 0 <= j < ns[i].len() implies ns[i][j] != ',' by {
            if ns[i][j] == ',' {
                assert(ns[i].contains(','));
            }
        }
        assert(","@ =~= seq![',']);
        crate::text::lemma_split_join(ns, ',');
        crate::text::lemma_join_not_empty(ns, ","@);
        lemma_first_repeat_none(ns);
        assert(spec_state_names(join_with(ns, ","@)) == Some(ns));
        assert(spec_names_error(Some(ns), spec_full_key(m)) is None);
    }
}

/// The view of a result of a parsed setting.
pub open spec fn setting_result_view(r: Result<MetaSetting, String>) -> Result<MetaSettingView, Seq<char>> {
    match r {
        Ok(s) => Ok(s@),
        Err(e) => Err(e@),
    }
}

impl RawMeta {
    pub fn has_states(&self) -> (r: bool)
        ensures
            r == self.states is Some,
    {
        self.states.is_some()
    }

    /// A stored meta for `m`: its full key, version and state names, the
    /// given config (its setting as JSON), flag 0, created at `now`.
    pub fn from_meta(m: &Meta, config: String, now: i64) -> (r: RawMeta)
        ensures
            r.full_key@ == spec_full_key(m@),
            r.description is None,
            r.version == m.version,
            crate::text::opt_view(r.states) == match m.state {
                Some(v) => Some(join_with(views(v@), ","@)),
                None => None::<Seq<char>>,
            },
            r.fields is None,
            r.config == config,
            r.flag == 0,
            r.create_time == now,
    {
        RawMeta {
            full_key: m.get_full_key(),
            description: None,
            version: m.version,
            states: match &m.state {
                Some(x) => Some(join_strings(x, ",")),
                None => None,
            },
            fields: None,
            config,
            flag: 0,
            create_time: now,
        }
    }

    /// Checks that no state name repeats; the first repeat is reported.
    pub fn check_name(&self, names: &Vec<String>) -> (r: Result<(), NatureError>)
        ensures
            r is Ok <==> views(names@).no_duplicates(),
            err_view(r) == match spec_names_error(Some(views(names@)), self.full_key@) {
                Some(m) => Some((ErrorKind::VerifyError, m)),
                None => None,
            },
    {
        let ghost ns = views(names@);
        let mut seen: Vec<String> = Vec::new();
        let mut i: usize = 0;
        while i < names.len()
            invariant
                0 <= i <= names.len(),
                ns == views(names@),
                views(seen@) == ns.take(i as int),
                spec_first_repeat(ns.take(i as int)) is None,
            decreases names.len() - i,
        {
            let n = &names[i];
            proof {
                crate::text::lemma_has_name_views(seen@, n@);
                assert(ns[i as int] == n@);
            }
            if crate::selector::contains_name(&seen, n) {
                let msg = "repeated state name: ".to_string().concat(debug_str(n.as_str()).as_str())
                    .concat(", for `Meta`: ").concat(debug_str(self.full_key.as_str()).as_str());
                proof {
                    assert(ns.take(i + 1).drop_last() == ns.take(i as int));
                    assert(spec_first_repeat(ns.take(i + 1)) == Some(i as int));
                    lemma_first_repeat_prefix(ns, i + 1);
                    lemma_first_repeat_none(ns);
                }
                return Err(NatureError::VerifyError(msg));
            }
            let c = n.clone();
            let ghost before = seen@;
            seen.push(c);
            assert(views(seen@) =~= views(before).push(c@));
            assert(ns.take(i + 1) =~= ns.take(i as int).push(ns[i as int]));
            assert(ns.take(i + 1).drop_last() == ns.take(i as int));
            i = i + 1;
        }
        proof {
            assert(ns.take(names.len() as int) == ns);
            lemma_first_repeat_none(ns);
        }
        Ok(())
    }

    /// The meta this stored meta stands for. `setting` is the config parsed as
    /// JSON, or the parser's description of why it could not be; it is read only
    /// when the config is not empty.
    pub fn try_into(self, setting: Result<MetaSetting, String>) -> (r: Result<Meta, NatureError>)
        ensures
            crate::relation::meta_result_view(r) == spec_raw_meta_into(
                self.full_key@,
                self.version,
                crate::text::opt_view(self.states),
                self.config@,
                setting_result_view(setting),
            ),
    {
        let mut rtn = Meta::from_full_key(self.full_key.as_str(), self.version)?;
        if let Some(s) = &self.states {
            if !s.as_str().is_empty() {
                let names = split_str(s.as_str(), ',');
                match self.check_name(&names) {
                    Ok(()) => {},
                    Err(e) => {
                        return Err(e);
                    },
                }
                rtn.state = Some(names);
            }
        }
        if !self.config.as_str().is_empty() {
            let setting = match setting {
                Ok(st) => st,
                Err(e) => return Err(NatureError::VerifyError(e)),
            };
            if setting.is_state {
                rtn.is_state = true;
            }
            rtn.setting = Some(setting);
        }
        if rtn.state.is_some() {
            rtn.is_state = true;
        }
        Ok(rtn)
    }
}

} // verus!
