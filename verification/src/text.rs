//! Decimal and hexadecimal text of integers.

use vstd::prelude::*;
use vstd::string::StringExecFns;

verus! {

/// The digits, lowest first, used for bases up to sixteen.
pub open spec fn digit_char(d: int) -> char {
    seq!['0', '1', '2', '3', '4', '5', '6', '7', '8', '9', 'a', 'b', 'c', 'd', 'e', 'f'][d]
}

/// The digits of `n` in base `b`, most significant first, without leading zeros ("0" for zero).
pub open spec fn digits(n: nat, b: nat) -> Seq<char>
    recommends
        2 <= b <= 16,
    decreases n,
{
    if n < b || b < 2 {
        seq![digit_char(n as int)]
    } else {
        proof {
            assert(n / b < n) by (nonlinear_arith)
                requires
                    n >= b,
                    b >= 2,
            ;
        }
        digits(n / b, b).push(digit_char((n % b) as int))
    }
}

/// The decimal text of `i`, with a leading `-` when it is negative.
pub open spec fn int_text(i: int) -> Seq<char> {
    if i < 0 {
        seq!['-'] + digits((-i) as nat, 10)
    } else {
        digits(i as nat, 10)
    }
}

/// The lowercase hexadecimal text of `n`, without leading zeros.
pub open spec fn hex_text(n: nat) -> Seq<char> {
    digits(n, 16)
}

/// The decimal text of an integer, as `Display` writes it.
#[verifier::external_body]
pub(crate) fn i64_text(v: i64) -> (s: String)
    ensures
        s@ == int_text(v as int),
{
    v.to_string()
}

/// The decimal text of a size, as `Display` writes it.
#[verifier::external_body]
pub(crate) fn usize_text(v: usize) -> (s: String)
    ensures
        s@ == int_text(v as int),
{
    v.to_string()
}

/// The lowercase hexadecimal text of an integer, as `{:x}` writes it.
#[verifier::external_body]
pub(crate) fn u128_hex(v: u128) -> (s: String)
    ensures
        s@ == hex_text(v as nat),
{
    format!("{:x}", v)
}

/// Whether `c` is a decimal digit.
pub open spec fn is_digit(c: char) -> bool {
    '0' <= c <= '9'
}

/// The value of a run of decimal digits (zero for the empty run).
pub open spec fn digits_value(s: Seq<char>) -> nat
    decreases s.len(),
{
    if s.len() == 0 {
        0
    } else {
        digits_value(s.drop_last()) * 10 + ((s.last() as int - '0' as int) as nat)
    }
}

/// The number that `s` denotes as an optional sign followed by at least one decimal digit.
pub open spec fn spec_signed_value(s: Seq<char>) -> Option<int> {
    let (neg, body) = if s.len() > 0 && (s[0] == '-' || s[0] == '+') {
        (s[0] == '-', s.subrange(1, s.len() as int))
    } else {
        (false, s)
    };
    if body.len() > 0 && (forall|i: int| 0 <= i < body.len() ==> is_digit(#[trigger] body[i])) {
        Some(if neg { -(digits_value(body) as int) } else { digits_value(body) as int })
    } else {
        None
    }
}

/// What `str::parse::<i64>` gives for `s`: the signed value when it is well formed and in range.
pub open spec fn spec_parse_i64(s: Seq<char>) -> Option<i64> {
    match spec_signed_value(s) {
        Some(v) => if i64::MIN <= v <= i64::MAX { Some(v as i64) } else { None },
        None => None,
    }
}

/// What `str::parse::<i32>` gives for `s`: the signed value when it is well formed and in range.
pub open spec fn spec_parse_i32(s: Seq<char>) -> Option<i32> {
    match spec_signed_value(s) {
        Some(v) => if i32::MIN <= v <= i32::MAX { Some(v as i32) } else { None },
        None => None,
    }
}

/// `str::parse::<i64>`: an optional `+` or `-`, then decimal digits, in range.
#[verifier::external_body]
pub(crate) fn parse_i64(s: &str) -> (r: Option<i64>)
    ensures
        r == spec_parse_i64(s@),
{
    s.parse::<i64>().ok()
}

/// `str::parse::<i32>`: an optional `+` or `-`, then decimal digits, in range.
#[verifier::external_body]
pub(crate) fn parse_i32(s: &str) -> (r: Option<i32>)
    ensures
        r == spec_parse_i32(s@),
{
    s.parse::<i32>().ok()
}

/// The value of a hexadecimal digit (either case), if `c` is one.
pub open spec fn hex_digit_value(c: char) -> Option<nat> {
    if '0' <= c <= '9' {
        Some((c as int - '0' as int) as nat)
    } else if 'a' <= c <= 'f' {
        Some((c as int - 'a' as int + 10) as nat)
    } else if 'A' <= c <= 'F' {
        Some((c as int - 'A' as int + 10) as nat)
    } else {
        None
    }
}

/// The value of a run of hexadecimal digits, if every character is one.
pub open spec fn hex_digits_value(s: Seq<char>) -> Option<nat>
    decreases s.len(),
{
    if s.len() == 0 {
        Some(0)
    } else {
        match (hex_digits_value(s.drop_last()), hex_digit_value(s.last())) {
            (Some(v), Some(d)) => Some(v * 16 + d),
            _ => None,
        }
    }
}

/// What `u128::from_str_radix(s, 16)` gives: an optional `+`, then at least one
/// hexadecimal digit, the value in range.
pub open spec fn spec_parse_hex_u128(s: Seq<char>) -> Option<u128> {
    let body = if s.len() > 0 && s[0] == '+' { s.subrange(1, s.len() as int) } else { s };
    if body.len() == 0 {
        None
    } else {
        match hex_digits_value(body) {
            Some(v) => if v <= u128::MAX { Some(v as u128) } else { None },
            None => None,
        }
    }
}

/// `u128::from_str_radix(s, 16)`.
#[verifier::external_body]
pub(crate) fn parse_hex_u128(s: &str) -> (r: Option<u128>)
    ensures
        r == spec_parse_hex_u128(s@),
{
    u128::from_str_radix(s, 16).ok()
}

/// The pieces of `s` between the occurrences of `sep`, as `str::split` with a
/// character gives them: one more piece than there are separators.
pub open spec fn split(s: Seq<char>, sep: char) -> Seq<Seq<char>>
    decreases s.len(),
{
    if s.len() == 0 {
        seq![Seq::empty()]
    } else {
        let rest = split(s.drop_last(), sep);
        if s.last() == sep {
            rest.push(Seq::empty())
        } else {
            rest.update(rest.len() - 1, rest.last().push(s.last()))
        }
    }
}

/// A digit below ten is a decimal digit and stands for itself; one from ten
/// on is a lowercase letter `a` to `f` standing for ten and more.
pub proof fn lemma_digit_char(d: int)
    requires
        0 <= d < 16,
    ensures
        d < 10 ==> is_digit(digit_char(d)) && digit_char(d) as int - '0' as int == d,
        d >= 10 ==> 'a' <= digit_char(d) <= 'f' && digit_char(d) as int - 'a' as int + 10 == d,
        hex_digit_value(digit_char(d)) == Some(d as nat),
{
    if d == 0 {
        assert(digit_char(0) == '0');
    } else if d == 1 {
        assert(digit_char(1) == '1');
    } else if d == 2 {
        assert(digit_char(2) == '2');
    } else if d == 3 {
        assert(digit_char(3) == '3');
    } else if d == 4 {
        assert(digit_char(4) == '4');
    } else if d == 5 {
        assert(digit_char(5) == '5');
    } else if d == 6 {
        assert(digit_char(6) == '6');
    } else if d == 7 {
        assert(digit_char(7) == '7');
    } else if d == 8 {
        assert(digit_char(8) == '8');
    } else if d == 9 {
        assert(digit_char(9) == '9');
    } else if d == 10 {
        assert(digit_char(10) == 'a');
    } else if d == 11 {
        assert(digit_char(11) == 'b');
    } else if d == 12 {
        assert(digit_char(12) == 'c');
    } else if d == 13 {
        assert(digit_char(13) == 'd');
    } else if d == 14 {
        assert(digit_char(14) == 'e');
    } else if d == 15 {
        assert(digit_char(15) == 'f');
    }
}

/// The characters of the digits of `n` in base `b`: digits `0`-`9` and letters `a`-`f`,
/// decimal digits alone in base ten; there is at least one.
pub proof fn lemma_digits_chars(n: nat, b: nat)
    requires
        2 <= b <= 16,
    ensures
        digits(n, b).len() > 0,
        forall|i: int| 0 <= i < digits(n, b).len() ==> is_digit(#[trigger] digits(n, b)[i])
            || 'a' <= digits(n, b)[i] <= 'f',
        b == 10 ==> forall|i: int| 0 <= i < digits(n, b).len() ==> is_digit(#[trigger] digits(n, b)[i]),
    decreases n,
{
    if n < b {
        lemma_digit_char(n as int);
    } else {
        assert(n / b < n) by (nonlinear_arith)
            requires
                n >= b,
                b >= 2,
        ;
        lemma_digits_chars(n / b, b);
        assert(0 <= n % b < b) by (nonlinear_arith)
            requires
                b >= 2,
        ;
        lemma_digit_char((n % b) as int);
    }
}

/// The decimal digits of `n` read back as `n`.
pub proof fn lemma_decimal_digits_value(n: nat)
    ensures
        digits_value(digits(n, 10)) == n,
    decreases n,
{
    let s = digits(n, 10);
    if n < 10 {
        lemma_digit_char(n as int);
        assert(s == seq![digit_char(n as int)]);
        assert(s.drop_last() =~= Seq::<char>::empty());
        assert(digits_value(Seq::<char>::empty()) == 0);
    } else {
        lemma_decimal_digits_value(n / 10);
        lemma_digit_char((n % 10) as int);
        assert(s == digits(n / 10, 10).push(digit_char((n % 10) as int)));
        assert(s.drop_last() =~= digits(n / 10, 10));
        assert(s.last() == digit_char((n % 10) as int));
        assert(digits_value(s) == digits_value(digits(n / 10, 10)) * 10 + (n % 10));
        vstd::arithmetic::div_mod::lemma_fundamental_div_mod(n as int, 10);
    }
}

/// The hexadecimal digits of `n` read back as `n`.
pub proof fn lemma_hex_digits_value(n: nat)
    ensures
        hex_digits_value(digits(n, 16)) == Some(n),
    decreases n,
{
    let s = digits(n, 16);
    if n < 16 {
        lemma_digit_char(n as int);
        assert(s == seq![digit_char(n as int)]);
        assert(s.drop_last() =~= Seq::<char>::empty());
        assert(hex_digits_value(Seq::<char>::empty()) == Some(0nat));
    } else {
        lemma_hex_digits_value(n / 16);
        lemma_digit_char((n % 16) as int);
        assert(s == digits(n / 16, 16).push(digit_char((n % 16) as int)));
        assert(s.drop_last() =~= digits(n / 16, 16));
        assert(s.last() == digit_char((n % 16) as int));
        vstd::arithmetic::div_mod::lemma_fundamental_div_mod(n as int, 16);
    }
}

/// The hexadecimal text of a `u128` parses back to it.
pub proof fn lemma_hex_text_parses(n: u128)
    ensures
        spec_parse_hex_u128(hex_text(n as nat)) == Some(n),
{
    lemma_digits_chars(n as nat, 16);
    lemma_hex_digits_value(n as nat);
    let s = hex_text(n as nat);
    assert(s[0] != '+');
}

/// The decimal text of an `i32` parses back to it.
pub proof fn lemma_int_text_parses(v: i32)
    ensures
        spec_parse_i32(int_text(v as int)) == Some(v),
{
    let s = int_text(v as int);
    if v < 0 {
        let m = (-v) as nat;
        lemma_digits_chars(m, 10);
        lemma_decimal_digits_value(m);
        assert(s.subrange(1, s.len() as int) =~= digits(m, 10));
    } else {
        lemma_digits_chars(v as nat, 10);
        lemma_decimal_digits_value(v as nat);
        assert(is_digit(s[0]));
    }
}

/// A text without the separator is one piece.
pub proof fn lemma_split_single(x: Seq<char>, sep: char)
    requires
        forall|i: int| 0 <= i < x.len() ==> x[i] != sep,
    ensures
        split(x, sep) == seq![x],
    decreases x.len(),
{
    if x.len() == 0 {
        assert(x =~= Seq::<char>::empty());
    } else {
        lemma_split_single(x.drop_last(), sep);
        assert(x.last() == x[x.len() - 1]);
        assert(x.drop_last().push(x.last()) =~= x);
        assert(seq![x.drop_last()].update(0, x.drop_last().push(x.last())) =~= seq![x]);
    }
}

/// There is always at least one piece.
pub proof fn lemma_split_nonempty(s: Seq<char>, sep: char)
    ensures
        split(s, sep).len() >= 1,
    decreases s.len(),
{
    if s.len() > 0 {
        lemma_split_nonempty(s.drop_last(), sep);
    }
}

/// Splitting two texts joined by the separator gives the pieces of the first, then those of the second.
pub proof fn lemma_split_concat(x: Seq<char>, y: Seq<char>, sep: char)
    ensures
        split(x + seq![sep] + y, sep) == split(x, sep) + split(y, sep),
    decreases y.len(),
{
    let z = x + seq![sep] + y;
    if y.len() == 0 {
        assert(z.drop_last() =~= x);
        assert(split(y, sep) == seq![Seq::<char>::empty()]);
        assert(split(x, sep).push(Seq::<char>::empty()) =~= split(x, sep) + seq![Seq::<char>::empty()]);
    } else {
        assert(z.drop_last() =~= x + seq![sep] + y.drop_last());
        assert(z.last() == y.last());
        lemma_split_concat(x, y.drop_last(), sep);
        lemma_split_nonempty(y.drop_last(), sep);
        let a = split(x, sep);
        let b = split(y.drop_last(), sep);
        if y.last() == sep {
            assert((a + b).push(Seq::<char>::empty()) =~= a + b.push(Seq::<char>::empty()));
        } else {
            let c = y.last();
            assert((a + b).last() == b.last());
            assert((a + b).update((a + b).len() - 1, (a + b).last().push(c)) =~= a + b.update(b.len() - 1, b.last().push(c)));
        }
    }
}

/// The names of `s` without repeats: each kept where it first occurs.
pub open spec fn spec_dedup_names(s: Seq<Seq<char>>) -> Seq<Seq<char>>
    decreases s.len(),
{
    if s.len() == 0 {
        Seq::empty()
    } else {
        let rest = spec_dedup_names(s.drop_last());
        if rest.contains(s.last()) {
            rest
        } else {
            rest.push(s.last())
        }
    }
}

/// Names without repeats are kept as they are.
pub proof fn lemma_dedup_distinct(s: Seq<Seq<char>>)
    requires
        s.no_duplicates(),
    ensures
        spec_dedup_names(s) == s,
    decreases s.len(),
{
    if s.len() > 0 {
        let p = s.drop_last();
        assert(p.no_duplicates()) by {
            assert forall|a: int, b: int| 0 <= a < p.len() && 0 <= b < p.len() && a != b implies p[a] != p[b] by {
                assert(p[a] == s[a] && p[b] == s[b]);
            }
        }
        lemma_dedup_distinct(p);
        if p.contains(s.last()) {
            let k = choose|k: int| 0 <= k < p.len() && p[k] == s.last();
            assert(s[k] == s[s.len() - 1]);
        }
        assert(p.push(s.last()) =~= s);
    }
}

/// The strings of `v` without repeats, each kept where it first occurs.
pub fn dedup_names(v: Vec<String>) -> (r: Vec<String>)
    ensures
        views(r@) == spec_dedup_names(views(v@)),
{
    let ghost vs = views(v@);
    let mut r: Vec<String> = Vec::new();
    let mut i: usize = 0;
    assert(vs.take(0) =~= Seq::<Seq<char>>::empty());
    assert(views(r@) =~= Seq::<Seq<char>>::empty());
    while i < v.len()
        invariant
            0 <= i <= v.len(),
            vs == views(v@),
            views(r@) == spec_dedup_names(vs.take(i as int)),
        decreases v.len() - i,
    {
        proof {
            assert(vs.take(i + 1).drop_last() == vs.take(i as int));
            assert(vs.take(i + 1).last() == v@[i as int]@);
            lemma_has_name_views(r@, v@[i as int]@);
        }
        if !crate::selector::contains_name(&r, &v[i]) {
            let c = v[i].clone();
            let ghost before = r@;
            r.push(c);
            assert(views(r@) =~= views(before).push(c@));
        }
        i = i + 1;
    }
    assert(vs.take(v.len() as int) == vs);
    r
}

/// The views of a sequence of strings.
pub open spec fn views(v: Seq<String>) -> Seq<Seq<char>> {
    v.map_values(|x: String| x@)
}

/// The view of an optional string.
pub open spec fn opt_view(v: Option<String>) -> Option<Seq<char>> {
    match v {
        Some(s) => Some(s@),
        None => None,
    }
}

/// The views of an optional list of strings.
pub open spec fn opt_views(v: Option<Vec<String>>) -> Option<Seq<Seq<char>>> {
    match v {
        Some(s) => Some(views(s@)),
        None => None,
    }
}

/// `has_name` is membership of the view among the views.
pub proof fn lemma_has_name_views(v: Seq<String>, k: Seq<char>)
    ensures
        crate::selector::has_name(v, k) == views(v).contains(k),
{
    if crate::selector::has_name(v, k) {
        let i = choose|i: int| 0 <= i < v.len() && #[trigger] v[i]@ == k;
        assert(views(v)[i] == k);
    }
    if views(v).contains(k) {
        let i = choose|i: int| 0 <= i < views(v).len() && views(v)[i] == k;
        assert(v[i]@ == k);
    }
}

/// A copy of a list of strings.
pub fn clone_strings(v: &Vec<String>) -> (r: Vec<String>)
    ensures
        r@ == v@,
{
    let r = v.clone();
    assert(r@ =~= v@);
    r
}

/// A copy of an optional string.
pub fn clone_opt_string(v: &Option<String>) -> (r: Option<String>)
    ensures
        r == *v,
        opt_view(r) == opt_view(*v),
{
    match v {
        Some(s) => Some(s.clone()),
        None => None,
    }
}

/// A copy of an optional list of strings.
pub fn clone_opt_strings(v: &Option<Vec<String>>) -> (r: Option<Vec<String>>)
    ensures
        opt_views(r) == opt_views(*v),
{
    match v {
        Some(s) => Some(clone_strings(s)),
        None => None,
    }
}

/// The first position at or after `i` where `sep` occurs in `s`; an empty `sep` occurs nowhere.
pub open spec fn find_from(s: Seq<char>, sep: Seq<char>, i: int) -> Option<int>
    decreases s.len() - i,
{
    if sep.len() == 0 || i < 0 || i + sep.len() > s.len() {
        None
    } else if s.subrange(i, i + sep.len() as int) == sep {
        Some(i)
    } else {
        find_from(s, sep, i + 1)
    }
}

pub proof fn lemma_find_from_bounds(s: Seq<char>, sep: Seq<char>, i: int)
    ensures
        find_from(s, sep, i) matches Some(j) ==> i <= j && j + sep.len() <= s.len() && sep.len() > 0,
    decreases s.len() - i,
{
    if !(sep.len() == 0 || i < 0 || i + sep.len() > s.len()) && s.subrange(i, i + sep.len() as int) != sep {
        lemma_find_from_bounds(s, sep, i + 1);
    }
}

/// The pieces of `s` from `start` on, between the occurrences of `sep`, leftmost first.
pub open spec fn split_from(s: Seq<char>, sep: Seq<char>, start: int) -> Seq<Seq<char>>
    recommends
        0 <= start <= s.len(),
    decreases s.len() - start,
{
    match find_from(s, sep, start) {
        None => seq![s.subrange(start, s.len() as int)],
        Some(i) => {
            proof {
                lemma_find_from_bounds(s, sep, start);
            }
            seq![s.subrange(start, i)] + split_from(s, sep, i + sep.len())
        },
    }
}

/// The pieces of `s` between the occurrences of the text `sep`, as `str::split`
/// with a non-empty text gives them; an empty `sep` leaves `s` whole.
pub open spec fn split_by(s: Seq<char>, sep: Seq<char>) -> Seq<Seq<char>> {
    split_from(s, sep, 0)
}

/// Whether `sep` occurs in `c` at `pos`.
fn matches_at(c: &Vec<char>, sep: &Vec<char>, pos: usize) -> (r: bool)
    requires
        pos + sep@.len() <= c@.len(),
    ensures
        r == (c@.subrange(pos as int, pos + sep@.len()) == sep@),
{
    let n = c.len();
    let mut k: usize = 0;
    while k < sep.len()
        invariant
            0 <= k <= sep.len(),
            n == c@.len(),
            pos + sep@.len() <= c@.len(),
            forall|j: int| 0 <= j < k ==> c@[pos + j] == sep@[j],
        decreases sep.len() - k,
    {
        if c[pos + k] != sep[k] {
            assert(c@.subrange(pos as int, pos + sep@.len())[k as int] != sep@[k as int]);
            return false;
        }
        k = k + 1;
    }
    assert(c@.subrange(pos as int, pos + sep@.len()) =~= sep@);
    true
}

/// Splits `s` at each occurrence of the text `sep`, leftmost first; an empty `sep` leaves `s` whole.
pub fn split_by_str(s: &str, sep: &str) -> (r: Vec<String>)
    ensures
        views(r@) == split_by(s@, sep@),
{
    let c = str_chars(s);
    let p = str_chars(sep);
    let mut parts: Vec<String> = Vec::new();
    if p.len() == 0 {
        parts.push(s.to_string());
        proof {
            assert(split_by(s@, sep@) == seq![s@.subrange(0, s@.len() as int)]);
            assert(s@.subrange(0, s@.len() as int) =~= s@);
            assert(views(parts@) =~= seq![s@]);
        }
        return parts;
    }
    let mut start: usize = 0;
    let mut pos: usize = 0;
    while pos <= c.len() && c.len() - pos >= p.len()
        invariant
            c@ == s@,
            p@ == sep@,
            p@.len() > 0,
            0 <= start <= pos <= c@.len(),
            views(parts@) + split_from(c@, p@, start as int) == split_by(c@, p@),
            find_from(c@, p@, start as int) == find_from(c@, p@, pos as int),
        decreases c.len() - pos,
    {
        if matches_at(&c, &p, pos) {
            let piece = chars_to_string(vstd::slice::slice_subrange(c.as_slice(), start, pos));
            let ghost before = parts@;
            parts.push(piece);
            proof {
                assert(find_from(c@, p@, pos as int) == Some(pos as int));
                assert(split_from(c@, p@, start as int) == seq![c@.subrange(start as int, pos as int)] + split_from(c@, p@, pos + p@.len()));
                assert(views(parts@) =~= views(before).push(piece@));
                assert(views(parts@) + split_from(c@, p@, pos + p@.len()) =~= views(before) + (seq![piece@] + split_from(c@, p@, pos + p@.len())));
            }
            pos = pos + p.len();
            start = pos;
        } else {
            assert(find_from(c@, p@, pos as int) == find_from(c@, p@, pos + 1));
            pos = pos + 1;
        }
    }
    assert(find_from(c@, p@, pos as int) is None);
    let piece = chars_to_string(vstd::slice::slice_subrange(c.as_slice(), start, c.len()));
    let ghost before = parts@;
    parts.push(piece);
    proof {
        assert(split_from(c@, p@, start as int) == seq![c@.subrange(start as int, c@.len() as int)]);
        assert(views(parts@) =~= views(before).push(piece@));
        assert(views(parts@) =~= views(before) + split_from(c@, p@, start as int));
    }
    parts
}

/// Joins pieces with `sep` between them.
pub open spec fn join_with(pieces: Seq<Seq<char>>, sep: Seq<char>) -> Seq<char>
    decreases pieces.len(),
{
    if pieces.len() == 0 {
        Seq::empty()
    } else if pieces.len() == 1 {
        pieces[0]
    } else {
        join_with(pieces.drop_last(), sep) + sep + pieces.last()
    }
}

/// Splitting pieces joined by a separator that none of them holds gives the pieces back.
pub proof fn lemma_split_join(pieces: Seq<Seq<char>>, sep: char)
    requires
        pieces.len() > 0,
        forall|i: int, j: int| 0 <= i < pieces.len() && 0 <= j < pieces[i].len() ==> pieces[i][j] != sep,
    ensures
        split(join_with(pieces, seq![sep]), sep) == pieces,
    decreases pieces.len(),
{
    if pieces.len() == 1 {
        assert forall|j: int| 0 <= j < pieces[0].len() implies pieces[0][j] != sep by {}
        lemma_split_single(pieces[0], sep);
        assert(seq![pieces[0]] =~= pieces);
    } else {
        let p = pieces.drop_last();
        assert forall|i: int, j: int| 0 <= i < p.len() && 0 <= j < p[i].len() implies p[i][j] != sep by {
            assert(p[i] == pieces[i]);
        }
        lemma_split_join(p, sep);
        let l = pieces.last();
        assert forall|j: int| 0 <= j < l.len() implies l[j] != sep by {
            assert(l == pieces[pieces.len() - 1]);
        }
        lemma_split_single(l, sep);
        lemma_split_concat(join_with(p, seq![sep]), l, sep);
        assert(p + seq![l] =~= pieces);
    }
}

/// Pieces joined are not empty when the first piece is not.
pub proof fn lemma_join_not_empty(pieces: Seq<Seq<char>>, sep: Seq<char>)
    requires
        pieces.len() > 0,
        pieces[0].len() > 0,
    ensures
        join_with(pieces, sep).len() > 0,
    decreases pieces.len(),
{
    if pieces.len() > 1 {
        assert(pieces.drop_last()[0] == pieces[0]);
        lemma_join_not_empty(pieces.drop_last(), sep);
    }
}

/// Joins strings with `sep` between them.
pub fn join_strings(pieces: &Vec<String>, sep: &str) -> (r: String)
    ensures
        r@ == join_with(views(pieces@), sep@),
{
    let mut r = String::new();
    let mut i: usize = 0;
    while i < pieces.len()
        invariant
            0 <= i <= pieces.len(),
            r@ == join_with(views(pieces@).take(i as int), sep@),
        decreases pieces.len() - i,
    {
        proof {
            assert(views(pieces@).take(i + 1).drop_last() == views(pieces@).take(i as int));
            assert(views(pieces@).take(i + 1).last() == pieces@[i as int]@);
        }
        if i == 0 {
            r = pieces[0].clone();
            assert(views(pieces@).take(1) =~= seq![pieces@[0]@]);
        } else {
            r = r.concat(sep).concat(pieces[i].as_str());
        }
        i = i + 1;
    }
    assert(views(pieces@).take(pieces.len() as int) == views(pieces@));
    r
}

/// The characters of a string.
pub fn str_chars(s: &str) -> (r: Vec<char>)
    ensures
        r@ == s@,
{
    broadcast use vstd::string::group_string_axioms;
    let mut r: Vec<char> = Vec::new();
    for c in it: s.chars()
        invariant
            r@ == it.seq().take(it.index() as int),
    {
        r.push(c);
    }
    r
}

/// The string made of the characters of `c`, as `String::from_iter` builds it.
#[verifier::external_body]
pub(crate) fn chars_to_string(c: &[char]) -> (r: String)
    ensures
        r@ == c@,
{
    String::from_iter(c)
}

/// Splits `s` at each `sep`, as `str::split` does.
pub fn split_str(s: &str, sep: char) -> (r: Vec<String>)
    ensures
        views(r@) == split(s@, sep),
{
    let chars = str_chars(s);
    let mut parts: Vec<String> = Vec::new();
    let mut cur: Vec<char> = Vec::new();
    let mut i: usize = 0;
    while i < chars.len()
        invariant
            0 <= i <= chars.len(),
            chars@ == s@,
            views(parts@).push(cur@) == split(chars@.take(i as int), sep),
        decreases chars.len() - i,
    {
        let ghost before = chars@.take(i as int);
        assert(chars@.take(i + 1).drop_last() == before);
        proof {
            lemma_split_nonempty(before, sep);
        }
        if chars[i] == sep {
            let piece = chars_to_string(cur.as_slice());
            assert(cur@.subrange(0, cur@.len() as int) == cur@);
            parts.push(piece);
            cur = Vec::new();
            assert(views(parts@) == views(parts@).drop_last().push(piece@));
        } else {
            cur.push(chars[i]);
        }
        i = i + 1;
    }
    assert(chars@.take(chars.len() as int) == chars@);
    let piece = chars_to_string(cur.as_slice());
            assert(cur@.subrange(0, cur@.len() as int) == cur@);
    parts.push(piece);
    assert(views(parts@) == views(parts@).drop_last().push(piece@));
    parts
}

} // verus!
