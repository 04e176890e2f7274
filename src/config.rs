//! The naming convention of redirect keys, and lookup in a configuration.
//!
//! A configuration is a list of `(key, value)` entries. A redirect named
//! `NAME` is given by the two keys `REDIRECT_NAME_FROM` (its pattern) and
//! `REDIRECT_NAME_TO` (its replacement template).

use vstd::prelude::*;

verus! {

/// The fixed start of every redirect key.
pub open spec fn key_prefix() -> Seq<char> {
    seq!['R', 'E', 'D', 'I', 'R', 'E', 'C', 'T', '_']
}

/// The fixed end of a key that holds a pattern.
pub open spec fn from_suffix() -> Seq<char> {
    seq!['_', 'F', 'R', 'O', 'M']
}

/// The fixed end of a key that holds a replacement template.
pub open spec fn to_suffix() -> Seq<char> {
    seq!['_', 'T', 'O']
}

/// `key` is `REDIRECT_<NAME>_FROM`, the prefix and the suffix not overlapping.
pub open spec fn is_from_key(key: Seq<char>) -> bool {
    &&& key.len() >= key_prefix().len() + from_suffix().len()
    &&& key.subrange(0, key_prefix().len() as int) == key_prefix()
    &&& key.subrange(key.len() - from_suffix().len(), key.len() as int) == from_suffix()
}

/// The `<NAME>` of a key `REDIRECT_<NAME>_FROM`.
pub open spec fn name_of(from_key: Seq<char>) -> Seq<char> {
    from_key.subrange(key_prefix().len() as int, from_key.len() - from_suffix().len())
}

/// The key `REDIRECT_<NAME>_TO` paired with `REDIRECT_<NAME>_FROM`.
pub open spec fn to_key_of(from_key: Seq<char>) -> Seq<char> {
    key_prefix() + name_of(from_key) + to_suffix()
}

/// The view of a configuration: its entries in order.
pub open spec fn entries_view(config: Seq<(String, String)>) -> Seq<(Seq<char>, Seq<char>)> {
    config.map_values(|e: (String, String)| (e.0@, e.1@))
}

/// The value of the first entry of `entries` whose key is `key`.
pub open spec fn lookup(entries: Seq<(Seq<char>, Seq<char>)>, key: Seq<char>) -> Option<Seq<char>>
    decreases entries.len(),
{
    if entries.len() == 0 {
        None
    } else {
        match lookup(entries.drop_last(), key) {
            Some(v) => Some(v),
            None => if entries.last().0 == key {
                Some(entries.last().1)
            } else {
                None
            },
        }
    }
}

/// Whether `s` starts with `pre` at position `at`, character by character.
fn has_at(s: &str, at: usize, pre: &str) -> (r: bool)
    requires
        at + pre@.len() <= s@.len(),
    ensures
        r == (s@.subrange(at as int, at + pre@.len()) == pre@),
{
    let n = pre.unicode_len();
    let len = s.unicode_len();
    let mut i: usize = 0;
    while i < n
        invariant
            n == pre@.len(),
            len == s@.len(),
            at + n <= s@.len(),
            i <= n,
            s@.subrange(at as int, at + i) == pre@.subrange(0, i as int),
        decreases n - i,
    {
        if s.get_char(at + i) != pre.get_char(i) {
            assert(s@.subrange(at as int, at + n)[i as int] != pre@[i as int]);
            return false;
        }
        assert(s@.subrange(at as int, at + i + 1) =~= pre@.subrange(0, i + 1));
        i = i + 1;
    }
    assert(pre@.subrange(0, n as int) =~= pre@);
    true
}

/// Whether `key` names the pattern of a redirect (`REDIRECT_<NAME>_FROM`).
pub fn is_from_key_str(key: &str) -> (r: bool)
    ensures
        r == is_from_key(key@),
{
    proof {
        reveal_strlit("REDIRECT_");
        reveal_strlit("_FROM");
    }
    let n = key.unicode_len();
    if n < 14 {
        return false;
    }
    let p = has_at(key, 0, "REDIRECT_");
    let s = has_at(key, n - 5, "_FROM");
    assert("REDIRECT_"@ =~= key_prefix());
    assert("_FROM"@ =~= from_suffix());
    p && s
}

/// The key `REDIRECT_<NAME>_TO` that pairs with the key `REDIRECT_<NAME>_FROM`.
pub fn to_key_for(from_key: &str) -> (r: String)
    requires
        is_from_key(from_key@),
    ensures
        r@ == to_key_of(from_key@),
{
    proof {
        reveal_strlit("REDIRECT_");
        reveal_strlit("_TO");
    }
    let n = from_key.unicode_len();
    let name = from_key.substring_char(9, n - 5);
    let mut r = String::from_str("REDIRECT_");
    r.append(name);
    r.append("_TO");
    assert(r@ =~= to_key_of(from_key@));
    r
}

/// The index of the first entry whose key is `key`, if there is one.
pub fn find_key(config: &Vec<(String, String)>, key: &String) -> (r: Option<usize>)
    ensures
        match r {
            Some(i) => i < config.len() && lookup(entries_view(config@), key@) == Some(
                config@[i as int].1@,
            ),
            None => lookup(entries_view(config@), key@) is None,
        },
{
    let ghost es = entries_view(config@);
    let mut i: usize = 0;
    while i < config.len()
        invariant
            i <= config.len(),
            es == entries_view(config@),
            lookup(es.subrange(0, i as int), key@) is None,
        decreases config.len() - i,
    {
        assert(es.subrange(0, i + 1).drop_last() =~= es.subrange(0, i as int));
        if config[i].0 == *key {
            proof { lemma_lookup_prefix(es, key@, i + 1); }
            return Some(i);
        }
        i = i + 1;
    }
    assert(es.subrange(0, i as int) =~= es);
    None
}

/// Once a prefix of the entries holds `key`, the whole of them gives the same value.
proof fn lemma_lookup_prefix(es: Seq<(Seq<char>, Seq<char>)>, key: Seq<char>, n: int)
    requires
        0 <= n <= es.len(),
        lookup(es.subrange(0, n), key) is Some,
    ensures
        lookup(es, key) == lookup(es.subrange(0, n), key),
    decreases es.len() - n,
{
    if n < es.len() {
        assert(es.subrange(0, n + 1).drop_last() =~= es.subrange(0, n));
        lemma_lookup_prefix(es, key, n + 1);
    } else {
        assert(es.subrange(0, n) =~= es);
    }
}

} // verus!

verus! {

/// `a` comes before `b` or equals it, comparing characters in order.
pub open spec fn key_le(a: Seq<char>, b: Seq<char>) -> bool
    decreases a.len(),
{
    if a.len() == 0 {
        true
    } else if b.len() == 0 {
        false
    } else if (a[0] as u32) != (b[0] as u32) {
        (a[0] as u32) < (b[0] as u32)
    } else {
        key_le(a.drop_first(), b.drop_first())
    }
}

/// The entries are in order of their keys.
pub open spec fn sorted_by_key(es: Seq<(String, String)>) -> bool {
    forall|i: int, j: int| 0 <= i < j < es.len() ==> key_le(#[trigger] es[i].0@, #[trigger] es[j].0@)
}

proof fn lemma_key_le_total(a: Seq<char>, b: Seq<char>)
    ensures
        key_le(a, b) || key_le(b, a),
    decreases a.len(),
{
    if a.len() > 0 && b.len() > 0 && (a[0] as u32) == (b[0] as u32) {
        lemma_key_le_total(a.drop_first(), b.drop_first());
    }
}

proof fn lemma_key_le_trans(a: Seq<char>, b: Seq<char>, c: Seq<char>)
    requires
        key_le(a, b),
        key_le(b, c),
    ensures
        key_le(a, c),
    decreases a.len(),
{
    if a.len() > 0 && b.len() > 0 && c.len() > 0 && (a[0] as u32) == (b[0] as u32) && (b[0] as u32)
        == (c[0] as u32) {
        lemma_key_le_trans(a.drop_first(), b.drop_first(), c.drop_first());
    }
}

/// Whether `a` comes before `b` or equals it, comparing characters in order.
pub fn key_less_or_equal(a: &str, b: &str) -> (r: bool)
    ensures
        r == key_le(a@, b@),
{
    let na = a.unicode_len();
    let nb = b.unicode_len();
    let mut i: usize = 0;
    assert(a@.skip(0) =~= a@ && b@.skip(0) =~= b@);
    while i < na && i < nb
        invariant
            na == a@.len(),
            nb == b@.len(),
            i <= na,
            i <= nb,
            key_le(a@, b@) == key_le(a@.skip(i as int), b@.skip(i as int)),
        decreases na - i,
    {
        let ca = a.get_char(i);
        let cb = b.get_char(i);
        assert(a@.skip(i as int)[0] == ca && b@.skip(i as int)[0] == cb);
        if (ca as u32) != (cb as u32) {
            return (ca as u32) < (cb as u32);
        }
        assert(a@.skip(i as int).drop_first() =~= a@.skip(i + 1));
        assert(b@.skip(i as int).drop_first() =~= b@.skip(i + 1));
        i = i + 1;
    }
    i == na
}

/// The entries of `config`, ordered by key; entries with equal keys keep
/// their order. Sorting a configuration before compiling it makes the order
/// of its rules independent of the order in which it was read.
pub fn sort_entries(config: Vec<(String, String)>) -> (r: Vec<(String, String)>)
    ensures
        sorted_by_key(r@),
        r@.to_multiset() == config@.to_multiset(),
{
    broadcast use vstd::multiset::group_multiset_axioms;
    let mut out: Vec<(String, String)> = Vec::new();
    let mut rest = config;
    let ghost whole = rest@;
    proof {
        vstd::seq_lib::to_multiset_len(out@);
        vstd::multiset::lemma_multiset_empty_len(out@.to_multiset());
        assert(out@.to_multiset().add(rest@.to_multiset()) =~= whole.to_multiset());
    }
    while rest.len() > 0
        invariant
            sorted_by_key(out@),
            out@.to_multiset().add(rest@.to_multiset()) == whole.to_multiset(),
        decreases rest.len(),
    {
        let ghost old_rest = rest@;
        let ghost old_out = out@;
        let e = rest.remove(0);
        assert(old_rest[0] == e && old_rest.contains(e));
        proof {
            vstd::seq_lib::to_multiset_contains(old_rest, e);
            vstd::seq_lib::to_multiset_remove(old_rest, 0);
        }
        assert(rest@ == old_rest.remove(0));
        let mut p: usize = 0;
        while p < out.len() && key_less_or_equal(out[p].0.as_str(), e.0.as_str())
            invariant
                p <= out.len(),
                forall|q: int| 0 <= q < p ==> key_le(#[trigger] out@[q].0@, e.0@),
            decreases out.len() - p,
        {
            p = p + 1;
        }
        proof {
            if p < out.len() {
                lemma_key_le_total(out@[p as int].0@, e.0@);
                assert forall|q: int| p <= q < out.len() implies key_le(e.0@, #[trigger] out@[q].0@) by {
                    if q > p {
                        lemma_key_le_trans(e.0@, out@[p as int].0@, out@[q].0@);
                    }
                }
            }
        }
        out.insert(p, e);
        assert(out@ == old_out.insert(p as int, e));
        assert forall|i: int, j: int| 0 <= i < j < out@.len() implies key_le(
            #[trigger] out@[i].0@,
            #[trigger] out@[j].0@,
        ) by {
            if j < p {
                assert(out@[i] == old_out[i] && out@[j] == old_out[j]);
            } else if j == p {
                assert(out@[i] == old_out[i]);
            } else if i < p {
                assert(out@[i] == old_out[i] && out@[j] == old_out[j - 1]);
                lemma_key_le_trans(old_out[i].0@, e.0@, old_out[j - 1].0@);
            } else if i == p {
                assert(out@[j] == old_out[j - 1]);
            } else {
                assert(out@[i] == old_out[i - 1] && out@[j] == old_out[j - 1]);
            }
        }
        proof {
            vstd::seq_lib::to_multiset_insert(old_out, p as int, e);
        }
        assert(out@.to_multiset().add(rest@.to_multiset()) =~= old_out.to_multiset().add(
            old_rest.to_multiset(),
        ));
    }
    proof {
        vstd::seq_lib::to_multiset_len(rest@);
        vstd::multiset::lemma_multiset_empty_len(rest@.to_multiset());
        assert(out@.to_multiset() =~= out@.to_multiset().add(rest@.to_multiset()));
    }
    out
}

} // verus!

verus! {

/// The port used when none is configured, or the configured one is not a number.
pub const DEFAULT_PORT: u16 = 3000;

/// `s` is one or more ASCII decimal digits.
pub open spec fn all_digits(s: Seq<char>) -> bool {
    s.len() > 0 && forall|i: int| 0 <= i < s.len() ==> '0' <= #[trigger] s[i] && s[i] <= '9'
}

/// The number that the decimal digits `s` write.
pub open spec fn digits_value(s: Seq<char>) -> int
    decreases s.len(),
{
    if s.len() == 0 {
        0
    } else {
        digits_value(s.drop_last()) * 10 + (s.last() as int - '0' as int)
    }
}

/// The digits of `s`, a leading `+` left aside.
pub open spec fn unsigned_digits(s: Seq<char>) -> Seq<char> {
    if s.len() > 0 && s[0] == '+' {
        s.drop_first()
    } else {
        s
    }
}

/// `s` read as a `u16`: an optional `+` and decimal digits whose value fits.
pub open spec fn parsed_u16(s: Seq<char>) -> Option<u16> {
    let d = unsigned_digits(s);
    if all_digits(d) && digits_value(d) <= u16::MAX {
        Some(digits_value(d) as u16)
    } else {
        None
    }
}

/// Relies on `<u16 as FromStr>::from_str`: it accepts an optional `+` sign
/// followed by decimal digits only, and fails when the value overflows.
#[verifier::external_body]
fn parse_u16(s: &str) -> (r: Option<u16>)
    ensures
        r == parsed_u16(s@),
{
    s.parse::<u16>().ok()
}

/// The listening port: `value` read as a number, or `DEFAULT_PORT` if it is
/// absent or not a number.
pub fn listen_port(value: Option<&str>) -> (r: u16)
    ensures
        r == match value {
            Some(s) => match parsed_u16(s@) {
                Some(p) => p,
                None => DEFAULT_PORT,
            },
            None => DEFAULT_PORT,
        },
{
    match value {
        Some(s) => match parse_u16(s) {
            Some(p) => p,
            None => DEFAULT_PORT,
        },
        None => DEFAULT_PORT,
    }
}

} // verus!
