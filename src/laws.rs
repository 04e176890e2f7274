//! Properties of compilation and routing, proved over their specifications.

use vstd::prelude::*;
use crate::config::{from_suffix, is_from_key, key_prefix, lookup, to_key_of, to_suffix};
use crate::pattern::{compiles, is_match_of, replace_all_of};
use crate::router::{first_match, first_match_from, route_location};
use crate::rule::{compiled_rules, rule_of_entry, rules_upto, RuleSpec};

verus! {

/// Scanning from `start`, a rule that matches at `i` means that some rule at
/// or before `i` is the first to match.
proof fn lemma_first_match_at_or_before(rules: Seq<RuleSpec>, subject: Seq<char>, start: int, i: int)
    requires
        0 <= start <= i < rules.len(),
        is_match_of(rules[i].pattern, subject),
    ensures
        first_match_from(rules, subject, start) matches Some(k) && start <= k <= i
            && is_match_of(rules[k].pattern, subject)
            && forall|j: int| start <= j < k ==> !is_match_of(#[trigger] rules[j].pattern, subject),
    decreases i - start,
{
    if !is_match_of(rules[start].pattern, subject) {
        lemma_first_match_at_or_before(rules, subject, start + 1, i);
    }
}

/// A subject that some rule matches is redirected, and the location is the
/// substitution of the first matching rule over that subject.
pub proof fn lemma_match_redirects(rules: Seq<RuleSpec>, subject: Seq<char>, i: int)
    requires
        0 <= i < rules.len(),
        is_match_of(rules[i].pattern, subject),
    ensures
        first_match(rules, subject) matches Some(k) && 0 <= k <= i
            && is_match_of(rules[k].pattern, subject)
            && (forall|j: int| 0 <= j < k ==> !is_match_of(#[trigger] rules[j].pattern, subject))
            && route_location(rules, subject) == Some(
            replace_all_of(rules[k].pattern, subject, rules[k].replacement),
        ),
{
    lemma_first_match_at_or_before(rules, subject, 0, i);
}

/// A single rule whose pattern matches the subject redirects it to the
/// substitution of that rule over the subject.
pub proof fn lemma_single_rule_redirects(rule: RuleSpec, subject: Seq<char>)
    requires
        is_match_of(rule.pattern, subject),
    ensures
        route_location(seq![rule], subject) == Some(
            replace_all_of(rule.pattern, subject, rule.replacement),
        ),
{
    lemma_match_redirects(seq![rule], subject, 0);
}

/// First match wins: when an earlier rule `i` and a later rule `j` both match
/// the subject, the rule used is never `j`, and it is `i` unless a rule
/// before `i` matches as well.
pub proof fn lemma_first_match_wins(rules: Seq<RuleSpec>, subject: Seq<char>, i: int, j: int)
    requires
        0 <= i < j < rules.len(),
        is_match_of(rules[i].pattern, subject),
        is_match_of(rules[j].pattern, subject),
    ensures
        first_match(rules, subject) matches Some(k) && k <= i && k != j,
        (forall|m: int| 0 <= m < i ==> !is_match_of(#[trigger] rules[m].pattern, subject))
            ==> route_location(rules, subject) == Some(
            replace_all_of(rules[i].pattern, subject, rules[i].replacement),
        ),
{
    lemma_match_redirects(rules, subject, i);
}

/// Of two rules that both match the subject, the earlier one gives the location.
pub proof fn lemma_earlier_of_two_wins(r1: RuleSpec, r2: RuleSpec, subject: Seq<char>)
    requires
        is_match_of(r1.pattern, subject),
        is_match_of(r2.pattern, subject),
    ensures
        route_location(seq![r1, r2], subject) == Some(
            replace_all_of(r1.pattern, subject, r1.replacement),
        ),
{
    lemma_match_redirects(seq![r1, r2], subject, 0);
}

proof fn lemma_no_pairs_upto(es: Seq<(Seq<char>, Seq<char>)>, n: nat)
    requires
        n <= es.len(),
        forall|i: int|
            0 <= i < es.len() && is_from_key(#[trigger] es[i].0) ==> lookup(es, to_key_of(es[i].0)) is None,
    ensures
        rules_upto(es, n) == Seq::<RuleSpec>::empty(),
    decreases n,
{
    if n > 0 {
        lemma_no_pairs_upto(es, (n - 1) as nat);
        assert(rule_of_entry(es, es[n - 1]) is None);
        assert(rules_upto(es, n) =~= Seq::<RuleSpec>::empty());
    }
}

/// A configuration in which no `_FROM` key has its `_TO` key compiles to no
/// rules, and then every subject is answered with "not found".
pub proof fn lemma_no_pairs_no_rules(es: Seq<(Seq<char>, Seq<char>)>)
    requires
        forall|i: int|
            0 <= i < es.len() && is_from_key(#[trigger] es[i].0) ==> lookup(es, to_key_of(es[i].0)) is None,
    ensures
        compiled_rules(es) == Seq::<RuleSpec>::empty(),
        forall|subject: Seq<char>| #[trigger] route_location(compiled_rules(es), subject) is None,
{
    lemma_no_pairs_upto(es, es.len());
}

/// A `_FROM` key is never a `_TO` key.
proof fn lemma_from_key_is_not_to_key(k: Seq<char>, other: Seq<char>)
    requires
        is_from_key(k),
    ensures
        k != to_key_of(other),
{
    let t = to_key_of(other);
    assert(k[k.len() - 1] == k.subrange(k.len() - from_suffix().len(), k.len() as int)[4]);
    assert(t[t.len() - 1] == to_suffix()[2]);
}

/// Taking out an entry whose key is not `key` leaves the lookup of `key` as it was.
proof fn lemma_lookup_remove(es: Seq<(Seq<char>, Seq<char>)>, i: int, key: Seq<char>)
    requires
        0 <= i < es.len(),
        es[i].0 != key,
    ensures
        lookup(es.remove(i), key) == lookup(es, key),
    decreases es.len(),
{
    let es2 = es.remove(i);
    if i == es.len() - 1 {
        assert(es2 =~= es.drop_last());
    } else {
        assert(es2.drop_last() =~= es.drop_last().remove(i));
        assert(es2.last() == es.last());
        lemma_lookup_remove(es.drop_last(), i, key);
    }
}

proof fn lemma_rules_upto_remove(es: Seq<(Seq<char>, Seq<char>)>, i: int, m: nat)
    requires
        0 <= i < es.len(),
        m < es.len(),
        is_from_key(es[i].0),
        rule_of_entry(es, es[i]) is None,
    ensures
        m <= i ==> rules_upto(es.remove(i), m) == rules_upto(es, m),
        m > i ==> rules_upto(es.remove(i), m) == rules_upto(es, m + 1),
    decreases m,
{
    let es2 = es.remove(i);
    if m > 0 {
        lemma_rules_upto_remove(es, i, (m - 1) as nat);
        let e = if m <= i { es[m - 1] } else { es[m as int] };
        assert(es2[m - 1] == e);
        if is_from_key(e.0) {
            lemma_from_key_is_not_to_key(es[i].0, e.0);
            lemma_lookup_remove(es, i, to_key_of(e.0));
        }
        assert(rule_of_entry(es2, e) == rule_of_entry(es, e));
        if m == i + 1 {
            assert(rules_upto(es, (i + 1) as nat) =~= rules_upto(es, i as nat));
        }
    } else if i == 0 {
        assert(rules_upto(es, 1) =~= rules_upto(es, 0));
    }
}

/// An entry that gives no rule, being a `_FROM` key without its `_TO` key or
/// with a pattern that does not compile, can be taken out of the
/// configuration without changing the rules the others give.
pub proof fn lemma_skipped_entry_changes_nothing(es: Seq<(Seq<char>, Seq<char>)>, i: int)
    requires
        0 <= i < es.len(),
        is_from_key(es[i].0),
        lookup(es, to_key_of(es[i].0)) is None || !compiles(es[i].1),
    ensures
        rule_of_entry(es, es[i]) is None,
        compiled_rules(es.remove(i)) == compiled_rules(es),
{
    let n = (es.len() - 1) as nat;
    if n > i {
        lemma_rules_upto_remove(es, i, n);
    } else {
        lemma_rules_upto_remove(es, i, n);
        assert(rules_upto(es, es.len()) =~= rules_upto(es, n));
    }
}

} // verus!
