//! Redirect rules, and their compilation from a configuration.

use vstd::prelude::*;
use crate::config::{
    entries_view, find_key, is_from_key, is_from_key_str, lookup, to_key_for, to_key_of,
};
use crate::pattern::{compile_regex, compiles, error_message, is_match_of, replace_all_of};

verus! {

/// What a rule is: a pattern and the template that replaces its matches.
pub ghost struct RuleSpec {
    pub pattern: Seq<char>,
    pub replacement: Seq<char>,
}

/// One configured redirect. It only exists with a pattern that compiled:
/// `regex` is always the regex compiled from `pattern`, which the fields'
/// privacy and the single constructor `RedirectRule::new` keep true.
pub struct RedirectRule {
    regex: regex_lite::Regex,
    pattern: String,
    replacement: String,
}

impl View for RedirectRule {
    type V = RuleSpec;

    closed spec fn view(&self) -> RuleSpec {
        RuleSpec { pattern: self.pattern@, replacement: self.replacement@ }
    }
}

/// Relies on `regex_lite::Regex::is_match`: whether the rule's regex matches
/// anywhere in `subject`.
#[verifier::external_body]
fn regex_is_match(rule: &RedirectRule, subject: &str) -> (r: bool)
    ensures
        r == is_match_of(rule@.pattern, subject@),
{
    rule.regex.is_match(subject)
}

/// Relies on `regex_lite::Regex::replace_all`: every match of the rule's regex
/// in `subject` replaced by the rule's template, group references expanded.
#[verifier::external_body]
fn regex_replace_all(rule: &RedirectRule, subject: &str) -> (r: String)
    ensures
        r@ == replace_all_of(rule@.pattern, subject@, rule@.replacement),
{
    rule.regex.replace_all(subject, rule.replacement.as_str()).into_owned()
}

impl RedirectRule {
    /// Compiles `pattern`; on failure returns the engine's error message.
    pub fn new(pattern: &str, replacement: &str) -> (r: Result<RedirectRule, String>)
        ensures
            r is Ok <==> compiles(pattern@),
            r matches Ok(rule) ==> rule@ == (RuleSpec { pattern: pattern@, replacement: replacement@ }),
    {
        match compile_regex(pattern) {
            Ok(regex) => Ok(
                RedirectRule {
                    regex,
                    pattern: String::from_str(pattern),
                    replacement: String::from_str(replacement),
                },
            ),
            Err(e) => Err(error_message(&e)),
        }
    }

    /// The pattern the rule was compiled from.
    pub fn pattern(&self) -> (r: &str)
        ensures
            r@ == self@.pattern,
    {
        self.pattern.as_str()
    }

    /// The replacement template.
    pub fn replacement(&self) -> (r: &str)
        ensures
            r@ == self@.replacement,
    {
        self.replacement.as_str()
    }

    /// Whether the rule's pattern matches anywhere in `subject`.
    pub fn is_match(&self, subject: &str) -> (r: bool)
        ensures
            r == is_match_of(self@.pattern, subject@),
    {
        regex_is_match(self, subject)
    }

    /// `subject` with every match of the pattern replaced by the template.
    pub fn substitute(&self, subject: &str) -> (r: String)
        ensures
            r@ == replace_all_of(self@.pattern, subject@, self@.replacement),
    {
        regex_replace_all(self, subject)
    }
}

/// An ordered collection of rules; earlier rules take precedence.
pub struct RuleSet {
    rules: Vec<RedirectRule>,
}

impl View for RuleSet {
    type V = Seq<RuleSpec>;

    closed spec fn view(&self) -> Seq<RuleSpec> {
        self.rules@.map_values(|r: RedirectRule| r@)
    }
}

/// A problem with one redirect of the configuration; the redirect is skipped.
pub enum Diagnostic {
    /// `from_key` is present but its paired `to_key` is not.
    MissingTo { from_key: String, to_key: String },
    /// The pattern under `key` does not compile; `message` says why.
    InvalidPattern { key: String, message: String },
}

/// What a diagnostic is about (the engine's message left aside).
pub ghost enum DiagnosticSpec {
    MissingTo { from_key: Seq<char>, to_key: Seq<char> },
    InvalidPattern { key: Seq<char> },
}

impl View for Diagnostic {
    type V = DiagnosticSpec;

    open spec fn view(&self) -> DiagnosticSpec {
        match self {
            Diagnostic::MissingTo { from_key, to_key } => DiagnosticSpec::MissingTo {
                from_key: from_key@,
                to_key: to_key@,
            },
            Diagnostic::InvalidPattern { key, .. } => DiagnosticSpec::InvalidPattern { key: key@ },
        }
    }
}

/// The rule that the entry `e` of the configuration `es` gives, if any: `e`
/// must be a `_FROM` key whose `_TO` key is present and whose pattern compiles.
pub open spec fn rule_of_entry(
    es: Seq<(Seq<char>, Seq<char>)>,
    e: (Seq<char>, Seq<char>),
) -> Option<RuleSpec> {
    if is_from_key(e.0) && compiles(e.1) {
        match lookup(es, to_key_of(e.0)) {
            Some(t) => Some(RuleSpec { pattern: e.1, replacement: t }),
            None => None,
        }
    } else {
        None
    }
}

/// The diagnostic that the entry `e` of the configuration `es` gives, if any.
pub open spec fn diagnostic_of_entry(
    es: Seq<(Seq<char>, Seq<char>)>,
    e: (Seq<char>, Seq<char>),
) -> Option<DiagnosticSpec> {
    if !is_from_key(e.0) {
        None
    } else if lookup(es, to_key_of(e.0)) is None {
        Some(DiagnosticSpec::MissingTo { from_key: e.0, to_key: to_key_of(e.0) })
    } else if !compiles(e.1) {
        Some(DiagnosticSpec::InvalidPattern { key: e.0 })
    } else {
        None
    }
}

/// The value held by `o`, as a sequence of zero or one element.
pub open spec fn seq_of<A>(o: Option<A>) -> Seq<A> {
    match o {
        Some(x) => seq![x],
        None => Seq::empty(),
    }
}

/// The rules given by the first `n` entries of `es`, in entry order.
pub open spec fn rules_upto(es: Seq<(Seq<char>, Seq<char>)>, n: nat) -> Seq<RuleSpec>
    decreases n,
{
    if n == 0 {
        Seq::empty()
    } else {
        rules_upto(es, (n - 1) as nat) + seq_of(rule_of_entry(es, es[n - 1]))
    }
}

/// The diagnostics given by the first `n` entries of `es`, in entry order.
pub open spec fn diagnostics_upto(es: Seq<(Seq<char>, Seq<char>)>, n: nat) -> Seq<DiagnosticSpec>
    decreases n,
{
    if n == 0 {
        Seq::empty()
    } else {
        diagnostics_upto(es, (n - 1) as nat) + seq_of(diagnostic_of_entry(es, es[n - 1]))
    }
}

/// The rules of a configuration, in the order of its entries.
pub open spec fn compiled_rules(es: Seq<(Seq<char>, Seq<char>)>) -> Seq<RuleSpec> {
    rules_upto(es, es.len())
}

/// The diagnostics of a configuration, in the order of its entries.
pub open spec fn compile_diagnostics(es: Seq<(Seq<char>, Seq<char>)>) -> Seq<DiagnosticSpec> {
    diagnostics_upto(es, es.len())
}

/// The view of each diagnostic, in order.
pub open spec fn diagnostics_view(ds: Seq<Diagnostic>) -> Seq<DiagnosticSpec> {
    ds.map_values(|d: Diagnostic| d@)
}

impl RuleSet {
    /// A rule set with no rules.
    pub fn empty() -> (r: RuleSet)
        ensures
            r@ == Seq::<RuleSpec>::empty(),
    {
        let r = RuleSet { rules: Vec::new() };
        assert(r@ =~= Seq::<RuleSpec>::empty());
        r
    }

    /// The number of rules.
    pub fn len(&self) -> (r: usize)
        ensures
            r == self@.len(),
    {
        self.rules.len()
    }

    /// The rule at position `i`.
    pub fn get(&self, i: usize) -> (r: &RedirectRule)
        requires
            i < self@.len(),
        ensures
            r@ == self@[i as int],
    {
        &self.rules[i]
    }
}

/// Compiles the redirects of `config`, taking its entries in order: each
/// `REDIRECT_<NAME>_FROM` entry whose `REDIRECT_<NAME>_TO` key is present and
/// whose pattern compiles gives one rule. The others give a diagnostic and
/// are skipped; compilation always goes on.
pub fn compile(config: &Vec<(String, String)>) -> (r: (RuleSet, Vec<Diagnostic>))
    ensures
        r.0@ == compiled_rules(entries_view(config@)),
        diagnostics_view(r.1@) == compile_diagnostics(entries_view(config@)),
{
    let ghost es = entries_view(config@);
    let mut rules: Vec<RedirectRule> = Vec::new();
    let mut diags: Vec<Diagnostic> = Vec::new();
    let mut i: usize = 0;
    while i < config.len()
        invariant
            i <= config.len(),
            es == entries_view(config@),
            rules@.map_values(|r: RedirectRule| r@) == rules_upto(es, i as nat),
            diagnostics_view(diags@) == diagnostics_upto(es, i as nat),
        decreases config.len() - i,
    {
        let key = config[i].0.as_str();
        let value = config[i].1.as_str();
        assert(es[i as int] == (key@, value@));
        if is_from_key_str(key) {
            let to_key = to_key_for(key);
            match find_key(config, &to_key) {
                Some(j) => {
                    match RedirectRule::new(value, config[j].1.as_str()) {
                        Ok(rule) => {
                            rules.push(rule);
                        },
                        Err(message) => {
                            diags.push(Diagnostic::InvalidPattern { key: String::from_str(key), message });
                        },
                    }
                },
                None => {
                    diags.push(Diagnostic::MissingTo { from_key: String::from_str(key), to_key });
                },
            }
        }
        assert(rules@.map_values(|r: RedirectRule| r@) =~= rules_upto(es, (i + 1) as nat));
        assert(diagnostics_view(diags@) =~= diagnostics_upto(es, (i + 1) as nat));
        i = i + 1;
    }
    (RuleSet { rules }, diags)
}

} // verus!
