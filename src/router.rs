//! Routing one request: the first rule whose pattern matches the subject
//! `host + uri` rewrites it into the redirect target.

use vstd::prelude::*;
use crate::pattern::{is_match_of, replace_all_of};
use crate::rule::{RuleSet, RuleSpec};

verus! {

/// The index of the first rule at or after `i` whose pattern matches `subject`.
pub open spec fn first_match_from(rules: Seq<RuleSpec>, subject: Seq<char>, i: int) -> Option<int>
    decreases rules.len() - i,
{
    if i < 0 || i >= rules.len() {
        None
    } else if is_match_of(rules[i].pattern, subject) {
        Some(i)
    } else {
        first_match_from(rules, subject, i + 1)
    }
}

/// The index of the first rule whose pattern matches `subject`.
pub open spec fn first_match(rules: Seq<RuleSpec>, subject: Seq<char>) -> Option<int> {
    first_match_from(rules, subject, 0)
}

/// Where `subject` is redirected by `rules`: the first matching rule's
/// substitution over the whole subject, or nothing if no rule matches.
pub open spec fn route_location(rules: Seq<RuleSpec>, subject: Seq<char>) -> Option<Seq<char>> {
    match first_match(rules, subject) {
        Some(i) => Some(replace_all_of(rules[i].pattern, subject, rules[i].replacement)),
        None => None,
    }
}

/// The text used for a client whose identity is not known.
pub open spec fn unknown_identity() -> Seq<char> {
    seq!['u', 'n', 'k', 'n', 'o', 'w', 'n']
}

/// The client identity: a non-empty forwarded-for value, else the peer
/// address, else `unknown`.
pub open spec fn identity_of(forwarded_for: Option<Seq<char>>, peer_address: Option<Seq<char>>) -> Seq<char> {
    match forwarded_for {
        Some(f) if f.len() > 0 => f,
        _ => match peer_address {
            Some(p) => p,
            None => unknown_identity(),
        },
    }
}

/// The view of an optional string.
pub open spec fn opt_view(o: Option<&str>) -> Option<Seq<char>> {
    match o {
        Some(s) => Some(s@),
        None => None,
    }
}

/// What is done with a request.
pub enum Outcome {
    /// Answer `302 Found` with this `Location`.
    Redirect { location: String },
    /// Answer `404 Not Found`.
    NotFound,
}

impl View for Outcome {
    type V = Option<Seq<char>>;

    open spec fn view(&self) -> Option<Seq<char>> {
        match self {
            Outcome::Redirect { location } => Some(location@),
            Outcome::NotFound => None,
        }
    }
}

/// The text of the body of a `404` answer.
pub open spec fn not_found_body() -> Seq<char> {
    seq!['N', 'o', 't', ' ', 'F', 'o', 'u', 'n', 'd']
}

impl Outcome {
    /// The HTTP status of the answer.
    pub fn status_code(&self) -> (r: u16)
        ensures
            r == (if self@ is Some { 302u16 } else { 404u16 }),
    {
        match self {
            Outcome::Redirect { .. } => 302,
            Outcome::NotFound => 404,
        }
    }

    /// The body of the answer: empty for a redirect, `Not Found` otherwise.
    pub fn body(&self) -> (r: String)
        ensures
            r@ == (if self@ is Some { Seq::<char>::empty() } else { not_found_body() }),
    {
        proof {
            reveal_strlit("");
            reveal_strlit("Not Found");
        }
        match self {
            Outcome::Redirect { .. } => String::from_str(""),
            Outcome::NotFound => {
                let r = String::from_str("Not Found");
                assert(r@ =~= not_found_body());
                r
            },
        }
    }
}

/// What the router decides for one request.
pub struct RouteDecision {
    pub outcome: Outcome,
    /// Who asked, for the log.
    pub client_identity: String,
}

impl RuleSet {
    /// The redirect target of `subject`, from the first rule that matches it.
    pub fn find_redirect(&self, subject: &str) -> (r: Option<String>)
        ensures
            match r {
                Some(l) => route_location(self@, subject@) == Some(l@),
                None => route_location(self@, subject@) is None,
            },
    {
        let n = self.len();
        let mut i: usize = 0;
        while i < n
            invariant
                n == self@.len(),
                i <= n,
                first_match_from(self@, subject@, 0) == first_match_from(self@, subject@, i as int),
            decreases n - i,
        {
            let rule = self.get(i);
            if rule.is_match(subject) {
                return Some(rule.substitute(subject));
            }
            i = i + 1;
        }
        None
    }
}

/// Resolves the client identity: a non-empty `forwarded_for`, else
/// `peer_address`, else `unknown`.
pub fn client_identity(forwarded_for: Option<&str>, peer_address: Option<&str>) -> (r: String)
    ensures
        r@ == identity_of(opt_view(forwarded_for), opt_view(peer_address)),
{
    if let Some(f) = forwarded_for {
        if !f.is_empty() {
            return String::from_str(f);
        }
    }
    match peer_address {
        Some(p) => String::from_str(p),
        None => {
            proof {
                reveal_strlit("unknown");
            }
            let r = String::from_str("unknown");
            assert(r@ =~= unknown_identity());
            r
        },
    }
}

/// Routes a request: its subject is `host` followed by `uri`.
pub fn route(
    rules: &RuleSet,
    host: &str,
    uri: &str,
    forwarded_for: Option<&str>,
    peer_address: Option<&str>,
) -> (r: RouteDecision)
    ensures
        r.outcome@ == route_location(rules@, host@ + uri@),
        r.client_identity@ == identity_of(opt_view(forwarded_for), opt_view(peer_address)),
{
    let client = client_identity(forwarded_for, peer_address);
    let subject = String::from_str(host).concat(uri);
    let outcome = match rules.find_redirect(subject.as_str()) {
        Some(location) => Outcome::Redirect { location },
        None => Outcome::NotFound,
    };
    RouteDecision { outcome, client_identity: client }
}

} // verus!
