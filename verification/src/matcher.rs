//! The path matcher, an external collaborator: a radix-trie router from the
//! `matchit` crate, consumed through a narrow contract and held behind an
//! opaque boundary. The route table stores indices into its own entry
//! vector in the matcher, so the matcher only ever holds plain `usize`
//! values.
//!
//! Two names stand for what a matcher value holds and answers:
//! [`matcher_entries`], the patterns registered so far with their values,
//! and [`matcher_match`], the pattern a path resolves to together with the
//! captured parameters. Which paths match which patterns is the matcher's
//! own algorithm and is left abstract; everything layered on top is stated
//! relative to these names.

use vstd::prelude::*;
use vstd::string::StringSliceAdditionalSpecFns;
use crate::context::pairs_view;

verus! {

/// The trie of registered patterns, opaque to the verifier.
#[verifier::external_body]
pub struct Matcher {
    inner: matchit::Router<usize>,
}

/// The pattern table a matcher value holds: every registered pattern,
/// mapped to the value that was inserted with it.
pub uninterp spec fn matcher_entries(m: Matcher) -> Map<Seq<char>, usize>;

/// The answer a matcher value gives for a path: the winning registered
/// pattern and the captured (name, value) parameter pairs in order, or
/// nothing when no registered pattern matches the path.
pub uninterp spec fn matcher_match(m: Matcher, path: Seq<char>) -> Option<
    (Seq<char>, Seq<(Seq<char>, Seq<char>)>),
>;

/// Whether the matcher accepts `pattern` as a new route, given the routes
/// it already holds: matchit's insert succeeds or fails as a function of
/// the matcher value and the pattern text alone. It is meaningful only for
/// patterns within the parameter limit; beyond it, insert does not return.
pub uninterp spec fn matcher_accepts(m: Matcher, pattern: Seq<char>) -> bool;

/// The named-parameter marks of a pattern's UTF-8 bytes from position `i`
/// on: each `:` byte introduces one named parameter.
pub open spec fn param_marks_from(bs: Seq<u8>, i: int) -> int
    decreases bs.len() - i,
{
    if i < 0 || i >= bs.len() {
        0
    } else {
        (if bs[i] == 58u8 {
            1int
        } else {
            0int
        }) + param_marks_from(bs, i + 1)
    }
}

/// How many named parameters a pattern introduces: one per `:` byte (58).
pub open spec fn param_marks(s: &str) -> int {
    param_marks_from(s.spec_bytes(), 0)
}

/// The matcher renames the named parameters of one pattern to the single
/// letters `a` through `z` and aborts beyond them, so only patterns with
/// fewer than 26 named parameters may reach its insert.
pub open spec fn within_param_limit(s: &str) -> bool {
    param_marks(s) < 26
}

/// Counts the named-parameter marks of a pattern: one per `:` byte.
pub(crate) fn count_param_marks(path: &str) -> (r: usize)
    ensures
        r as int == param_marks(path),
{
    let bs = path.as_bytes();
    let mut i: usize = 0;
    let mut n: usize = 0;
    while i < bs.len()
        invariant
            bs@ == path.spec_bytes(),
            i <= bs@.len(),
            n <= i,
            n + param_marks_from(bs@, i as int) == param_marks_from(bs@, 0),
        decreases bs@.len() - i,
    {
        proof {
            assert(param_marks_from(bs@, i as int) == (if bs@[i as int] == 58u8 {
                1int
            } else {
                0int
            }) + param_marks_from(bs@, i as int + 1));
        }
        if bs[i] == 58u8 {
            n = n + 1;
        }
        i = i + 1;
    }
    proof {
        assert(param_marks_from(bs@, i as int) == 0);
    }
    n
}

/// Why the matcher rejected a pattern at registration time.
#[derive(Debug)]
pub enum RouteError {
    /// The pattern conflicts with a previously registered route.
    Conflict { with: String },
    /// More than one parameter in one path segment.
    TooManyParams,
    /// A parameter registered without a name.
    UnnamedParam,
    /// A catchall parameter that does not end the pattern.
    InvalidCatchAll,
    /// More named parameters in one pattern than the matcher supports.
    ParamLimit,
    /// Any other rejection the matcher may report.
    Rejected,
}

/// A successful path lookup: the value stored under the matched pattern and
/// the captured parameters.
pub struct PathMatch {
    pub index: usize,
    pub params: Vec<(String, String)>,
}

/// Relies on matchit::Router::new: a new matcher holds no patterns.
#[verifier::external_body]
pub(crate) fn matcher_new() -> (r: Matcher)
    ensures
        forall|p: Seq<char>| !(#[trigger] matcher_entries(r).dom().contains(p)),
{
    Matcher { inner: matchit::Router::new() }
}

/// Relies on matchit::Router::insert: on success the pattern is registered
/// under the given value and every other registration is kept; on failure
/// (malformed pattern or conflict) the pattern table keeps exactly the
/// routes it had. Success depends on the matcher value and the pattern
/// text alone. Insert panics once it has normalized 26 named parameters in
/// one pattern, so such patterns are kept away from it.
#[verifier::external_body]
pub(crate) fn matcher_insert(m: &mut Matcher, pattern: &str, value: usize) -> (r: Result<
    (),
    RouteError,
>)
    requires
        within_param_limit(pattern),
    ensures
        r is Ok <==> matcher_accepts(*old(m), pattern@),
        r is Ok ==> matcher_entries(*final(m)) == matcher_entries(*old(m)).insert(
            pattern@,
            value,
        ),
        r is Err ==> matcher_entries(*final(m)) == matcher_entries(*old(m)),
{
    match m.inner.insert(pattern, value) {
        Ok(()) => Ok(()),
        Err(matchit::InsertError::Conflict { with }) => Err(RouteError::Conflict { with }),
        Err(matchit::InsertError::TooManyParams) => Err(RouteError::TooManyParams),
        Err(matchit::InsertError::UnnamedParam) => Err(RouteError::UnnamedParam),
        Err(matchit::InsertError::InvalidCatchAll) => Err(RouteError::InvalidCatchAll),
        Err(_) => Err(RouteError::Rejected),
    }
}

/// Relies on matchit::Router::at: a successful lookup returns the value
/// stored under the matched pattern together with the captured parameters,
/// in order; an error means no registered pattern matches the path.
#[verifier::external_body]
pub(crate) fn matcher_lookup(m: &Matcher, path: &str) -> (r: Option<PathMatch>)
    ensures
        match r {
            Some(pm) => matcher_match(*m, path@) matches Some(t) && matcher_entries(
                *m,
            ).contains_pair(t.0, pm.index) && pairs_view(pm.params@) == t.1,
            None => matcher_match(*m, path@) is None,
        },
{
    match m.inner.at(path) {
        Ok(found) => {
            let mut params: Vec<(String, String)> = Vec::new();
            for (name, value) in found.params.iter() {
                params.push((name.to_owned(), value.to_owned()));
            }
            Some(PathMatch { index: *found.value, params })
        },
        Err(_) => None,
    }
}

} // verus!
