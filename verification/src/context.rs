//! The context of a matched route: the captured path parameters and a copy
//! of the router's shared data, built fresh for every dispatched request.

use vstd::prelude::*;
use crate::assoc::{assoc, lemma_assoc_found, lemma_assoc_none};

verus! {

/// The name/value pairs of a parameter list, as sequences of characters.
pub open spec fn pairs_view(s: Seq<(String, String)>) -> Seq<(Seq<char>, Seq<char>)> {
    s.map_values(|p: (String, String)| (p.0@, p.1@))
}

/// The value captured under a parameter name: that of the first pair
/// carrying the name, or nothing when no pair does.
pub open spec fn param_value(ps: Seq<(Seq<char>, Seq<char>)>, name: Seq<char>) -> Option<
    Seq<char>,
> {
    assoc(ps, name)
}

/// A captured parameter is retrievable by name: when the matcher captured
/// `(name, value)` as a pair no earlier pair shadows, the parameter lookup
/// yields exactly `value`.
pub proof fn lemma_captured_param(ps: Seq<(Seq<char>, Seq<char>)>, i: int, name: Seq<char>)
    requires
        0 <= i < ps.len(),
        ps[i].0 == name,
        forall|l: int| 0 <= l < i ==> (#[trigger] ps[l]).0 != name,
    ensures
        param_value(ps, name) == Some(ps[i].1),
{
    lemma_assoc_found(ps, name, i);
}

/// The context of a matched route.
pub struct RouteContext<D> {
    /// Arbitrary data associated with the router that is available to all
    /// handlers.
    pub data: D,
    params: Vec<(String, String)>,
}

impl<D> RouteContext<D> {
    /// The captured parameters, in the order the matcher reported them.
    pub closed spec fn params_view(self) -> Seq<(Seq<char>, Seq<char>)> {
        pairs_view(self.params@)
    }

    /// The shared data the context carries.
    pub closed spec fn data_spec(self) -> D {
        self.data
    }

    /// A context carrying `data` and the captured `params`.
    pub fn new(data: D, params: Vec<(String, String)>) -> (r: Self)
        ensures
            r.data_spec() == data,
            r.params_view() == pairs_view(params@),
    {
        RouteContext { data, params }
    }

    /// Returns a parameter value from the path by name. Lookups are
    /// case-sensitive, exact-name matches.
    pub fn param(&self, name: &str) -> (r: Option<&str>)
        ensures
            match r {
                Some(v) => param_value(self.params_view(), name@) == Some(v@),
                None => param_value(self.params_view(), name@) is None,
            },
    {
        let key: String = name.to_owned();
        let mut i: usize = 0;
        while i < self.params.len()
            invariant
                key@ == name@,
                i <= self.params@.len(),
                forall|l: int| 0 <= l < i ==> (#[trigger] self.params@[l]).0@ != name@,
            decreases self.params@.len() - i,
        {
            if self.params[i].0 == key {
                proof {
                    assert(self.params_view()[i as int] == (self.params@[i as int].0@,
                        self.params@[i as int].1@));
                    assert forall|l: int| 0 <= l < i implies (#[trigger] self.params_view()[l]).0
                        != name@ by {
                        assert(self.params_view()[l] == (self.params@[l].0@, self.params@[l].1@));
                    }
                    lemma_assoc_found(self.params_view(), name@, i as int);
                }
                return Some(self.params[i].1.as_str());
            }
            i = i + 1;
        }
        proof {
            assert forall|l: int| 0 <= l < self.params_view().len() implies (
            #[trigger] self.params_view()[l]).0 != name@ by {
                assert(self.params_view()[l] == (self.params@[l].0@, self.params@[l].1@));
            }
            lemma_assoc_none(self.params_view(), name@);
        }
        None
    }
}

} // verus!
