//! The per-pattern record: handlers keyed by method, and an optional
//! catchall serving any method that has no handler of its own.

use vstd::prelude::*;
use crate::assoc::{assoc, lemma_assoc_found, lemma_assoc_none, lemma_assoc_agree,
    lemma_assoc_push};
use crate::method::Method;
use vstd::pervasive::VecAdditionalExecFns;

verus! {

/// One pattern's entry in the route table. The method table keeps at most
/// one handler per method (the last registration wins); the catchall, when
/// set, serves every method the table has no handler for.
pub struct RouteEntry<H> {
    methods: Vec<(Method, H)>,
    catchall: Option<H>,
}

impl<H> RouteEntry<H> {
    /// The handler registered for a method, if any.
    pub closed spec fn method_spec(self, m: Method) -> Option<H> {
        assoc(self.methods@, m)
    }

    /// The catchall handler, if any.
    pub closed spec fn catchall_spec(self) -> Option<H> {
        self.catchall
    }

    /// An entry with no handlers at all.
    pub fn empty() -> (r: Self)
        ensures
            forall|m: Method| #[trigger] r.method_spec(m) is None,
            r.catchall_spec() is None,
    {
        let r = RouteEntry { methods: Vec::new(), catchall: None };
        proof {
            assert forall|m: Method| #[trigger] r.method_spec(m) is None by {
                lemma_assoc_none(r.methods@, m);
            }
        }
        r
    }

    /// The position of the handler registered for `m`, if any.
    fn find_method(&self, m: Method) -> (r: Option<usize>)
        ensures
            match r {
                Some(j) => j < self.methods@.len() && self.methods@[j as int].0 == m
                    && (forall|l: int| 0 <= l < j ==> (#[trigger] self.methods@[l]).0 != m),
                None => forall|l: int|
                    0 <= l < self.methods@.len() ==> (#[trigger] self.methods@[l]).0 != m,
            },
    {
        let mut j: usize = 0;
        while j < self.methods.len()
            invariant
                j <= self.methods@.len(),
                forall|l: int| 0 <= l < j ==> (#[trigger] self.methods@[l]).0 != m,
            decreases self.methods@.len() - j,
        {
            if self.methods[j].0 == m {
                return Some(j);
            }
            j = j + 1;
        }
        None
    }

    /// Registers `h` for method `m`, replacing any handler the method had;
    /// every other method and the catchall keep their handlers.
    pub fn set_method(&mut self, m: Method, h: H)
        ensures
            forall|k: Method| #[trigger] final(self).method_spec(k) == (if k == m {
                Some(h)
            } else {
                old(self).method_spec(k)
            }),
            final(self).catchall_spec() == old(self).catchall_spec(),
    {
        let found = self.find_method(m);
        match found {
            Some(j) => {
                self.methods.set(j, (m, h));
                proof {
                    let s = old(self).methods@;
                    let t = self.methods@;
                    assert forall|k: Method| #[trigger] self.method_spec(k) == (if k == m {
                        Some(h)
                    } else {
                        old(self).method_spec(k)
                    }) by {
                        if k == m {
                            lemma_assoc_found(t, m, j as int);
                        } else {
                            lemma_assoc_agree(t, s, k);
                        }
                    }
                }
            },
            None => {
                self.methods.push((m, h));
                proof {
                    let s = old(self).methods@;
                    assert forall|k: Method| #[trigger] self.method_spec(k) == (if k == m {
                        Some(h)
                    } else {
                        old(self).method_spec(k)
                    }) by {
                        lemma_assoc_push(s, k, m, h);
                        if k == m {
                            lemma_assoc_none(s, m);
                        }
                    }
                }
            },
        }
    }

    /// Sets the catchall handler, replacing any prior one; the method table
    /// is untouched.
    pub fn set_catchall(&mut self, h: H)
        ensures
            final(self).catchall_spec() == Some(h),
            forall|k: Method| #[trigger] final(self).method_spec(k) == old(self).method_spec(k),
    {
        self.catchall = Some(h);
    }

    /// The handler registered for `m`, if any.
    pub fn get_method(&self, m: Method) -> (r: Option<&H>)
        ensures
            match r {
                Some(h) => self.method_spec(m) == Some(*h),
                None => self.method_spec(m) is None,
            },
    {
        let found = self.find_method(m);
        match found {
            Some(j) => {
                proof {
                    lemma_assoc_found(self.methods@, m, j as int);
                }
                Some(&self.methods[j].1)
            },
            None => {
                proof {
                    lemma_assoc_none(self.methods@, m);
                }
                None
            },
        }
    }

    /// The catchall handler, if any.
    pub fn get_catchall(&self) -> (r: Option<&H>)
        ensures
            match r {
                Some(h) => self.catchall_spec() == Some(*h),
                None => self.catchall_spec() is None,
            },
    {
        self.catchall.as_ref()
    }
}

} // verus!
