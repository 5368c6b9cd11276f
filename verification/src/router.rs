//! The router: a route table reached through the path matcher, a
//! builder-style registration API, and the dispatch engine that selects the
//! handler a request is served by.

use vstd::prelude::*;
use crate::context::RouteContext;
use crate::matcher::{Matcher, matcher_entries, matcher_match, matcher_accepts, matcher_new,
    matcher_insert, matcher_lookup, count_param_marks, within_param_limit, RouteError};
use crate::method::Method;
use crate::route::RouteEntry;
use crate::service::{Dispatch, Response};

verus! {

/// A router: the route table, reached through the path matcher, plus the
/// shared application data cloned into every request context. Handlers are
/// opaque to the router; it stores, selects and hands them out, and the
/// surrounding service invokes them.
///
/// Registration consumes the router and returns it on success; a pattern
/// the matcher rejects is a configuration error, returned while the router
/// is dropped.
pub struct Router<H, D> {
    matcher: Matcher,
    patterns: Vec<String>,
    entries: Vec<RouteEntry<H>>,
    data: D,
}

impl<H, D> Router<H, D> {
    /// A pattern is registered when the matcher holds it.
    pub closed spec fn has_pattern(self, p: Seq<char>) -> bool {
        matcher_entries(self.matcher).dom().contains(p)
    }

    spec fn entry_at(self, p: Seq<char>) -> RouteEntry<H> {
        self.entries@[matcher_entries(self.matcher)[p] as int]
    }

    /// The handler registered for method `m` on pattern `p`, if any.
    pub closed spec fn method_handler(self, p: Seq<char>, m: Method) -> Option<H> {
        if self.has_pattern(p) {
            self.entry_at(p).method_spec(m)
        } else {
            None
        }
    }

    /// The catchall handler of pattern `p`, if any.
    pub closed spec fn catchall_handler(self, p: Seq<char>) -> Option<H> {
        if self.has_pattern(p) {
            self.entry_at(p).catchall_spec()
        } else {
            None
        }
    }

    /// The handler dispatch selects for method `m` on a request matching
    /// pattern `p`: the method's own handler when one is registered,
    /// otherwise the pattern's catchall.
    pub open spec fn selected_handler(self, p: Seq<char>, m: Method) -> Option<H> {
        if self.method_handler(p, m) is Some {
            self.method_handler(p, m)
        } else {
            self.catchall_handler(p)
        }
    }

    /// The match the router's matcher yields for a path: the winning
    /// pattern and the captured parameters.
    pub closed spec fn match_of(self, path: Seq<char>) -> Option<
        (Seq<char>, Seq<(Seq<char>, Seq<char>)>),
    > {
        matcher_match(self.matcher, path)
    }

    /// Whether the matcher would accept `p` as a new route, given the
    /// routes it already holds.
    pub closed spec fn accepts(self, p: Seq<char>) -> bool {
        matcher_accepts(self.matcher, p)
    }

    /// The router's shared data.
    pub closed spec fn data_spec(self) -> D {
        self.data
    }

    /// The route table is well formed: entry `i` is the one the matcher
    /// stores under `patterns[i]`, and the matcher holds exactly the
    /// patterns of the table.
    pub closed spec fn wf(self) -> bool {
        &&& self.patterns@.len() == self.entries@.len()
        &&& (forall|i: usize|
            i < self.patterns@.len() ==> matcher_entries(self.matcher).contains_pair(
                (#[trigger] self.patterns@[i as int])@,
                i,
            ))
        &&& (forall|p: Seq<char>|
            #[trigger] matcher_entries(self.matcher).dom().contains(p) ==> exists|i: usize|
                i < self.patterns@.len() && (#[trigger] self.patterns@[i as int])@ == p)
    }

    /// A registered pattern's index is the one the matcher stores for it,
    /// and lies inside the table.
    proof fn lemma_entry_index(self, p: Seq<char>)
        requires
            self.wf(),
            self.has_pattern(p),
        ensures
            0 <= matcher_entries(self.matcher)[p] < self.entries@.len(),
            self.patterns@[matcher_entries(self.matcher)[p] as int]@ == p,
    {
        let i = choose|i: usize| i < self.patterns@.len() && (self.patterns@[i as int])@ == p;
        assert(matcher_entries(self.matcher).contains_pair((self.patterns@[i as int])@, i));
    }

    /// A path equal to none of the registered pattern strings is not a
    /// registered pattern.
    proof fn lemma_not_registered(self, p: Seq<char>)
        requires
            self.wf(),
            forall|j: int| 0 <= j < self.patterns@.len() ==> (#[trigger] self.patterns@[j])@ != p,
        ensures
            !self.has_pattern(p),
    {
        if self.has_pattern(p) {
            let i = choose|i: usize|
                i < self.patterns@.len() && (#[trigger] self.patterns@[i as int])@ == p;
            assert(self.patterns@[i as int]@ != p);
        }
    }

    /// Create a new router that requires data to be passed to handlers.
    pub fn with_data(data: D) -> (r: Self)
        ensures
            r.wf(),
            forall|q: Seq<char>| !(#[trigger] r.has_pattern(q)),
            forall|q: Seq<char>, k: Method| #[trigger] r.method_handler(q, k) is None,
            forall|q: Seq<char>| #[trigger] r.catchall_handler(q) is None,
            r.data_spec() == data,
    {
        let r = Router {
            matcher: matcher_new(),
            patterns: Vec::new(),
            entries: Vec::new(),
            data,
        };
        proof {
            assert forall|q: Seq<char>| !(#[trigger] r.has_pattern(q)) by {}
            assert forall|q: Seq<char>, k: Method| #[trigger] r.method_handler(q, k) is None by {
                assert(!r.has_pattern(q));
            }
            assert forall|q: Seq<char>| #[trigger] r.catchall_handler(q) is None by {
                assert(!r.has_pattern(q));
            }
        }
        r
    }

    /// The position of `path` among the registered pattern strings, if it
    /// is one of them.
    fn find_pattern(&self, path: &str) -> (r: Option<usize>)
        ensures
            match r {
                Some(i) => i < self.patterns@.len() && self.patterns@[i as int]@ == path@,
                None => forall|j: int|
                    0 <= j < self.patterns@.len() ==> (#[trigger] self.patterns@[j])@ != path@,
            },
    {
        let key: String = path.to_owned();
        let mut i: usize = 0;
        while i < self.patterns.len()
            invariant
                key@ == path@,
                i <= self.patterns@.len(),
                forall|j: int| 0 <= j < i ==> (#[trigger] self.patterns@[j])@ != path@,
            decreases self.patterns@.len() - i,
        {
            if self.patterns[i] == key {
                return Some(i);
            }
            i = i + 1;
        }
        None
    }

    /// Inserts or overwrites the handler of (`path`, `method`). If the
    /// pattern is new, it is registered with the matcher first; a pattern
    /// the matcher rejects, or one over the matcher's named-parameter
    /// limit, leaves the table exactly as it was.
    fn insert_handler(&mut self, path: &str, method: Method, handler: H) -> (r: Result<
        (),
        RouteError,
    >)
        requires
            old(self).wf(),
        ensures
            match r {
                Ok(()) => final(self).wf() && register_method_post(
                    *old(self),
                    *final(self),
                    path@,
                    method,
                    handler,
                ),
                Err(_) => final(self).wf() && same_routes(*old(self), *final(self)),
            },
            r is Ok <==> (old(self).has_pattern(path@) || (within_param_limit(path) && old(
                self,
            ).accepts(path@))),
    {
        let found = self.find_pattern(path);
        match found {
            Some(i) => {
                let mut e = self.entries.remove(i);
                e.set_method(method, handler);
                let ghost ge = e;
                self.entries.insert(i, e);
                proof {
                    let pre = *old(self);
                    let p = path@;
                    self.lemma_updated_entry(pre, i, ge, p);
                    assert(pre.has_pattern(p));
                    assert forall|q: Seq<char>, k: Method|
                        self.has_pattern(q) implies #[trigger] self.method_handler(q, k) == (if q
                        == p && k == method {
                        Some(handler)
                    } else if pre.has_pattern(q) {
                        pre.method_handler(q, k)
                    } else {
                        None::<H>
                    }) by {}
                    assert forall|q: Seq<char>|
                        self.has_pattern(q) implies #[trigger] self.catchall_handler(q) == (
                    if pre.has_pattern(q) {
                        pre.catchall_handler(q)
                    } else {
                        None::<H>
                    }) by {}
                }
                Ok(())
            },
            None => {
                proof {
                    old(self).lemma_not_registered(path@);
                }
                if count_param_marks(path) >= 26 {
                    return Err(RouteError::ParamLimit);
                }
                let v: usize = self.entries.len();
                let res = matcher_insert(&mut self.matcher, path, v);
                match res {
                    Ok(()) => {
                        let mut e = RouteEntry::empty();
                        e.set_method(method, handler);
                        let ghost ge = e;
                        self.patterns.push(path.to_owned());
                        self.entries.push(e);
                        proof {
                            let pre = *old(self);
                            let p = path@;
                            self.lemma_pushed_entry(pre, ge, p, v);
                            assert forall|q: Seq<char>, k: Method|
                                self.has_pattern(q) implies #[trigger] self.method_handler(q, k)
                                == (if q == p && k == method {
                                Some(handler)
                            } else if pre.has_pattern(q) {
                                pre.method_handler(q, k)
                            } else {
                                None::<H>
                            }) by {}
                            assert forall|q: Seq<char>|
                                self.has_pattern(q) implies #[trigger] self.catchall_handler(q)
                                == (if pre.has_pattern(q) {
                                pre.catchall_handler(q)
                            } else {
                                None::<H>
                            }) by {}
                        }
                        Ok(())
                    },
                    Err(err) => {
                        proof {
                            self.lemma_routes_kept(*old(self));
                        }
                        Err(err)
                    },
                }
            },
        }
    }

    /// Sets or overwrites the catchall of `path`, registering the pattern
    /// with the matcher first when it is new; a pattern the matcher
    /// rejects, or one over the matcher's named-parameter limit, leaves the
    /// table exactly as it was.
    fn insert_catchall(&mut self, path: &str, handler: H) -> (r: Result<(), RouteError>)
        requires
            old(self).wf(),
        ensures
            match r {
                Ok(()) => final(self).wf() && register_catchall_post(
                    *old(self),
                    *final(self),
                    path@,
                    handler,
                ),
                Err(_) => final(self).wf() && same_routes(*old(self), *final(self)),
            },
            r is Ok <==> (old(self).has_pattern(path@) || (within_param_limit(path) && old(
                self,
            ).accepts(path@))),
    {
        let found = self.find_pattern(path);
        match found {
            Some(i) => {
                let mut e = self.entries.remove(i);
                e.set_catchall(handler);
                let ghost ge = e;
                self.entries.insert(i, e);
                proof {
                    let pre = *old(self);
                    let p = path@;
                    self.lemma_updated_entry(pre, i, ge, p);
                    assert(pre.has_pattern(p));
                    assert forall|q: Seq<char>, k: Method|
                        self.has_pattern(q) implies #[trigger] self.method_handler(q, k) == (
                    if pre.has_pattern(q) {
                        pre.method_handler(q, k)
                    } else {
                        None::<H>
                    }) by {}
                    assert forall|q: Seq<char>|
                        self.has_pattern(q) implies #[trigger] self.catchall_handler(q) == (if q
                        == p {
                        Some(handler)
                    } else if pre.has_pattern(q) {
                        pre.catchall_handler(q)
                    } else {
                        None::<H>
                    }) by {}
                }
                Ok(())
            },
            None => {
                proof {
                    old(self).lemma_not_registered(path@);
                }
                if count_param_marks(path) >= 26 {
                    return Err(RouteError::ParamLimit);
                }
                let v: usize = self.entries.len();
                let res = matcher_insert(&mut self.matcher, path, v);
                match res {
                    Ok(()) => {
                        let mut e = RouteEntry::empty();
                        e.set_catchall(handler);
                        let ghost ge = e;
                        self.patterns.push(path.to_owned());
                        self.entries.push(e);
                        proof {
                            let pre = *old(self);
                            let p = path@;
                            self.lemma_pushed_entry(pre, ge, p, v);
                            assert forall|q: Seq<char>, k: Method|
                                self.has_pattern(q) implies #[trigger] self.method_handler(q, k)
                                == (if pre.has_pattern(q) {
                                pre.method_handler(q, k)
                            } else {
                                None::<H>
                            }) by {}
                            assert forall|q: Seq<char>|
                                self.has_pattern(q) implies #[trigger] self.catchall_handler(q)
                                == (if q == p {
                                Some(handler)
                            } else if pre.has_pattern(q) {
                                pre.catchall_handler(q)
                            } else {
                                None::<H>
                            }) by {}
                        }
                        Ok(())
                    },
                    Err(err) => {
                        proof {
                            self.lemma_routes_kept(*old(self));
                        }
                        Err(err)
                    },
                }
            },
        }
    }

    /// After replacing entry `i` of a well-formed table with `ge`, the
    /// table is well formed, pattern `p` maps to `ge`, and every other
    /// pattern keeps its entry.
    proof fn lemma_updated_entry(self, pre: Self, i: usize, ge: RouteEntry<H>, p: Seq<char>)
        requires
            pre.wf(),
            i < pre.patterns@.len(),
            pre.patterns@[i as int]@ == p,
            self.matcher == pre.matcher,
            self.patterns == pre.patterns,
            self.data == pre.data,
            self.entries@ == pre.entries@.remove(i as int).insert(i as int, ge),
        ensures
            self.wf(),
            pre.has_pattern(p),
            forall|q: Seq<char>| #[trigger] self.has_pattern(q) <==> pre.has_pattern(q),
            self.entry_at(p) == ge,
            pre.entry_at(p) == pre.entries@[i as int],
            forall|q: Seq<char>|
                #[trigger] self.has_pattern(q) && q != p ==> self.entry_at(q) == pre.entry_at(q),
    {
        assert(self.entries@ =~= pre.entries@.update(i as int, ge));
        assert(matcher_entries(pre.matcher).contains_pair((pre.patterns@[i as int])@, i));
        assert(pre.has_pattern(p));
        assert(matcher_entries(pre.matcher)[p] == i);
        assert forall|q: Seq<char>| #[trigger] self.has_pattern(q) && q != p implies self.entry_at(
            q,
        ) == pre.entry_at(q) by {
            pre.lemma_entry_index(q);
            let jq = matcher_entries(pre.matcher)[q] as int;
            assert(pre.patterns@[jq]@ == q);
            assert(jq != i as int);
        }
    }

    /// After appending a fresh pattern `p` with entry `ge` to a well-formed
    /// table whose matcher accepted `p`, the table is well formed, `p` maps
    /// to `ge`, and every other pattern keeps its entry.
    proof fn lemma_pushed_entry(self, pre: Self, ge: RouteEntry<H>, p: Seq<char>, v: usize)
        requires
            pre.wf(),
            v == pre.entries@.len(),
            forall|j: int| 0 <= j < pre.patterns@.len() ==> (#[trigger] pre.patterns@[j])@ != p,
            matcher_entries(self.matcher) == matcher_entries(pre.matcher).insert(p, v),
            self.patterns@.len() == pre.patterns@.len() + 1,
            forall|j: int|
                0 <= j < pre.patterns@.len() ==> self.patterns@[j] == pre.patterns@[j],
            (self.patterns@[pre.patterns@.len() as int])@ == p,
            self.entries@ == pre.entries@.push(ge),
            self.data == pre.data,
        ensures
            self.wf(),
            !pre.has_pattern(p),
            forall|q: Seq<char>|
                #[trigger] self.has_pattern(q) <==> (pre.has_pattern(q) || q == p),
            self.entry_at(p) == ge,
            forall|q: Seq<char>|
                #[trigger] self.has_pattern(q) && q != p ==> self.entry_at(q) == pre.entry_at(q),
    {
        let n = pre.patterns@.len() as int;
        assert(n == v as int);
        if pre.has_pattern(p) {
            let j = choose|j: usize|
                j < pre.patterns@.len() && (#[trigger] pre.patterns@[j as int])@ == p;
            assert(false);
        }
        assert forall|i: usize|
            i < self.patterns@.len() implies matcher_entries(self.matcher).contains_pair(
            (#[trigger] self.patterns@[i as int])@,
            i,
        ) by {
            if (i as int) < n {
                assert(matcher_entries(pre.matcher).contains_pair(
                    (pre.patterns@[i as int])@,
                    i,
                ));
                assert((self.patterns@[i as int])@ != p);
            } else {
                assert(i == v);
            }
        }
        assert forall|q: Seq<char>|
            #[trigger] matcher_entries(self.matcher).dom().contains(q) implies exists|i: usize|
            i < self.patterns@.len() && (#[trigger] self.patterns@[i as int])@ == q by {
            if q == p {
                assert(v < self.patterns@.len() && (self.patterns@[v as int])@ == q);
            } else {
                let j = choose|j: usize|
                    j < pre.patterns@.len() && (#[trigger] pre.patterns@[j as int])@ == q;
                assert(j < self.patterns@.len() && (self.patterns@[j as int])@ == q);
            }
        }
        assert forall|q: Seq<char>| #[trigger] self.has_pattern(q) && q != p implies self.entry_at(
            q,
        ) == pre.entry_at(q) by {
            pre.lemma_entry_index(q);
        }
    }

    /// A table whose matcher kept the same pattern map, and whose own
    /// vectors are untouched, holds the same routes and stays well formed.
    proof fn lemma_routes_kept(self, pre: Self)
        requires
            pre.wf(),
            matcher_entries(self.matcher) == matcher_entries(pre.matcher),
            self.patterns == pre.patterns,
            self.entries == pre.entries,
            self.data == pre.data,
        ensures
            self.wf(),
            same_routes(pre, self),
    {
        assert forall|q: Seq<char>| #[trigger] self.has_pattern(q) implies self.entry_at(q)
            == pre.entry_at(q) by {}
    }

    /// Registers a route matching any method: the pattern's catchall.
    pub fn any(self, path: &str, handler: H) -> (r: Result<Self, RouteError>)
        requires
            self.wf(),
        ensures
            r is Ok <==> (self.has_pattern(path@) || (within_param_limit(path)
                && self.accepts(path@))),
            match r {
                Ok(rt) => rt.wf() && register_catchall_post(self, rt, path@, handler),
                Err(_) => true,
            },
    {
        let mut s = self;
        match s.insert_catchall(path, handler) {
            Ok(()) => Ok(s),
            Err(e) => Err(e),
        }
    }

    /// Registers a route requiring the `GET` method.
    pub fn get(self, path: &str, handler: H) -> (r: Result<Self, RouteError>)
        requires
            self.wf(),
        ensures
            r is Ok <==> (self.has_pattern(path@) || (within_param_limit(path)
                && self.accepts(path@))),
            match r {
                Ok(rt) => rt.wf() && register_method_post(self, rt, path@, Method::Get, handler),
                Err(_) => true,
            },
    {
        let mut s = self;
        match s.insert_handler(path, Method::Get, handler) {
            Ok(()) => Ok(s),
            Err(e) => Err(e),
        }
    }

    /// Registers a route requiring the `POST` method.
    pub fn post(self, path: &str, handler: H) -> (r: Result<Self, RouteError>)
        requires
            self.wf(),
        ensures
            r is Ok <==> (self.has_pattern(path@) || (within_param_limit(path)
                && self.accepts(path@))),
            match r {
                Ok(rt) => rt.wf() && register_method_post(self, rt, path@, Method::Post, handler),
                Err(_) => true,
            },
    {
        let mut s = self;
        match s.insert_handler(path, Method::Post, handler) {
            Ok(()) => Ok(s),
            Err(e) => Err(e),
        }
    }

    /// Registers a route requiring the `PUT` method.
    pub fn put(self, path: &str, handler: H) -> (r: Result<Self, RouteError>)
        requires
            self.wf(),
        ensures
            r is Ok <==> (self.has_pattern(path@) || (within_param_limit(path)
                && self.accepts(path@))),
            match r {
                Ok(rt) => rt.wf() && register_method_post(self, rt, path@, Method::Put, handler),
                Err(_) => true,
            },
    {
        let mut s = self;
        match s.insert_handler(path, Method::Put, handler) {
            Ok(()) => Ok(s),
            Err(e) => Err(e),
        }
    }

    /// Registers a route requiring the `DELETE` method.
    pub fn delete(self, path: &str, handler: H) -> (r: Result<Self, RouteError>)
        requires
            self.wf(),
        ensures
            r is Ok <==> (self.has_pattern(path@) || (within_param_limit(path)
                && self.accepts(path@))),
            match r {
                Ok(rt) => rt.wf() && register_method_post(
                    self,
                    rt,
                    path@,
                    Method::Delete,
                    handler,
                ),
                Err(_) => true,
            },
    {
        let mut s = self;
        match s.insert_handler(path, Method::Delete, handler) {
            Ok(()) => Ok(s),
            Err(e) => Err(e),
        }
    }

    /// Registers a route requiring the `HEAD` method.
    pub fn head(self, path: &str, handler: H) -> (r: Result<Self, RouteError>)
        requires
            self.wf(),
        ensures
            r is Ok <==> (self.has_pattern(path@) || (within_param_limit(path)
                && self.accepts(path@))),
            match r {
                Ok(rt) => rt.wf() && register_method_post(self, rt, path@, Method::Head, handler),
                Err(_) => true,
            },
    {
        let mut s = self;
        match s.insert_handler(path, Method::Head, handler) {
            Ok(()) => Ok(s),
            Err(e) => Err(e),
        }
    }

    /// Registers a route requiring the `OPTIONS` method.
    pub fn options(self, path: &str, handler: H) -> (r: Result<Self, RouteError>)
        requires
            self.wf(),
        ensures
            r is Ok <==> (self.has_pattern(path@) || (within_param_limit(path)
                && self.accepts(path@))),
            match r {
                Ok(rt) => rt.wf() && register_method_post(
                    self,
                    rt,
                    path@,
                    Method::Options,
                    handler,
                ),
                Err(_) => true,
            },
    {
        let mut s = self;
        match s.insert_handler(path, Method::Options, handler) {
            Ok(()) => Ok(s),
            Err(e) => Err(e),
        }
    }

    /// Registers a route requiring the `PATCH` method.
    pub fn patch(self, path: &str, handler: H) -> (r: Result<Self, RouteError>)
        requires
            self.wf(),
        ensures
            r is Ok <==> (self.has_pattern(path@) || (within_param_limit(path)
                && self.accepts(path@))),
            match r {
                Ok(rt) => rt.wf() && register_method_post(self, rt, path@, Method::Patch, handler),
                Err(_) => true,
            },
    {
        let mut s = self;
        match s.insert_handler(path, Method::Patch, handler) {
            Ok(()) => Ok(s),
            Err(e) => Err(e),
        }
    }
}

impl<H> Router<H, ()> {
    /// Create a new router that doesn't require any data to be passed to
    /// handlers.
    pub fn new() -> (r: Self)
        ensures
            r.wf(),
            forall|q: Seq<char>| !(#[trigger] r.has_pattern(q)),
            forall|q: Seq<char>, k: Method| #[trigger] r.method_handler(q, k) is None,
            forall|q: Seq<char>| #[trigger] r.catchall_handler(q) is None,
            r.data_spec() == (),
    {
        Router::with_data(())
    }
}

impl<H: Clone, D: Clone> Router<H, D> {
    /// Dispatches a request: resolves its path through the matcher, builds
    /// the context of the matched route, and selects the handler — the
    /// method's own first, then the pattern's catchall. When no pattern
    /// matches, or the matched pattern serves neither the method nor a
    /// catchall, the not-found response is synthesized instead: a genuine
    /// response, not an error.
    pub fn dispatch<B: Default>(&self, method: Method, path: &str) -> (r: Dispatch<H, D, B>)
        requires
            self.wf(),
        ensures
            match self.match_of(path@) {
                Some(t) => match self.selected_handler(t.0, method) {
                    Some(h) => r matches Dispatch::Invoke { handler, ctx } && cloned(h, handler)
                        && ctx.params_view() == t.1 && cloned(self.data_spec(), ctx.data_spec()),
                    None => r matches Dispatch::Respond { response } && response.status == 404
                        && call_ensures(B::default, (), response.body),
                },
                None => r matches Dispatch::Respond { response } && response.status == 404
                    && call_ensures(B::default, (), response.body),
            },
    {
        let looked = matcher_lookup(&self.matcher, path);
        match looked {
            Some(pm) => {
                proof {
                    let t = self.match_of(path@).unwrap();
                    assert(self.has_pattern(t.0));
                    self.lemma_entry_index(t.0);
                    assert(matcher_entries(self.matcher)[t.0] == pm.index);
                }
                let entry = &self.entries[pm.index];
                let ctx = RouteContext::new(self.data.clone(), pm.params);
                let got = entry.get_method(method);
                match got {
                    Some(h) => Dispatch::Invoke { handler: h.clone(), ctx },
                    None => {
                        let gc = entry.get_catchall();
                        match gc {
                            Some(c) => Dispatch::Invoke { handler: c.clone(), ctx },
                            None => Dispatch::Respond {
                                response: Response { status: 404, body: B::default() },
                            },
                        }
                    },
                }
            },
            None => Dispatch::Respond { response: Response { status: 404, body: B::default() } },
        }
    }
}

/// What a successful method registration does to the table: the pattern is
/// present, carries the new handler under the method, and every other
/// (pattern, method) slot and every catchall is as before.
pub open spec fn register_method_post<H, D>(
    pre: Router<H, D>,
    post: Router<H, D>,
    p: Seq<char>,
    m: Method,
    h: H,
) -> bool {
    &&& (forall|q: Seq<char>| #[trigger] post.has_pattern(q) <==> (pre.has_pattern(q) || q == p))
    &&& (forall|q: Seq<char>, k: Method|
        post.has_pattern(q) ==> #[trigger] post.method_handler(q, k) == (if q == p && k == m {
            Some(h)
        } else if pre.has_pattern(q) {
            pre.method_handler(q, k)
        } else {
            None::<H>
        }))
    &&& (forall|q: Seq<char>|
        post.has_pattern(q) ==> #[trigger] post.catchall_handler(q) == (if pre.has_pattern(q) {
            pre.catchall_handler(q)
        } else {
            None::<H>
        }))
    &&& post.data_spec() == pre.data_spec()
}

/// What a successful catchall registration does to the table: the pattern
/// is present, its catchall is the new handler, and every method slot and
/// every other catchall is as before.
pub open spec fn register_catchall_post<H, D>(
    pre: Router<H, D>,
    post: Router<H, D>,
    p: Seq<char>,
    h: H,
) -> bool {
    &&& (forall|q: Seq<char>| #[trigger] post.has_pattern(q) <==> (pre.has_pattern(q) || q == p))
    &&& (forall|q: Seq<char>, k: Method|
        post.has_pattern(q) ==> #[trigger] post.method_handler(q, k) == (if pre.has_pattern(q) {
            pre.method_handler(q, k)
        } else {
            None::<H>
        }))
    &&& (forall|q: Seq<char>|
        post.has_pattern(q) ==> #[trigger] post.catchall_handler(q) == (if q == p {
            Some(h)
        } else if pre.has_pattern(q) {
            pre.catchall_handler(q)
        } else {
            None::<H>
        }))
    &&& post.data_spec() == pre.data_spec()
}

/// Both routers hold the same routes and the same data.
pub open spec fn same_routes<H, D>(a: Router<H, D>, b: Router<H, D>) -> bool {
    &&& (forall|q: Seq<char>| #[trigger] b.has_pattern(q) <==> a.has_pattern(q))
    &&& (forall|q: Seq<char>, k: Method|
        b.has_pattern(q) ==> #[trigger] b.method_handler(q, k) == a.method_handler(q, k))
    &&& (forall|q: Seq<char>|
        b.has_pattern(q) ==> #[trigger] b.catchall_handler(q) == a.catchall_handler(q))
    &&& b.data_spec() == a.data_spec()
}

/// Registering a handler for one method and then a handler for a different
/// method on the same pattern preserves both: each method still carries the
/// handler registered for it.
pub proof fn lemma_register_keeps_other_method<H, D>(
    r0: Router<H, D>,
    r1: Router<H, D>,
    r2: Router<H, D>,
    p: Seq<char>,
    m: Method,
    n: Method,
    h1: H,
    h2: H,
)
    requires
        m != n,
        register_method_post(r0, r1, p, m, h1),
        register_method_post(r1, r2, p, n, h2),
    ensures
        r2.method_handler(p, m) == Some(h1),
        r2.method_handler(p, n) == Some(h2),
{
    assert(r1.has_pattern(p));
    assert(r2.has_pattern(p));
    assert(r1.method_handler(p, m) == Some(h1));
}

/// Re-registering a handler for the same (pattern, method) pair replaces
/// the prior one: only the latest registration remains.
pub proof fn lemma_register_replaces<H, D>(
    r0: Router<H, D>,
    r1: Router<H, D>,
    r2: Router<H, D>,
    p: Seq<char>,
    m: Method,
    h1: H,
    h2: H,
)
    requires
        register_method_post(r0, r1, p, m, h1),
        register_method_post(r1, r2, p, m, h2),
    ensures
        r2.method_handler(p, m) == Some(h2),
{
    assert(r1.has_pattern(p));
    assert(r2.has_pattern(p));
}

/// An unregistered pattern serves nothing: no method handler and no
/// catchall, so dispatch takes the not-found path for any request the
/// matcher resolves to it.
pub proof fn lemma_unregistered_pattern_serves_nothing<H, D>(
    r: Router<H, D>,
    q: Seq<char>,
    m: Method,
)
    requires
        !r.has_pattern(q),
    ensures
        r.method_handler(q, m) is None,
        r.catchall_handler(q) is None,
        r.selected_handler(q, m) is None,
{
}

/// A method's own handler takes precedence over the pattern's catchall.
pub proof fn lemma_method_takes_precedence<H, D>(r: Router<H, D>, p: Seq<char>, m: Method)
    requires
        r.method_handler(p, m) is Some,
    ensures
        r.selected_handler(p, m) == r.method_handler(p, m),
{
}

/// A catchall serves every method that has no handler of its own on the
/// pattern.
pub proof fn lemma_catchall_handles_rest<H, D>(r: Router<H, D>, p: Seq<char>, m: Method)
    requires
        r.method_handler(p, m) is None,
    ensures
        r.selected_handler(p, m) == r.catchall_handler(p),
{
}

} // verus!
