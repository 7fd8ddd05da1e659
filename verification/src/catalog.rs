//! The route catalog: the complete, validated, immutable set of routes.
//!
//! A catalog is built exactly once, by [`load`], from the entries of a
//! configuration document, and is read-only afterwards. `load` validates the
//! whole document eagerly: every key must be in canonical form and unique, and
//! every child reference must resolve within the same document, so that a
//! dangling reference refuses to load instead of surfacing mid-conversation.

use vstd::prelude::*;

use crate::chars::{contains_slash, str_eq};
use crate::model::{
    clone_external, clone_keys, entry_children, entry_route, routes_of, Route, RouteEntry,
    RouteKind, SpecEntry, SpecRoute, SpecRouteKind,
};

verus! {

/// Why a configuration document was refused at load time.
#[derive(Clone, Copy, Debug, PartialEq, Eq, Structural)]
pub enum ConfigError {
    /// A key is not in canonical form, or two entries share a key: the input
    /// is not a well-formed mapping of canonical keys.
    Malformed,
    /// A child reference names a key that no entry of the same document has.
    DanglingReference,
}

/// A key is canonical when the resolver's normalization maps it to itself,
/// which holds exactly when it contains no slash.
pub open spec fn canonical_key(k: Seq<char>) -> bool {
    !k.contains('/')
}

/// Exact-match lookup of a key among routes, first match wins. With unique
/// keys the first match is the only one.
pub open spec fn lookup(routes: Seq<SpecRoute>, key: Seq<char>) -> Option<SpecRoute>
    decreases routes.len(),
{
    if routes.len() == 0 {
        None
    } else if routes[0].key == key {
        Some(routes[0])
    } else {
        lookup(routes.drop_first(), key)
    }
}

/// A lookup succeeds exactly when some route has the key, and then returns a
/// route of the sequence carrying that key.
pub proof fn lemma_lookup_properties(routes: Seq<SpecRoute>, key: Seq<char>)
    ensures
        (lookup(routes, key) is Some) <==> exists|i: int|
            0 <= i < routes.len() && (#[trigger] routes[i]).key == key,
        lookup(routes, key) matches Some(r) ==> r.key == key && exists|i: int|
            0 <= i < routes.len() && #[trigger] routes[i] == r,
    decreases routes.len(),
{
    if routes.len() == 0 {
    } else if routes[0].key == key {
        assert(routes[0].key == key);
    } else {
        let rest = routes.drop_first();
        lemma_lookup_properties(rest, key);
        if lookup(routes, key) is Some {
            let i = choose|i: int| 0 <= i < rest.len() && (#[trigger] rest[i]).key == key;
            assert(routes[i + 1].key == key);
            let r = lookup(routes, key)->Some_0;
            let j = choose|j: int| 0 <= j < rest.len() && #[trigger] rest[j] == r;
            assert(routes[j + 1] == r);
        }
        if exists|i: int| 0 <= i < routes.len() && (#[trigger] routes[i]).key == key {
            let i = choose|i: int| 0 <= i < routes.len() && (#[trigger] routes[i]).key == key;
            assert(i != 0);
            assert(rest[i - 1].key == key);
        }
    }
}

/// Well-formedness of one route against the whole catalog: a branch has at
/// least one child and every child key resolves.
pub open spec fn route_wf(routes: Seq<SpecRoute>, r: SpecRoute) -> bool {
    r.kind matches SpecRouteKind::Branch(children) ==> children.len() > 0 && forall|j: int|
        0 <= j < children.len() ==> lookup(routes, #[trigger] children[j]) is Some
}

/// Well-formedness of a whole catalog: canonical keys, unique keys, and every
/// child reference resolving within the catalog.
pub open spec fn routes_wf(routes: Seq<SpecRoute>) -> bool {
    &&& forall|i: int| 0 <= i < routes.len() ==> canonical_key((#[trigger] routes[i]).key)
    &&& forall|i: int, j: int|
        0 <= i < j < routes.len() ==> (#[trigger] routes[i]).key != (#[trigger] routes[j]).key
    &&& forall|i: int| 0 <= i < routes.len() ==> route_wf(routes, #[trigger] routes[i])
}

/// Canonical form and uniqueness of the keys of configuration entries.
pub open spec fn entries_well_keyed(es: Seq<SpecEntry>) -> bool {
    &&& forall|i: int| 0 <= i < es.len() ==> canonical_key((#[trigger] es[i]).key)
    &&& forall|i: int, j: int|
        0 <= i < j < es.len() ==> (#[trigger] es[i]).key != (#[trigger] es[j]).key
}

/// Whether some entry of the document has the given key.
pub open spec fn has_key(es: Seq<SpecEntry>, k: Seq<char>) -> bool {
    exists|i: int| 0 <= i < es.len() && (#[trigger] es[i]).key == k
}

/// Every child reference of one entry resolves within the document.
pub open spec fn entry_refs_ok(es: Seq<SpecEntry>, e: SpecEntry) -> bool {
    forall|j: int| 0 <= j < entry_children(e).len() ==> has_key(es, #[trigger] entry_children(e)[j])
}

/// Every child reference of the whole document resolves within it.
pub open spec fn refs_ok(es: Seq<SpecEntry>) -> bool {
    forall|i: int| 0 <= i < es.len() ==> entry_refs_ok(es, #[trigger] es[i])
}

/// A configuration document is valid exactly when its keys are canonical and
/// unique and every child reference resolves within the same document.
pub open spec fn config_ok(es: Seq<SpecEntry>) -> bool {
    entries_well_keyed(es) && refs_ok(es)
}

/// The routes of a well-keyed document with resolving references form a
/// well-formed catalog.
pub proof fn lemma_routes_of_wf(es: Seq<SpecEntry>)
    requires
        config_ok(es),
    ensures
        routes_wf(routes_of(es)),
{
    let routes = routes_of(es);
    assert forall|i: int| 0 <= i < routes.len() implies canonical_key(
        (#[trigger] routes[i]).key,
    ) by {
        assert(routes[i] == entry_route(es[i]));
    }
    assert forall|i: int, j: int| 0 <= i < j < routes.len() implies (#[trigger] routes[i]).key != (
    #[trigger] routes[j]).key by {
        assert(routes[i] == entry_route(es[i]));
        assert(routes[j] == entry_route(es[j]));
    }
    assert forall|i: int| 0 <= i < routes.len() implies route_wf(routes, #[trigger] routes[i]) by {
        assert(routes[i] == entry_route(es[i]));
        if routes[i].kind is Branch {
            let children = routes[i].kind->Branch_0;
            assert(children == entry_children(es[i]));
            assert forall|j: int| 0 <= j < children.len() implies lookup(
                routes,
                #[trigger] children[j],
            ) is Some by {
                assert(has_key(es, entry_children(es[i])[j]));
                let w = choose|w: int|
                    0 <= w < es.len() && (#[trigger] es[w]).key == children[j];
                assert(routes[w] == entry_route(es[w]));
                assert(routes[w].key == children[j]);
                lemma_lookup_properties(routes, children[j]);
            }
        }
    }
}

/// The complete, validated, immutable mapping from route key to route.
pub struct Catalog {
    routes: Vec<Route>,
}

impl View for Catalog {
    type V = Seq<SpecRoute>;

    closed spec fn view(&self) -> Seq<SpecRoute> {
        self.routes.deep_view()
    }
}

impl Catalog {
    /// Every catalog that `load` hands out is well-formed.
    pub open spec fn wf(&self) -> bool {
        routes_wf(self@)
    }

    /// Exact-match lookup: no fuzzy matching, no case-folding.
    pub fn get(&self, key: &str) -> (r: Option<&Route>)
        ensures
            (r is Some) <==> (lookup(self@, key@) is Some),
            r matches Some(route) ==> route.deep_view() == lookup(self@, key@)->Some_0,
    {
        let n = self.routes.len();
        proof {
            assert(self@.skip(0) =~= self@);
        }
        let mut i: usize = 0;
        while i < n
            invariant
                n == self.routes.len(),
                i <= n,
                lookup(self@, key@) == lookup(self@.skip(i as int), key@),
            decreases n - i,
        {
            let ghost remaining = self@.skip(i as int);
            proof {
                assert(remaining[0] == self@[i as int]);
                assert(remaining.drop_first() =~= self@.skip(i as int + 1));
            }
            if str_eq(self.routes[i].key.as_str(), key) {
                return Some(&self.routes[i]);
            }
            i = i + 1;
        }
        proof {
            assert(self@.skip(n as int) =~= Seq::<SpecRoute>::empty());
        }
        None
    }

    /// How many routes the catalog holds.
    pub fn len(&self) -> (n: usize)
        ensures
            n == self@.len(),
    {
        self.routes.len()
    }
}

/// Whether some entry of the document carries the given key.
fn entries_have_key(entries: &Vec<RouteEntry>, key: &str) -> (r: bool)
    ensures
        r == has_key(entries.deep_view(), key@),
{
    let n = entries.len();
    let mut i: usize = 0;
    while i < n
        invariant
            n == entries.len(),
            i <= n,
            forall|j: int| 0 <= j < i ==> (#[trigger] entries.deep_view()[j]).key != key@,
        decreases n - i,
    {
        if str_eq(entries[i].key.as_str(), key) {
            proof {
                assert(entries.deep_view()[i as int].key == key@);
            }
            return true;
        }
        i = i + 1;
    }
    false
}

/// Builds the catalog from the entries of a configuration document, validating
/// the whole document eagerly.
///
/// The result is `Ok` exactly when the document is valid: `Malformed` reports
/// a non-canonical or duplicated key, `DanglingReference` reports a child
/// reference that does not resolve within the same document. On success the
/// catalog holds exactly the routes the entries denote, in entry order.
pub fn load(entries: Vec<RouteEntry>) -> (r: Result<Catalog, ConfigError>)
    ensures
        (r is Ok) <==> config_ok(entries.deep_view()),
        r matches Ok(c) ==> c@ == routes_of(entries.deep_view()) && c.wf(),
        r matches Err(e) ==> ((e is Malformed) <==> !entries_well_keyed(entries.deep_view())),
{
    let ghost es = entries.deep_view();
    let n = entries.len();

    // Keys must be canonical and pairwise distinct.
    let mut i: usize = 0;
    while i < n
        invariant
            n == entries.len(),
            es == entries.deep_view(),
            i <= n,
            forall|k: int| 0 <= k < i ==> canonical_key((#[trigger] es[k]).key),
            forall|k: int, l: int| 0 <= k < l < i ==> (#[trigger] es[k]).key != (#[trigger] es[l]).key,
        decreases n - i,
    {
        if contains_slash(entries[i].key.as_str()) {
            proof {
                assert(!canonical_key(es[i as int].key));
            }
            return Err(ConfigError::Malformed);
        }
        let mut j: usize = 0;
        while j < i
            invariant
                n == entries.len(),
                es == entries.deep_view(),
                j <= i < n,
                forall|l: int| 0 <= l < j ==> (#[trigger] es[l]).key != es[i as int].key,
            decreases i - j,
        {
            if str_eq(entries[j].key.as_str(), entries[i].key.as_str()) {
                proof {
                    assert(es[j as int].key == es[i as int].key);
                }
                return Err(ConfigError::Malformed);
            }
            j = j + 1;
        }
        i = i + 1;
    }
    proof {
        assert(entries_well_keyed(es));
    }

    // Every child reference must resolve within the same document.
    let mut i: usize = 0;
    while i < n
        invariant
            n == entries.len(),
            es == entries.deep_view(),
            i <= n,
            entries_well_keyed(es),
            forall|k: int| 0 <= k < i ==> entry_refs_ok(es, #[trigger] es[k]),
        decreases n - i,
    {
        match &entries[i].children {
            Some(children) => {
                if children.len() > 0 {
                    proof {
                        assert(entry_children(es[i as int]) == es[i as int].children->Some_0);
                    }
                    let mut j: usize = 0;
                    while j < children.len()
                        invariant
                            n == entries.len(),
                            es == entries.deep_view(),
                            i < n,
                            entries_well_keyed(es),
                            entries.deep_view()[i as int].children matches Some(cs) && cs
                                == children.deep_view(),
                            entry_children(es[i as int]) == children.deep_view(),
                            j <= children.len(),
                            forall|l: int|
                                0 <= l < j ==> has_key(es, #[trigger] entry_children(es[i as int])[l]),
                        decreases children.len() - j,
                    {
                        if !entries_have_key(&entries, children[j].as_str()) {
                            proof {
                                assert(!has_key(es, entry_children(es[i as int])[j as int]));
                                assert(!entry_refs_ok(es, es[i as int]));
                            }
                            return Err(ConfigError::DanglingReference);
                        }
                        j = j + 1;
                    }
                    proof {
                        assert(entry_refs_ok(es, es[i as int]));
                    }
                } else {
                    proof {
                        assert(entry_children(es[i as int]) =~= Seq::<Seq<char>>::empty());
                    }
                }
            },
            None => {
                proof {
                    assert(entry_children(es[i as int]) =~= Seq::<Seq<char>>::empty());
                }
            },
        }
        i = i + 1;
    }
    proof {
        assert(refs_ok(es));
    }

    // Build the routes, in entry order.
    let mut routes: Vec<Route> = Vec::new();
    let mut i: usize = 0;
    while i < n
        invariant
            n == entries.len(),
            es == entries.deep_view(),
            i <= n,
            routes.deep_view() =~= routes_of(es).take(i as int),
        decreases n - i,
    {
        let e = &entries[i];
        let kind = match &e.children {
            Some(children) => {
                if children.len() > 0 {
                    RouteKind::Branch(clone_keys(children))
                } else {
                    RouteKind::Leaf(clone_external(&e.external))
                }
            },
            None => RouteKind::Leaf(clone_external(&e.external)),
        };
        let route = Route {
            key: e.key.clone(),
            path: e.path.clone(),
            label: e.label.clone(),
            kind,
        };
        let ghost pre = routes.deep_view();
        proof {
            assert(route.deep_view() == entry_route(es[i as int]));
        }
        routes.push(route);
        i = i + 1;
        proof {
            assert(routes.deep_view() =~= pre.push(entry_route(es[i - 1])));
            assert(routes_of(es).take(i as int) =~= pre.push(entry_route(es[i - 1])));
        }
    }
    proof {
        assert(routes.deep_view() =~= routes_of(es));
        lemma_routes_of_wf(es);
    }
    Ok(Catalog { routes })
}

} // verus!
