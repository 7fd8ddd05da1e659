//! The data model of the route graph: routes, their child links, optional
//! external links, and the raw configuration entries a catalog is loaded from.

use vstd::prelude::*;

verus! {

/// An outbound hyperlink attached to a leaf route: a button label and the
/// target URL.
pub struct ExternalLink {
    pub label: String,
    pub url: String,
}

/// Mathematical value of an [`ExternalLink`].
pub struct SpecLink {
    pub label: Seq<char>,
    pub url: Seq<char>,
}

impl DeepView for ExternalLink {
    type V = SpecLink;

    open spec fn deep_view(&self) -> SpecLink {
        SpecLink { label: self.label@, url: self.url@ }
    }
}

/// What a route is, structurally: an inner node with an ordered, non-empty
/// list of child route keys, or a leaf with an optional external link.
pub enum RouteKind {
    Branch(Vec<String>),
    Leaf(Option<ExternalLink>),
}

/// Mathematical value of a [`RouteKind`].
pub enum SpecRouteKind {
    Branch(Seq<Seq<char>>),
    Leaf(Option<SpecLink>),
}

impl DeepView for RouteKind {
    type V = SpecRouteKind;

    open spec fn deep_view(&self) -> SpecRouteKind {
        match self {
            RouteKind::Branch(children) => SpecRouteKind::Branch(children.deep_view()),
            RouteKind::Leaf(external) => SpecRouteKind::Leaf(external.deep_view()),
        }
    }
}

/// One node of the menu graph. `key` is the canonical identifier the resolver
/// produces and the layout engine emits as callback payload; `label` is the
/// text shown on the node's button; `path` is carried through from the
/// configuration and not interpreted here.
pub struct Route {
    pub key: String,
    pub path: String,
    pub label: String,
    pub kind: RouteKind,
}

/// Mathematical value of a [`Route`].
pub struct SpecRoute {
    pub key: Seq<char>,
    pub path: Seq<char>,
    pub label: Seq<char>,
    pub kind: SpecRouteKind,
}

impl DeepView for Route {
    type V = SpecRoute;

    open spec fn deep_view(&self) -> SpecRoute {
        SpecRoute {
            key: self.key@,
            path: self.path@,
            label: self.label@,
            kind: self.kind.deep_view(),
        }
    }
}

/// One entry of a configuration document, as handed to `load`: the mapping
/// key together with the fields of the route record. `children` and
/// `external` are optional, exactly as in the serialized form.
pub struct RouteEntry {
    pub key: String,
    pub path: String,
    pub label: String,
    pub children: Option<Vec<String>>,
    pub external: Option<ExternalLink>,
}

/// Mathematical value of a [`RouteEntry`].
pub struct SpecEntry {
    pub key: Seq<char>,
    pub path: Seq<char>,
    pub label: Seq<char>,
    pub children: Option<Seq<Seq<char>>>,
    pub external: Option<SpecLink>,
}

impl DeepView for RouteEntry {
    type V = SpecEntry;

    open spec fn deep_view(&self) -> SpecEntry {
        SpecEntry {
            key: self.key@,
            path: self.path@,
            label: self.label@,
            children: self.children.deep_view(),
            external: self.external.deep_view(),
        }
    }
}

/// The child keys an entry actually contributes: an absent or empty
/// `children` list makes the route a leaf and contributes none.
pub open spec fn entry_children(e: SpecEntry) -> Seq<Seq<char>> {
    match e.children {
        Some(children) => if children.len() > 0 {
            children
        } else {
            Seq::empty()
        },
        None => Seq::empty(),
    }
}

/// The route a configuration entry denotes. A present, non-empty `children`
/// list makes the route a branch (an external link there is not rendered, as
/// external links belong to leaf routes only); otherwise the route is a leaf
/// carrying the optional external link.
pub open spec fn entry_route(e: SpecEntry) -> SpecRoute {
    SpecRoute {
        key: e.key,
        path: e.path,
        label: e.label,
        kind: match e.children {
            Some(children) => if children.len() > 0 {
                SpecRouteKind::Branch(children)
            } else {
                SpecRouteKind::Leaf(e.external)
            },
            None => SpecRouteKind::Leaf(e.external),
        },
    }
}

/// The routes denoted by a whole sequence of configuration entries, in order.
pub open spec fn routes_of(es: Seq<SpecEntry>) -> Seq<SpecRoute> {
    es.map_values(|e: SpecEntry| entry_route(e))
}

/// An exact copy of a list of route keys.
pub fn clone_keys(keys: &Vec<String>) -> (r: Vec<String>)
    ensures
        r.deep_view() == keys.deep_view(),
{
    let mut out: Vec<String> = Vec::new();
    let mut i: usize = 0;
    while i < keys.len()
        invariant
            i <= keys.len(),
            out.deep_view() =~= keys.deep_view().take(i as int),
        decreases keys.len() - i,
    {
        let ghost pre = out.deep_view();
        out.push(keys[i].clone());
        i = i + 1;
        proof {
            assert(out.deep_view() =~= pre.push(keys.deep_view()[i - 1]));
            assert(keys.deep_view().take(i as int) =~= pre.push(keys.deep_view()[i - 1]));
        }
    }
    proof {
        assert(keys.deep_view().take(keys.len() as int) =~= keys.deep_view());
        assert(out.deep_view() =~= keys.deep_view());
    }
    out
}

/// An exact copy of a route.
pub fn clone_route(route: &Route) -> (r: Route)
    ensures
        r.deep_view() == route.deep_view(),
{
    let kind = match &route.kind {
        RouteKind::Branch(children) => RouteKind::Branch(clone_keys(children)),
        RouteKind::Leaf(external) => RouteKind::Leaf(clone_external(external)),
    };
    Route {
        key: route.key.clone(),
        path: route.path.clone(),
        label: route.label.clone(),
        kind,
    }
}

/// An exact copy of an optional external link.
pub fn clone_external(ext: &Option<ExternalLink>) -> (r: Option<ExternalLink>)
    ensures
        r.deep_view() == ext.deep_view(),
{
    match ext {
        Some(link) => Some(ExternalLink { label: link.label.clone(), url: link.url.clone() }),
        None => None,
    }
}

} // verus!
