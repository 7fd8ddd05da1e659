//! The menu renderer: given a resolved route and a rendering context, produces
//! the display text for the route's content and a button layout describing the
//! navigation options.

use vstd::prelude::*;
use vstd::utf8::{decode_utf8, valid_utf8};

use crate::catalog::{lookup, Catalog};
use crate::content::{decode_utf8_bytes, store_lookup, Contents, SpecDocument};
use crate::escape::{escape_markdown_v2, escape_seq};
use crate::layout::{
    layout, layout_spec, policy_wf, Button, ButtonAction, PackingPolicy, SpecAction, SpecButton,
};
use crate::model::{clone_route, Route, RouteKind, SpecRoute, SpecRouteKind};
use crate::resolve::{normalize_seq, resolve, ResolveError};

verus! {

/// How a route is being rendered: whether a leaf's external link may be
/// surfaced, and on whose behalf the menu is rendered. The flag is a policy of
/// the call site, not a property of the route: interactive navigation never
/// surfaces a raw outbound link, broadcast composition does.
#[derive(Clone, Copy)]
pub struct RenderContext {
    pub allow_external: bool,
    pub requesting_user: Option<i64>,
}

/// Why a route could not be rendered. Both cases are configuration defects
/// surfacing at request time, never transient conditions.
#[derive(Clone, Copy, Debug, PartialEq, Eq, Structural)]
pub enum RenderError {
    /// The content store has no document under the route's derived key.
    ContentMissing,
    /// The stored document is not valid UTF-8 text.
    ContentCorrupt,
}

/// The rendered menu: display text and a grid of buttons. Ephemeral, never
/// persisted.
pub struct RenderedMenu {
    pub text: String,
    pub buttons: Vec<Vec<Button>>,
}

/// Mathematical value of a [`RenderedMenu`].
pub struct SpecMenu {
    pub text: Seq<char>,
    pub buttons: Seq<Seq<SpecButton>>,
}

impl DeepView for RenderedMenu {
    type V = SpecMenu;

    open spec fn deep_view(&self) -> SpecMenu {
        SpecMenu { text: self.text@, buttons: self.buttons.deep_view() }
    }
}

/// The key of the route's root ("home") node.
pub open spec fn home_key() -> Seq<char> {
    "start"@
}

/// The "return to home" button a leaf renders when no external link is shown.
pub open spec fn home_button() -> SpecButton {
    SpecButton { label: "На Главную"@, action: SpecAction::Callback(home_key()) }
}

/// The open-URL button of a leaf's external link.
pub open spec fn link_button(link: crate::model::SpecLink) -> SpecButton {
    SpecButton { label: link.label, action: SpecAction::OpenUrl(link.url) }
}

/// The routes the given child keys resolve to, in order.
pub open spec fn children_routes(cat: Seq<SpecRoute>, keys: Seq<Seq<char>>) -> Seq<SpecRoute> {
    keys.map_values(|k: Seq<char>| lookup(cat, k)->Some_0)
}

/// The button grid of a route: a branch lays its children out under the given
/// packing policy; a leaf renders its external link when the context allows
/// it, and a single "return to home" button otherwise.
pub open spec fn menu_buttons(
    cat: Seq<SpecRoute>,
    r: SpecRoute,
    ctx: RenderContext,
    policy: PackingPolicy,
) -> Seq<Seq<SpecButton>> {
    match r.kind {
        SpecRouteKind::Branch(keys) => layout_spec(children_routes(cat, keys), policy),
        SpecRouteKind::Leaf(external) => {
            if ctx.allow_external && external is Some {
                seq![seq![link_button(external->0)]]
            } else {
                seq![seq![home_button()]]
            }
        },
    }
}

/// The content-document key derived from a route key.
pub open spec fn doc_key_seq(key: Seq<char>) -> Seq<char> {
    key + ".md"@
}

/// What `render` returns, as a function of the catalog, the route, the
/// context, the store and the policy alone.
pub open spec fn render_spec(
    cat: Seq<SpecRoute>,
    r: SpecRoute,
    ctx: RenderContext,
    store: Seq<SpecDocument>,
    policy: PackingPolicy,
) -> Result<SpecMenu, RenderError> {
    match store_lookup(store, doc_key_seq(r.key)) {
        None => Err(RenderError::ContentMissing),
        Some(bytes) => {
            if !valid_utf8(bytes) {
                Err(RenderError::ContentCorrupt)
            } else {
                Ok(SpecMenu { text: decode_utf8(bytes), buttons: menu_buttons(cat, r, ctx, policy) })
            }
        },
    }
}

/// The content-document key derived from a route key.
pub fn doc_key(key: &String) -> (r: String)
    ensures
        r@ == doc_key_seq(key@),
{
    key.clone().concat(".md")
}

/// The "return to home" button.
fn make_home_button() -> (b: Button)
    ensures
        b.deep_view() == home_button(),
{
    Button {
        label: String::from_str("На Главную"),
        action: ButtonAction::Callback(String::from_str("start")),
    }
}

/// The routes of the given child keys, each of which must resolve in the
/// catalog.
fn collect_children(catalog: &Catalog, keys: &Vec<String>) -> (rs: Vec<Route>)
    requires
        forall|j: int|
            0 <= j < keys.deep_view().len() ==> lookup(
                catalog@,
                #[trigger] keys.deep_view()[j],
            ) is Some,
    ensures
        rs.deep_view() == children_routes(catalog@, keys.deep_view()),
{
    let ghost target = children_routes(catalog@, keys.deep_view());
    let mut rs: Vec<Route> = Vec::new();
    let mut j: usize = 0;
    while j < keys.len()
        invariant
            target == children_routes(catalog@, keys.deep_view()),
            forall|l: int|
                0 <= l < keys.deep_view().len() ==> lookup(
                    catalog@,
                    #[trigger] keys.deep_view()[l],
                ) is Some,
            j <= keys.len(),
            rs.deep_view() =~= target.take(j as int),
        decreases keys.len() - j,
    {
        let ghost pre = rs.deep_view();
        proof {
            assert(lookup(catalog@, keys.deep_view()[j as int]) is Some);
        }
        let found = catalog.get(keys[j].as_str());
        let child = found.unwrap();
        let copy = clone_route(child);
        proof {
            assert(copy.deep_view() == target[j as int]);
        }
        rs.push(copy);
        j = j + 1;
        proof {
            assert(rs.deep_view() =~= pre.push(target[j - 1]));
            assert(target.take(j as int) =~= pre.push(target[j - 1]));
        }
    }
    proof {
        assert(target.take(keys.len() as int) =~= target);
    }
    rs
}

/// Renders one route: derives the content-document key from the route key,
/// looks the document up in the store, decodes it as UTF-8 text, and arranges
/// the route's navigation buttons.
///
/// Fails with `ContentMissing` exactly when the store has no document under
/// the derived key, and with `ContentCorrupt` exactly when the document is not
/// valid UTF-8; on success the text is the decoded document and the buttons
/// are the grid `menu_buttons` describes.
pub fn render(
    catalog: &Catalog,
    route: &Route,
    ctx: &RenderContext,
    store: &Contents,
    policy: PackingPolicy,
) -> (r: Result<RenderedMenu, RenderError>)
    requires
        catalog.wf(),
        lookup(catalog@, route.deep_view().key) == Some(route.deep_view()),
        policy_wf(policy),
    ensures
        r matches Ok(m) ==> render_spec(catalog@, route.deep_view(), *ctx, store@, policy)
            == Ok::<SpecMenu, RenderError>(m.deep_view()),
        r matches Err(e) ==> render_spec(catalog@, route.deep_view(), *ctx, store@, policy)
            == Err::<SpecMenu, RenderError>(e),
{
    let name = doc_key(&route.key);
    let data = match store.get(name.as_str()) {
        Some(data) => data,
        None => {
            return Err(RenderError::ContentMissing);
        },
    };
    let text = match decode_utf8_bytes(data) {
        Some(text) => text,
        None => {
            return Err(RenderError::ContentCorrupt);
        },
    };
    let buttons = match &route.kind {
        RouteKind::Branch(keys) => {
            proof {
                crate::catalog::lemma_lookup_properties(catalog@, route.deep_view().key);
                let i = choose|i: int|
                    0 <= i < catalog@.len() && #[trigger] catalog@[i] == route.deep_view();
                assert(crate::catalog::route_wf(catalog@, catalog@[i]));
            }
            let children = collect_children(catalog, keys);
            layout(&children, policy)
        },
        RouteKind::Leaf(external) => {
            let mut row: Vec<Button> = Vec::new();
            if ctx.allow_external {
                match external {
                    Some(link) => {
                        row.push(
                            Button {
                                label: link.label.clone(),
                                action: ButtonAction::OpenUrl(link.url.clone()),
                            },
                        );
                    },
                    None => {
                        row.push(make_home_button());
                    },
                }
            } else {
                row.push(make_home_button());
            }
            let mut grid: Vec<Vec<Button>> = Vec::new();
            let ghost row_view = row.deep_view();
            grid.push(row);
            proof {
                assert(grid.deep_view() =~= seq![row_view]);
                assert(row_view =~= menu_buttons(
                    catalog@,
                    route.deep_view(),
                    *ctx,
                    policy,
                )[0]);
                assert(grid.deep_view() =~= menu_buttons(catalog@, route.deep_view(), *ctx, policy));
            }
            grid
        },
    };
    Ok(RenderedMenu { text, buttons })
}

/// Why a raw input could not be turned into a rendered menu.
#[derive(Clone, Copy, Debug, PartialEq, Eq, Structural)]
pub enum MenuError {
    /// The canonical form of the input is not a key of the catalog.
    UnknownRoute,
    /// The content store has no document under the route's derived key.
    ContentMissing,
    /// The stored document is not valid UTF-8 text.
    ContentCorrupt,
}

/// What `build_details_with_user` returns, as a function of its inputs alone:
/// the input resolved, the route rendered under the length-aware policy, and
/// the display text escaped for the transport format.
pub open spec fn build_details_spec(
    cat: Seq<SpecRoute>,
    store: Seq<SpecDocument>,
    raw: Seq<char>,
    ctx: RenderContext,
) -> Result<SpecMenu, MenuError> {
    match lookup(cat, normalize_seq(raw)) {
        None => Err(MenuError::UnknownRoute),
        Some(route) => match render_spec(cat, route, ctx, store, PackingPolicy::LengthAware) {
            Err(RenderError::ContentMissing) => Err(MenuError::ContentMissing),
            Err(RenderError::ContentCorrupt) => Err(MenuError::ContentCorrupt),
            Ok(menu) => Ok(SpecMenu { text: escape_seq(menu.text), buttons: menu.buttons }),
        },
    }
}

/// Resolves a raw command or callback string and renders the route it names,
/// with the display text escaped for the transport format, threading the
/// requesting user through for personalized button actions.
pub fn build_details_with_user(
    catalog: &Catalog,
    store: &Contents,
    text: &str,
    is_external: bool,
    user_id: Option<i64>,
) -> (r: Result<RenderedMenu, MenuError>)
    requires
        catalog.wf(),
    ensures
        r matches Ok(m) ==> build_details_spec(
            catalog@,
            store@,
            text@,
            RenderContext { allow_external: is_external, requesting_user: user_id },
        ) == Ok::<SpecMenu, MenuError>(m.deep_view()),
        r matches Err(e) ==> build_details_spec(
            catalog@,
            store@,
            text@,
            RenderContext { allow_external: is_external, requesting_user: user_id },
        ) == Err::<SpecMenu, MenuError>(e),
{
    let key = match resolve(catalog, text) {
        Ok(key) => key,
        Err(ResolveError::NotFound) => {
            return Err(MenuError::UnknownRoute);
        },
    };
    let route = catalog.get(key.as_str()).unwrap();
    proof {
        crate::catalog::lemma_lookup_properties(catalog@, key@);
        assert(lookup(catalog@, route.deep_view().key) == Some(route.deep_view()));
    }
    let ctx = RenderContext { allow_external: is_external, requesting_user: user_id };
    match render(catalog, route, &ctx, store, PackingPolicy::LengthAware) {
        Ok(menu) => {
            let escaped = escape_markdown_v2(menu.text);
            Ok(RenderedMenu { text: escaped, buttons: menu.buttons })
        },
        Err(RenderError::ContentMissing) => Err(MenuError::ContentMissing),
        Err(RenderError::ContentCorrupt) => Err(MenuError::ContentCorrupt),
    }
}

/// Resolves a raw command or callback string and renders the route it names,
/// with the display text escaped for the transport format.
pub fn build_details(catalog: &Catalog, store: &Contents, text: &str, is_external: bool) -> (r:
    Result<RenderedMenu, MenuError>)
    requires
        catalog.wf(),
    ensures
        r matches Ok(m) ==> build_details_spec(
            catalog@,
            store@,
            text@,
            RenderContext { allow_external: is_external, requesting_user: None },
        ) == Ok::<SpecMenu, MenuError>(m.deep_view()),
        r matches Err(e) ==> build_details_spec(
            catalog@,
            store@,
            text@,
            RenderContext { allow_external: is_external, requesting_user: None },
        ) == Err::<SpecMenu, MenuError>(e),
{
    build_details_with_user(catalog, store, text, is_external, None)
}

} // verus!
