//! Laws that tie the components together.

use vstd::prelude::*;

use crate::catalog::{
    canonical_key, config_ok, entries_well_keyed, lemma_lookup_properties, lookup, refs_ok,
    route_wf, routes_wf,
};
use crate::layout::{
    button_of, buttons_of, layout_spec, lemma_chunk_rows_flatten, lemma_length_aware_flatten,
    policy_wf, PackingPolicy, SpecAction,
};
use crate::model::{SpecEntry, SpecRoute};
use crate::render::children_routes;
use crate::resolve::{lemma_hyphenate_identity, normalize_seq, resolve_seq, ResolveError};

verus! {

/// Law (eager validation): a well-keyed configuration document loads exactly
/// when every child reference resolves within the same document — `load`
/// promises `Ok` on precisely the documents `config_ok` describes, so a
/// dangling reference refuses the whole document at load time and can never
/// surface later as a panic.
pub proof fn lemma_load_succeeds_iff_refs_resolve(es: Seq<SpecEntry>)
    requires
        entries_well_keyed(es),
    ensures
        config_ok(es) <==> refs_ok(es),
{
}

/// A canonical key is a fixed point of normalization.
pub proof fn lemma_canonical_fixed_point(k: Seq<char>)
    requires
        canonical_key(k),
    ensures
        normalize_seq(k) == k,
{
    if k.len() > 0 && k[0] == '/' {
        assert(k.contains('/'));
    }
    lemma_hyphenate_identity(k);
}

/// Law (round-trip): for every route with children in a well-formed catalog,
/// and under either packing policy, the emitted grid holds one button per
/// child, in order, whose callback payload is exactly that child's key, and
/// every such payload resolves, verbatim, back to that key.
pub proof fn lemma_layout_round_trip(cat: Seq<SpecRoute>, r: SpecRoute, policy: PackingPolicy)
    requires
        routes_wf(cat),
        lookup(cat, r.key) == Some(r),
        r.kind is Branch,
        policy_wf(policy),
    ensures
        ({
            let keys = r.kind->Branch_0;
            let flat = layout_spec(children_routes(cat, keys), policy).flatten();
            &&& flat.len() == keys.len()
            &&& forall|i: int|
                0 <= i < keys.len() ==> (#[trigger] flat[i]).action == SpecAction::Callback(keys[i])
            &&& forall|i: int|
                0 <= i < keys.len() ==> resolve_seq(cat, #[trigger] keys[i]) == Ok::<
                    Seq<char>,
                    ResolveError,
                >(keys[i])
        }),
{
    let keys = r.kind->Branch_0;
    let routes = children_routes(cat, keys);
    let bs = buttons_of(routes);
    let flat = layout_spec(routes, policy).flatten();
    match policy {
        PackingPolicy::FixedChunk(n) => {
            lemma_chunk_rows_flatten(bs, n as int);
        },
        PackingPolicy::LengthAware => {
            lemma_length_aware_flatten(bs, Seq::empty());
            assert(Seq::<crate::layout::SpecButton>::empty() + bs =~= bs);
        },
    }
    assert(flat == bs);
    lemma_lookup_properties(cat, r.key);
    let w = choose|w: int| 0 <= w < cat.len() && #[trigger] cat[w] == r;
    assert(route_wf(cat, cat[w]));
    assert forall|i: int| 0 <= i < keys.len() implies (#[trigger] flat[i]).action
        == SpecAction::Callback(keys[i]) by {
        assert(lookup(cat, keys[i]) is Some);
        assert(routes[i] == lookup(cat, keys[i])->Some_0);
        assert(bs[i] == button_of(routes[i]));
        lemma_lookup_properties(cat, keys[i]);
        assert(routes[i].key == keys[i]);
    }
    assert forall|i: int| 0 <= i < keys.len() implies resolve_seq(cat, #[trigger] keys[i]) == Ok::<
        Seq<char>,
        ResolveError,
    >(keys[i]) by {
        assert(lookup(cat, keys[i]) is Some);
        lemma_lookup_properties(cat, keys[i]);
        let j = choose|j: int| 0 <= j < cat.len() && (#[trigger] cat[j]).key == keys[i];
        assert(canonical_key(keys[i]));
        lemma_canonical_fixed_point(keys[i]);
    }
}

} // verus!
