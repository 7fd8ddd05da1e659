//! The route resolver: derives the canonical route key from a raw command or
//! callback string and looks it up in the catalog.
//!
//! The one canonical normalization rule, applied at every entry point (message
//! commands, callback payloads, and content-file key derivation alike): strip
//! a single leading slash if present, then map every remaining slash to a
//! hyphen. A canonical key therefore contains no slash, and normalizing is
//! idempotent.

use vstd::prelude::*;

use crate::catalog::{canonical_key, lookup, Catalog};
use crate::chars::push_char;
use crate::model::SpecRoute;

verus! {

/// Where normalization sends one character.
pub open spec fn canon_char(c: char) -> char {
    if c == '/' {
        '-'
    } else {
        c
    }
}

/// Every slash of the text mapped to a hyphen, the rest kept, in order.
pub open spec fn hyphenate(s: Seq<char>) -> Seq<char>
    decreases s.len(),
{
    if s.len() == 0 {
        Seq::empty()
    } else {
        hyphenate(s.drop_last()).push(canon_char(s.last()))
    }
}

/// The canonical form of a raw input: one leading slash stripped if present,
/// every remaining slash mapped to a hyphen.
pub open spec fn normalize_seq(s: Seq<char>) -> Seq<char> {
    if s.len() > 0 && s[0] == '/' {
        hyphenate(s.drop_first())
    } else {
        hyphenate(s)
    }
}

/// `hyphenate` keeps the length and maps each character pointwise.
pub proof fn lemma_hyphenate_pointwise(s: Seq<char>)
    ensures
        hyphenate(s).len() == s.len(),
        forall|i: int| 0 <= i < s.len() ==> hyphenate(s)[i] == canon_char(s[i]),
    decreases s.len(),
{
    if s.len() > 0 {
        lemma_hyphenate_pointwise(s.drop_last());
    }
}

/// A text without slashes is left unchanged by `hyphenate`.
pub proof fn lemma_hyphenate_identity(s: Seq<char>)
    requires
        canonical_key(s),
    ensures
        hyphenate(s) == s,
{
    lemma_hyphenate_pointwise(s);
    assert forall|i: int| 0 <= i < s.len() implies hyphenate(s)[i] == s[i] by {
        assert(s[i] != '/');
    }
    assert(hyphenate(s) =~= s);
}

/// The canonical form contains no slash: it is itself a canonical key.
pub proof fn lemma_normalize_canonical(s: Seq<char>)
    ensures
        canonical_key(normalize_seq(s)),
{
    let t = normalize_seq(s);
    if s.len() > 0 && s[0] == '/' {
        lemma_hyphenate_pointwise(s.drop_first());
    } else {
        lemma_hyphenate_pointwise(s);
    }
    assert forall|i: int| 0 <= i < t.len() implies t[i] != '/' by {}
    if t.contains('/') {
        let i = choose|i: int| 0 <= i < t.len() && t[i] == '/';
    }
}

/// Law: normalizing is idempotent; re-normalizing an already-canonical key is
/// a no-op.
pub proof fn lemma_normalize_idempotent(s: Seq<char>)
    ensures
        normalize_seq(normalize_seq(s)) == normalize_seq(s),
{
    let t = normalize_seq(s);
    lemma_normalize_canonical(s);
    if t.len() > 0 {
        assert(t[0] != '/') by {
            if t[0] == '/' {
                assert(t.contains('/'));
            }
        }
    }
    lemma_hyphenate_identity(t);
}

/// Why a raw input did not resolve to a route.
#[derive(Clone, Copy, Debug, PartialEq, Eq, Structural)]
pub enum ResolveError {
    /// The canonical form of the input is not a key of the catalog.
    NotFound,
}

/// What `resolve` returns on a raw input, as a function of the catalog and the
/// input alone.
pub open spec fn resolve_seq(routes: Seq<SpecRoute>, raw: Seq<char>) -> Result<
    Seq<char>,
    ResolveError,
> {
    if lookup(routes, normalize_seq(raw)) is Some {
        Ok(normalize_seq(raw))
    } else {
        Err(ResolveError::NotFound)
    }
}

/// Law: resolving is stable under normalization; an input and its canonical
/// form resolve alike.
pub proof fn lemma_resolve_idempotent(routes: Seq<SpecRoute>, raw: Seq<char>)
    ensures
        resolve_seq(routes, normalize_seq(raw)) == resolve_seq(routes, raw),
{
    lemma_normalize_idempotent(raw);
}

/// The canonical form of a raw command or callback string.
pub fn normalize(raw: &str) -> (r: String)
    ensures
        r@ == normalize_seq(raw@),
{
    let n: usize = raw.unicode_len();
    let start: usize = if n > 0 && raw.get_char(0) == '/' {
        1
    } else {
        0
    };
    let mut out: String = String::new();
    let mut i: usize = start;
    while i < n
        invariant
            n == raw@.len(),
            start <= i <= n,
            start == 1 ==> n > 0 && raw@[0] == '/',
            start == 0 ==> n == 0 || raw@[0] != '/',
            out@ == hyphenate(raw@.subrange(start as int, i as int)),
        decreases n - i,
    {
        let c = raw.get_char(i);
        let ghost pre = out@;
        if c == '/' {
            push_char(&mut out, '-');
        } else {
            push_char(&mut out, c);
        }
        i = i + 1;
        proof {
            let t = raw@.subrange(start as int, i as int);
            assert(t.drop_last() =~= raw@.subrange(start as int, i as int - 1));
            assert(t.last() == raw@[i as int - 1]);
            assert(out@ =~= pre.push(canon_char(raw@[i as int - 1])));
        }
    }
    proof {
        if start == 1 {
            assert(raw@.subrange(1, n as int) =~= raw@.drop_first());
        } else {
            assert(raw@.subrange(0, n as int) =~= raw@);
        }
    }
    out
}

/// Derives the canonical route key from a raw input and looks it up in the
/// catalog. Fails with `NotFound` exactly when the canonical form is not a key
/// of the catalog; no user-facing text is produced here.
pub fn resolve(catalog: &Catalog, raw: &str) -> (r: Result<String, ResolveError>)
    ensures
        (r is Ok) <==> (resolve_seq(catalog@, raw@) is Ok),
        r matches Ok(key) ==> key@ == normalize_seq(raw@) && resolve_seq(catalog@, raw@) == Ok::<
            Seq<char>,
            ResolveError,
        >(key@),
        r matches Err(e) ==> e == ResolveError::NotFound && lookup(
            catalog@,
            normalize_seq(raw@),
        ) is None,
{
    let key = normalize(raw);
    match catalog.get(key.as_str()) {
        Some(_) => Ok(key),
        None => Err(ResolveError::NotFound),
    }
}

} // verus!
