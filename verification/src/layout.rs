//! The button layout engine: a pure function from a route's children to a
//! grid of labelled, addressable buttons, under one of two packing policies.
//!
//! A callback button's action payload is exactly the target route's key, so
//! whatever string is placed on a button resolves, unmodified, back to the
//! same route (see `lemma_layout_round_trip` in `laws`).

use vstd::prelude::*;
use vstd::seq_lib::lemma_flatten_concat;

use crate::model::{Route, SpecRoute};

verus! {

/// What activating a button does: feed the route key back as a callback
/// payload, or open an outbound URL.
pub enum ButtonAction {
    Callback(String),
    OpenUrl(String),
}

/// Mathematical value of a [`ButtonAction`].
pub enum SpecAction {
    Callback(Seq<char>),
    OpenUrl(Seq<char>),
}

impl DeepView for ButtonAction {
    type V = SpecAction;

    open spec fn deep_view(&self) -> SpecAction {
        match self {
            ButtonAction::Callback(key) => SpecAction::Callback(key@),
            ButtonAction::OpenUrl(url) => SpecAction::OpenUrl(url@),
        }
    }
}

/// One labelled button.
pub struct Button {
    pub label: String,
    pub action: ButtonAction,
}

/// Mathematical value of a [`Button`].
pub struct SpecButton {
    pub label: Seq<char>,
    pub action: SpecAction,
}

impl DeepView for Button {
    type V = SpecButton;

    open spec fn deep_view(&self) -> SpecButton {
        SpecButton { label: self.label@, action: self.action.deep_view() }
    }
}

/// How children are arranged into rows.
#[derive(Clone, Copy, Debug, PartialEq, Eq, Structural)]
pub enum PackingPolicy {
    /// Rows of exactly this many buttons, in original order, last row ragged.
    FixedChunk(usize),
    /// Up to two buttons per row, but a button with a label longer than
    /// [`WIDE_LABEL_LEN`] characters goes into a full-width row of its own,
    /// flushing any partially filled row first.
    LengthAware,
}

/// Labels longer than this many characters wrap badly in a two-per-row grid on
/// narrow clients, so the length-aware policy gives them a row of their own.
pub const WIDE_LABEL_LEN: usize = 20;

/// A fixed chunk size must be positive for rows of exactly that size to exist.
pub open spec fn policy_wf(policy: PackingPolicy) -> bool {
    policy matches PackingPolicy::FixedChunk(n) ==> n >= 1
}

/// The button a child route is shown as: its label, and its key as the
/// callback payload.
pub open spec fn button_of(r: SpecRoute) -> SpecButton {
    SpecButton { label: r.label, action: SpecAction::Callback(r.key) }
}

/// The buttons of a sequence of child routes, in order.
pub open spec fn buttons_of(rs: Seq<SpecRoute>) -> Seq<SpecButton> {
    rs.map_values(|r: SpecRoute| button_of(r))
}

/// Whether the length-aware policy gives this button a row of its own.
pub open spec fn wide(b: SpecButton) -> bool {
    b.label.len() > WIDE_LABEL_LEN
}

/// Partition into rows of exactly `n`, in order, last row ragged.
pub open spec fn chunk_rows(bs: Seq<SpecButton>, n: int) -> Seq<Seq<SpecButton>>
    recommends
        n >= 1,
    decreases bs.len()
        when n >= 1
{
    if bs.len() == 0 {
        Seq::empty()
    } else if bs.len() <= n {
        seq![bs]
    } else {
        seq![bs.take(n)] + chunk_rows(bs.skip(n), n)
    }
}

/// The length-aware arrangement of the remaining buttons `bs`, given the
/// partially filled current row `row`.
pub open spec fn length_aware_rows(bs: Seq<SpecButton>, row: Seq<SpecButton>) -> Seq<
    Seq<SpecButton>,
>
    decreases bs.len(),
{
    if bs.len() == 0 {
        if row.len() == 0 {
            Seq::empty()
        } else {
            seq![row]
        }
    } else {
        let b = bs[0];
        if wide(b) {
            (if row.len() == 0 {
                Seq::empty()
            } else {
                seq![row]
            }) + seq![seq![b]] + length_aware_rows(bs.drop_first(), Seq::empty())
        } else {
            let row2 = row.push(b);
            if row2.len() == 2 {
                seq![row2] + length_aware_rows(bs.drop_first(), Seq::empty())
            } else {
                length_aware_rows(bs.drop_first(), row2)
            }
        }
    }
}

/// The grid a packing policy arranges the given buttons into.
pub open spec fn pack_spec(bs: Seq<SpecButton>, policy: PackingPolicy) -> Seq<Seq<SpecButton>> {
    match policy {
        PackingPolicy::FixedChunk(n) => chunk_rows(bs, n as int),
        PackingPolicy::LengthAware => length_aware_rows(bs, Seq::empty()),
    }
}

/// The grid a packing policy arranges the buttons of the given child routes
/// into. Both policies are deterministic pure functions of the input sequence.
pub open spec fn layout_spec(rs: Seq<SpecRoute>, policy: PackingPolicy) -> Seq<Seq<SpecButton>> {
    pack_spec(buttons_of(rs), policy)
}

/// Fixed-size chunking loses no button and keeps the original order.
pub proof fn lemma_chunk_rows_flatten(bs: Seq<SpecButton>, n: int)
    requires
        n >= 1,
    ensures
        chunk_rows(bs, n).flatten() == bs,
    decreases bs.len(),
{
    if bs.len() == 0 {
        assert(chunk_rows(bs, n).flatten() =~= bs);
    } else if bs.len() <= n {
        seq![bs].lemma_flatten_one_element();
    } else {
        lemma_chunk_rows_flatten(bs.skip(n), n);
        lemma_flatten_concat(seq![bs.take(n)], chunk_rows(bs.skip(n), n));
        seq![bs.take(n)].lemma_flatten_one_element();
        assert(bs.take(n) + bs.skip(n) =~= bs);
    }
}

/// Length-aware packing loses no button and keeps the original order.
pub proof fn lemma_length_aware_flatten(bs: Seq<SpecButton>, row: Seq<SpecButton>)
    ensures
        length_aware_rows(bs, row).flatten() == row + bs,
    decreases bs.len(),
{
    if bs.len() == 0 {
        if row.len() == 0 {
            assert(length_aware_rows(bs, row).flatten() =~= row + bs);
        } else {
            seq![row].lemma_flatten_one_element();
            assert(row =~= row + bs);
        }
    } else {
        let b = bs[0];
        let rest = bs.drop_first();
        if wide(b) {
            let flushed = if row.len() == 0 {
                Seq::<Seq<SpecButton>>::empty()
            } else {
                seq![row]
            };
            lemma_length_aware_flatten(rest, Seq::empty());
            lemma_flatten_concat(flushed + seq![seq![b]], length_aware_rows(rest, Seq::empty()));
            lemma_flatten_concat(flushed, seq![seq![b]]);
            seq![seq![b]].lemma_flatten_one_element();
            if row.len() > 0 {
                seq![row].lemma_flatten_one_element();
            } else {
                assert(flushed.flatten() =~= Seq::<SpecButton>::empty());
            }
            assert(Seq::<SpecButton>::empty() + rest =~= rest);
            assert(flushed.flatten() + seq![b] + rest =~= row + bs);
        } else {
            let row2 = row.push(b);
            lemma_length_aware_flatten(rest, Seq::empty());
            lemma_length_aware_flatten(rest, row2);
            if row2.len() == 2 {
                lemma_flatten_concat(seq![row2], length_aware_rows(rest, Seq::empty()));
                seq![row2].lemma_flatten_one_element();
                assert(Seq::<SpecButton>::empty() + rest =~= rest);
                assert(row2 + rest =~= row + bs);
            } else {
                assert(row2 + rest =~= row + bs);
            }
        }
    }
}

/// The button a child route is shown as.
pub fn child_button(route: &Route) -> (b: Button)
    ensures
        b.deep_view() == button_of(route.deep_view()),
{
    Button { label: route.label.clone(), action: ButtonAction::Callback(route.key.clone()) }
}

/// Arranges the buttons of the given child routes into a grid under the given
/// packing policy, in original order.
pub fn layout(children: &Vec<Route>, policy: PackingPolicy) -> (g: Vec<Vec<Button>>)
    requires
        policy_wf(policy),
    ensures
        g.deep_view() == layout_spec(children.deep_view(), policy),
{
    match policy {
        PackingPolicy::FixedChunk(n) => layout_fixed(children, n),
        PackingPolicy::LengthAware => layout_length_aware(children),
    }
}

/// Rows of exactly `n` buttons, in original order, last row ragged.
fn layout_fixed(children: &Vec<Route>, n: usize) -> (g: Vec<Vec<Button>>)
    requires
        n >= 1,
    ensures
        g.deep_view() == chunk_rows(buttons_of(children.deep_view()), n as int),
{
    let ghost all = buttons_of(children.deep_view());
    let mut g: Vec<Vec<Button>> = Vec::new();
    let mut cur: Vec<Button> = Vec::new();
    let mut i: usize = 0;
    proof {
        assert(all.skip(0) =~= all);
        assert(cur.deep_view() + all =~= all);
        assert(g.deep_view() + chunk_rows(all, n as int) =~= chunk_rows(all, n as int));
    }
    while i < children.len()
        invariant
            n >= 1,
            all == buttons_of(children.deep_view()),
            i <= children.len(),
            cur.deep_view().len() < n,
            chunk_rows(all, n as int) == g.deep_view() + chunk_rows(
                cur.deep_view() + all.skip(i as int),
                n as int,
            ),
        decreases children.len() - i,
    {
        let ghost pre_cur = cur.deep_view();
        let ghost pre_g = g.deep_view();
        let b = child_button(&children[i]);
        proof {
            assert(all[i as int] == button_of(children.deep_view()[i as int]));
            assert(all.skip(i as int)[0] == all[i as int]);
            assert(all.skip(i as int).drop_first() =~= all.skip(i as int + 1));
            assert(pre_cur.push(all[i as int]) + all.skip(i as int + 1) =~= pre_cur + all.skip(
                i as int,
            ));
        }
        cur.push(b);
        proof {
            assert(cur.deep_view() =~= pre_cur.push(all[i as int]));
        }
        if cur.len() == n {
            let ghost full = cur.deep_view();
            proof {
                let tail = full + all.skip(i as int + 1);
                assert(tail.len() >= n);
                if tail.len() > n {
                    assert(tail.take(n as int) =~= full);
                    assert(tail.skip(n as int) =~= all.skip(i as int + 1));
                } else {
                    assert(all.skip(i as int + 1) =~= Seq::<SpecButton>::empty());
                    assert(tail =~= full);
                    assert(Seq::<SpecButton>::empty() + all.skip(i as int + 1) =~= all.skip(
                        i as int + 1,
                    ));
                }
                assert(chunk_rows(tail, n as int) == seq![full] + chunk_rows(
                    all.skip(i as int + 1),
                    n as int,
                ));
            }
            g.push(cur);
            cur = Vec::new();
            proof {
                assert(g.deep_view() =~= pre_g.push(full));
                assert(pre_g.push(full) + chunk_rows(all.skip(i as int + 1), n as int) =~= pre_g + (
                seq![full] + chunk_rows(all.skip(i as int + 1), n as int)));
                assert(cur.deep_view() + all.skip(i as int + 1) =~= all.skip(i as int + 1));
            }
        }
        i = i + 1;
    }
    proof {
        assert(all.skip(children.len() as int) =~= Seq::<SpecButton>::empty());
        assert(cur.deep_view() + Seq::<SpecButton>::empty() =~= cur.deep_view());
    }
    if cur.len() > 0 {
        let ghost pre_g = g.deep_view();
        let ghost last = cur.deep_view();
        g.push(cur);
        proof {
            assert(chunk_rows(last, n as int) == seq![last]);
            assert(g.deep_view() =~= pre_g.push(last));
            assert(pre_g.push(last) =~= pre_g + seq![last]);
        }
    } else {
        proof {
            assert(chunk_rows(cur.deep_view(), n as int) =~= Seq::<Seq<SpecButton>>::empty());
            assert(g.deep_view() + Seq::<Seq<SpecButton>>::empty() =~= g.deep_view());
        }
    }
    g
}

/// Up to two buttons per row; a wide-labelled button flushes the current row
/// and takes a full-width row of its own.
fn layout_length_aware(children: &Vec<Route>) -> (g: Vec<Vec<Button>>)
    ensures
        g.deep_view() == length_aware_rows(buttons_of(children.deep_view()), Seq::empty()),
{
    let ghost all = buttons_of(children.deep_view());
    let mut g: Vec<Vec<Button>> = Vec::new();
    let mut cur: Vec<Button> = Vec::new();
    let mut i: usize = 0;
    proof {
        assert(all.skip(0) =~= all);
        assert(g.deep_view() + length_aware_rows(all, Seq::empty()) =~= length_aware_rows(
            all,
            Seq::empty(),
        ));
        assert(cur.deep_view() =~= Seq::<SpecButton>::empty());
    }
    while i < children.len()
        invariant
            all == buttons_of(children.deep_view()),
            i <= children.len(),
            cur.deep_view().len() <= 1,
            length_aware_rows(all, Seq::empty()) == g.deep_view() + length_aware_rows(
                all.skip(i as int),
                cur.deep_view(),
            ),
        decreases children.len() - i,
    {
        let ghost pre_cur = cur.deep_view();
        let ghost pre_g = g.deep_view();
        proof {
            assert(all[i as int] == button_of(children.deep_view()[i as int]));
            assert(all.skip(i as int)[0] == all[i as int]);
            assert(all.skip(i as int).drop_first() =~= all.skip(i as int + 1));
        }
        let b = child_button(&children[i]);
        if children[i].label.as_str().unicode_len() > WIDE_LABEL_LEN {
            proof {
                assert(wide(all[i as int]));
            }
            if cur.len() > 0 {
                let ghost flushed = cur.deep_view();
                g.push(cur);
                cur = Vec::new();
                proof {
                    assert(g.deep_view() =~= pre_g.push(flushed));
                }
            }
            let mut row: Vec<Button> = Vec::new();
            row.push(b);
            proof {
                assert(row.deep_view() =~= seq![all[i as int]]);
            }
            let ghost mid_g = g.deep_view();
            g.push(row);
            proof {
                assert(g.deep_view() =~= mid_g.push(seq![all[i as int]]));
                let flushed = if pre_cur.len() == 0 {
                    Seq::<Seq<SpecButton>>::empty()
                } else {
                    seq![pre_cur]
                };
                assert(g.deep_view() =~= pre_g + (flushed + seq![seq![all[i as int]]]));
                assert(cur.deep_view() =~= Seq::<SpecButton>::empty());
                assert(pre_g + (flushed + seq![seq![all[i as int]]] + length_aware_rows(
                    all.skip(i as int + 1),
                    Seq::empty(),
                )) =~= (pre_g + (flushed + seq![seq![all[i as int]]])) + length_aware_rows(
                    all.skip(i as int + 1),
                    Seq::empty(),
                ));
            }
        } else {
            proof {
                assert(!wide(all[i as int]));
            }
            cur.push(b);
            proof {
                assert(cur.deep_view() =~= pre_cur.push(all[i as int]));
            }
            if cur.len() == 2 {
                let ghost full = cur.deep_view();
                g.push(cur);
                cur = Vec::new();
                proof {
                    assert(g.deep_view() =~= pre_g.push(full));
                    assert(pre_g.push(full) + length_aware_rows(all.skip(i as int + 1), Seq::empty())
                        =~= pre_g + (seq![full] + length_aware_rows(
                        all.skip(i as int + 1),
                        Seq::empty(),
                    )));
                    assert(cur.deep_view() =~= Seq::<SpecButton>::empty());
                }
            }
        }
        i = i + 1;
    }
    proof {
        assert(all.skip(children.len() as int) =~= Seq::<SpecButton>::empty());
    }
    if cur.len() > 0 {
        let ghost pre_g = g.deep_view();
        let ghost last = cur.deep_view();
        g.push(cur);
        proof {
            assert(g.deep_view() =~= pre_g.push(last));
            assert(pre_g.push(last) =~= pre_g + seq![last]);
        }
    } else {
        proof {
            assert(g.deep_view() + Seq::<Seq<SpecButton>>::empty() =~= g.deep_view());
        }
    }
    g
}

} // verus!
