//! The decision core of the location flow: which of the stored recycling-bin
//! sites are reported for a request.
//!
//! The surrounding program computes each site's walking distance (the
//! geodesic arithmetic is floating-point work outside this library) and hands
//! the sites over with whole-meter distances; this module picks what is
//! reported: the sites within the search radius, nearest first, at most two of
//! them, the earliest stored of equally distant sites first.

use vstd::prelude::*;

verus! {

/// One recycling-bin site as the location flow reads it: the walking distance
/// from the requesting user in whole meters, the display address, and whether
/// the site takes glass.
pub struct BinSite {
    pub distance_m: u64,
    pub address: String,
    pub glass: bool,
}

/// Mathematical value of a [`BinSite`].
pub struct SpecBinSite {
    pub distance_m: u64,
    pub address: Seq<char>,
    pub glass: bool,
}

impl DeepView for BinSite {
    type V = SpecBinSite;

    open spec fn deep_view(&self) -> SpecBinSite {
        SpecBinSite { distance_m: self.distance_m, address: self.address@, glass: self.glass }
    }
}

/// Sites farther away than this are not reported.
pub const SEARCH_RADIUS_M: u64 = 1000;

/// At most this many nearby sites are reported.
pub const MAX_REPORTED: usize = 2;

/// Whether a site lies within the search radius.
pub open spec fn within_radius(site: SpecBinSite) -> bool {
    site.distance_m <= SEARCH_RADIUS_M
}

/// The sites within the search radius, in stored order.
pub open spec fn sites_within(sites: Seq<SpecBinSite>) -> Seq<SpecBinSite>
    decreases sites.len(),
{
    if sites.len() == 0 {
        Seq::empty()
    } else {
        let rest = sites_within(sites.drop_last());
        if within_radius(sites.last()) {
            rest.push(sites.last())
        } else {
            rest
        }
    }
}

/// The earliest index of a distance-minimal site.
pub open spec fn min_index(sites: Seq<SpecBinSite>) -> int
    recommends
        sites.len() > 0,
    decreases sites.len(),
{
    if sites.len() <= 1 {
        0
    } else {
        let m = min_index(sites.drop_last());
        if sites.last().distance_m < sites[m].distance_m {
            sites.len() - 1
        } else {
            m
        }
    }
}

/// The minimal index is in bounds and names a distance no site undercuts.
pub proof fn lemma_min_index(sites: Seq<SpecBinSite>)
    requires
        sites.len() > 0,
    ensures
        0 <= min_index(sites) < sites.len(),
        forall|i: int|
            0 <= i < sites.len() ==> sites[min_index(sites)].distance_m <= (
            #[trigger] sites[i]).distance_m,
    decreases sites.len(),
{
    if sites.len() > 1 {
        lemma_min_index(sites.drop_last());
        assert forall|i: int| 0 <= i < sites.len() implies sites[min_index(
            sites,
        )].distance_m <= (#[trigger] sites[i]).distance_m by {
            if i < sites.len() - 1 {
                assert(sites.drop_last()[i] == sites[i]);
            }
        }
    }
}

/// The nearest `k` sites, closest first; of equally distant sites the earliest
/// stored one comes first, as a stable ordering by distance would have it.
pub open spec fn nearest_spec(sites: Seq<SpecBinSite>, k: int) -> Seq<SpecBinSite>
    decreases k,
{
    if k <= 0 || sites.len() == 0 {
        Seq::empty()
    } else {
        let m = min_index(sites);
        seq![sites[m]] + nearest_spec(sites.remove(m), k - 1)
    }
}

/// Whatever a sequence holds after removing one element, the original held.
proof fn lemma_remove_keeps_members(sites: Seq<SpecBinSite>, m: int, x: SpecBinSite)
    requires
        0 <= m < sites.len(),
        sites.remove(m).contains(x),
    ensures
        sites.contains(x),
{
    let j = choose|j: int| 0 <= j < sites.remove(m).len() && sites.remove(m)[j] == x;
    if j < m {
        assert(sites[j] == x);
    } else {
        assert(sites[j + 1] == x);
    }
}

/// Every site within the radius is drawn from the stored ones and lies within
/// the radius.
pub proof fn lemma_sites_within_members(sites: Seq<SpecBinSite>)
    ensures
        forall|i: int|
            0 <= i < sites_within(sites).len() ==> within_radius(#[trigger] sites_within(sites)[i])
                && sites.contains(sites_within(sites)[i]),
    decreases sites.len(),
{
    if sites.len() > 0 {
        lemma_sites_within_members(sites.drop_last());
        assert forall|i: int| 0 <= i < sites_within(sites).len() implies within_radius(
            #[trigger] sites_within(sites)[i],
        ) && sites.contains(sites_within(sites)[i]) by {
            let w = sites_within(sites);
            let rest = sites_within(sites.drop_last());
            if i < rest.len() {
                assert(w[i] == rest[i]);
                let j = choose|j: int|
                    0 <= j < sites.drop_last().len() && sites.drop_last()[j] == rest[i];
                assert(sites[j] == rest[i]);
            } else {
                assert(w[i] == sites.last());
            }
        }
    }
}

/// What the nearest-site listing guarantees: as many sites as are available up
/// to `k`, each drawn from the given ones, in ascending order of distance.
pub proof fn lemma_nearest_properties(sites: Seq<SpecBinSite>, k: int)
    requires
        k >= 0,
    ensures
        ({
            let r = nearest_spec(sites, k);
            &&& r.len() == if sites.len() < k {
                sites.len() as int
            } else {
                k
            }
            &&& forall|i: int| 0 <= i < r.len() ==> sites.contains(#[trigger] r[i])
            &&& forall|i: int, j: int|
                0 <= i < j < r.len() ==> (#[trigger] r[i]).distance_m <= (
                #[trigger] r[j]).distance_m
        }),
    decreases k,
{
    let r = nearest_spec(sites, k);
    if k > 0 && sites.len() > 0 {
        let m = min_index(sites);
        lemma_min_index(sites);
        let rest = nearest_spec(sites.remove(m), k - 1);
        lemma_nearest_properties(sites.remove(m), k - 1);
        assert(r == seq![sites[m]] + rest);
        assert(sites.contains(r[0])) by {
            assert(sites[m] == r[0]);
        }
        assert forall|i: int| 0 <= i < r.len() implies sites.contains(#[trigger] r[i]) by {
            if i > 0 {
                assert(rest[i - 1] == r[i]);
                lemma_remove_keeps_members(sites, m, r[i]);
            }
        }
        assert forall|i: int, j: int| 0 <= i < j < r.len() implies (#[trigger] r[i]).distance_m
            <= (#[trigger] r[j]).distance_m by {
            if i == 0 {
                assert(rest[j - 1] == r[j]);
                lemma_remove_keeps_members(sites, m, r[j]);
                let w = choose|w: int| 0 <= w < sites.len() && sites[w] == r[j];
                assert(sites[m].distance_m <= sites[w].distance_m);
            } else {
                assert(rest[i - 1] == r[i]);
                assert(rest[j - 1] == r[j]);
            }
        }
    }
}

/// An exact copy of a site.
fn clone_site(site: &BinSite) -> (r: BinSite)
    ensures
        r.deep_view() == site.deep_view(),
{
    BinSite { distance_m: site.distance_m, address: site.address.clone(), glass: site.glass }
}

/// The earliest index of a distance-minimal site.
fn find_min(pool: &Vec<BinSite>) -> (m: usize)
    requires
        pool.len() > 0,
    ensures
        m < pool.len(),
        m == min_index(pool.deep_view()),
{
    let mut m: usize = 0;
    let mut i: usize = 1;
    proof {
        assert(pool.deep_view().take(1).len() == 1);
    }
    while i < pool.len()
        invariant
            1 <= i <= pool.len(),
            m < i,
            m == min_index(pool.deep_view().take(i as int)),
        decreases pool.len() - i,
    {
        proof {
            let t = pool.deep_view().take(i as int + 1);
            assert(t.drop_last() =~= pool.deep_view().take(i as int));
            assert(t.last() == pool.deep_view()[i as int]);
        }
        if pool[i].distance_m < pool[m].distance_m {
            m = i;
        }
        i = i + 1;
    }
    proof {
        assert(pool.deep_view().take(pool.len() as int) =~= pool.deep_view());
    }
    m
}

/// The location command: geolocating the nearest recycling bins.
pub struct LocationCommand;

impl LocationCommand {
    /// The sites the location flow reports for a request: of the stored sites
    /// within the search radius, the nearest ones, closest first, at most
    /// [`MAX_REPORTED`] of them.
    pub fn nearest(sites: &Vec<BinSite>) -> (r: Vec<BinSite>)
        ensures
            r.deep_view() == nearest_spec(sites_within(sites.deep_view()), MAX_REPORTED as int),
    {
        let mut pool: Vec<BinSite> = Vec::new();
        let mut i: usize = 0;
        while i < sites.len()
            invariant
                i <= sites.len(),
                pool.deep_view() =~= sites_within(sites.deep_view().take(i as int)),
            decreases sites.len() - i,
        {
            let ghost pre = pool.deep_view();
            if sites[i].distance_m <= SEARCH_RADIUS_M {
                pool.push(clone_site(&sites[i]));
            }
            i = i + 1;
            proof {
                let t = sites.deep_view().take(i as int);
                assert(t.drop_last() =~= sites.deep_view().take(i as int - 1));
                assert(t.last() == sites.deep_view()[i as int - 1]);
            }
        }
        proof {
            assert(sites.deep_view().take(sites.len() as int) =~= sites.deep_view());
        }
        let ghost target = nearest_spec(sites_within(sites.deep_view()), MAX_REPORTED as int);
        let mut out: Vec<BinSite> = Vec::new();
        let mut k: usize = 0;
        proof {
            assert(out.deep_view() + nearest_spec(pool.deep_view(), MAX_REPORTED as int) =~= target);
        }
        while k < MAX_REPORTED && pool.len() > 0
            invariant
                k <= MAX_REPORTED,
                target == out.deep_view() + nearest_spec(
                    pool.deep_view(),
                    MAX_REPORTED - k as int,
                ),
            decreases MAX_REPORTED - k,
        {
            let ghost before = pool.deep_view();
            let ghost pre_out = out.deep_view();
            proof {
                lemma_min_index(before);
            }
            let m = find_min(&pool);
            let site = pool.remove(m);
            proof {
                assert(site.deep_view() == before[m as int]);
                assert(pool.deep_view() =~= before.remove(m as int));
            }
            out.push(site);
            k = k + 1;
            proof {
                assert(out.deep_view() =~= pre_out.push(before[m as int]));
                assert(nearest_spec(before, MAX_REPORTED - (k - 1) as int) == seq![
                    before[m as int],
                ] + nearest_spec(before.remove(m as int), MAX_REPORTED - k as int));
                assert(pre_out + (seq![before[m as int]] + nearest_spec(
                    pool.deep_view(),
                    MAX_REPORTED - k as int,
                )) =~= pre_out.push(before[m as int]) + nearest_spec(
                    pool.deep_view(),
                    MAX_REPORTED - k as int,
                ));
            }
        }
        proof {
            assert(nearest_spec(pool.deep_view(), MAX_REPORTED - k as int) =~= Seq::<
                SpecBinSite,
            >::empty());
            assert(out.deep_view() + Seq::<SpecBinSite>::empty() =~= out.deep_view());
        }
        out
    }
}

} // verus!
