//! The data model of one price snapshot, and the change detector that
//! compares two snapshots and keeps only the assets whose canonical price
//! moved.
//!
//! A price is held as an opaque 32-bit code; the change signal is exact
//! equality of codes, deliberately without any tolerance.

use vstd::prelude::*;
use vstd::map::*;
use crate::strmap::{
    StrMap, has_key, index_of, value_of, keys_unique, seq_to_map, lemma_value_at,
    lemma_has_key_take_succ,
};

verus! {

/// The single currency code whose price decides whether an asset changed.
pub open spec fn ref_currency() -> Seq<char> {
    "usd"@
}

/// Spec-level image of one tracked asset.
pub ghost struct CoinView {
    pub id: Seq<char>,
    pub symbol: Seq<char>,
    pub prices: Seq<(Seq<char>, u32)>,
    pub updated_at: Option<i64>,
}

impl CoinView {
    /// Each currency code occurs at most once in the price list.
    pub open spec fn wf(self) -> bool {
        keys_unique(self.prices)
    }

    /// The asset quotes a price under the currency code `c`.
    pub open spec fn has_price(self, c: Seq<char>) -> bool {
        has_key(self.prices, c)
    }

    /// The price code quoted under the currency code `c`.
    pub open spec fn price_of(self, c: Seq<char>) -> u32 {
        value_of(self.prices, c)
    }
}

/// One tracked asset: stable id, display symbol, and a price code per quoted
/// currency code.
#[derive(Debug, PartialEq, Eq)]
pub struct Coin {
    pub id: String,
    pub symbol: String,
    pub prices: StrMap<u32>,
    pub updated_at: Option<i64>,
}

impl View for Coin {
    type V = CoinView;

    open spec fn view(&self) -> CoinView {
        CoinView {
            id: self.id@,
            symbol: self.symbol@,
            prices: self.prices@,
            updated_at: self.updated_at,
        }
    }
}

impl Clone for Coin {
    /// A clone carries the same id, symbol, prices and update mark.
    fn clone(&self) -> (r: Self)
        ensures
            r@ == self@,
    {
        Coin {
            id: self.id.clone(),
            symbol: self.symbol.clone(),
            prices: self.prices.clone(),
            updated_at: self.updated_at,
        }
    }
}

impl Clone for StrMap<Coin> {
    /// A clone carries the same entries.
    fn clone(&self) -> (r: Self)
        ensures
            r@ == self@,
    {
        let mut entries: Vec<(String, Coin)> = Vec::new();
        let n = self.entries.len();
        let mut i: usize = 0;
        while i < n
            invariant
                n == self.entries@.len(),
                i <= n,
                entries@.len() == i,
                forall|j: int|
                    0 <= j < i ==> entries@[j].0@ == self.entries@[j].0@ && entries@[j].1@
                        == self.entries@[j].1@,
            decreases n - i,
        {
            let e = &self.entries[i];
            entries.push((e.0.clone(), e.1.clone()));
            i += 1;
        }
        let r = StrMap { entries };
        proof {
            assert(r@ =~= self@);
        }
        r
    }
}

/// Every asset of the entry sequence is well formed.
pub open spec fn coins_wf(s: Seq<(Seq<char>, CoinView)>) -> bool {
    forall|i: int| 0 <= i < s.len() ==> (#[trigger] s[i]).1.wf()
}

/// Spec-level image of one snapshot.
pub ghost struct StackView {
    pub coins: Seq<(Seq<char>, CoinView)>,
    pub created_at: int,
}

/// One snapshot: the assets fetched in one cycle, keyed by asset id, with the
/// capture timestamp in milliseconds since the epoch.
#[derive(Debug, PartialEq, Eq)]
pub struct Stack {
    pub coins: StrMap<Coin>,
    pub created_at: i64,
}

impl View for Stack {
    type V = StackView;

    open spec fn view(&self) -> StackView {
        StackView { coins: self.coins@, created_at: self.created_at as int }
    }
}

impl Stack {
    /// Asset ids are unique and every asset is well formed.
    pub open spec fn wf(&self) -> bool {
        keys_unique(self.coins@) && coins_wf(self.coins@)
    }

    pub fn new() -> (r: Stack)
        ensures
            r.coins@ == Seq::<(Seq<char>, CoinView)>::empty(),
            r.created_at == 0,
            r.wf(),
    {
        Stack { coins: StrMap::new(), created_at: 0 }
    }
}

impl Clone for Stack {
    /// A clone carries the same assets and timestamp.
    fn clone(&self) -> (r: Self)
        ensures
            r@ == self@,
    {
        Stack { coins: self.coins.clone(), created_at: self.created_at }
    }
}

/// The asset under the id `k` belongs to the delta: it is new, or both
/// snapshots quote the reference currency and the quotes differ. An asset
/// missing the reference currency on either side is never reported.
pub open spec fn delta_includes(
    cached: Map<Seq<char>, CoinView>,
    incoming: Map<Seq<char>, CoinView>,
    k: Seq<char>,
) -> bool {
    incoming.contains_key(k) && (!cached.contains_key(k) || (cached[k].has_price(ref_currency())
        && incoming[k].has_price(ref_currency()) && cached[k].price_of(ref_currency())
        != incoming[k].price_of(ref_currency())))
}

/// The delta of two snapshots: the incoming records of exactly the assets
/// that `delta_includes` admits.
pub open spec fn spec_delta(
    cached: Map<Seq<char>, CoinView>,
    incoming: Map<Seq<char>, CoinView>,
) -> Map<Seq<char>, CoinView> {
    Map::new(|k: Seq<char>| delta_includes(cached, incoming, k), |k: Seq<char>| incoming[k])
}

/// The delta restricted to the ids of the first `i` incoming entries; the
/// state a scan of the incoming snapshot reaches after `i` assets.
pub open spec fn delta_upto(
    cached: Map<Seq<char>, CoinView>,
    incoming: Seq<(Seq<char>, CoinView)>,
    i: int,
) -> Map<Seq<char>, CoinView> {
    Map::new(
        |k: Seq<char>| delta_includes(cached, seq_to_map(incoming), k) && has_key(
            incoming.take(i),
            k,
        ),
        |k: Seq<char>| seq_to_map(incoming)[k],
    )
}

/// Compares the snapshot fetched now (`future`) with the retained one
/// (`cache`) and returns the delta together with the retained copy of the
/// full incoming snapshot.
#[verifier::loop_isolation(false)]
pub fn trim_nonupdated_coins(cache: &Stack, future: &Stack) -> (r: (Stack, Stack))
    requires
        cache.wf(),
        future.wf(),
    ensures
        r.0.wf(),
        r.0.created_at == future.created_at,
        seq_to_map(r.0.coins@) == spec_delta(seq_to_map(cache.coins@), seq_to_map(future.coins@)),
        r.1@ == future@,
        r.1.wf(),
{
    let ghost cmap = seq_to_map(cache.coins@);
    let ghost fseq = future.coins@;
    let ghost fmap = seq_to_map(future.coins@);
    let mut trimmed = Stack::new();
    trimmed.created_at = future.created_at;
    proof {
        assert(seq_to_map(trimmed.coins@) =~= delta_upto(cmap, fseq, 0));
    }
    let n = future.coins.len();
    let mut i: usize = 0;
    while i < n
        invariant
            i <= n,
            trimmed.wf(),
            trimmed.created_at == future.created_at,
            seq_to_map(trimmed.coins@) == delta_upto(cmap, fseq, i as int),
        decreases n - i,
    {
        let entry = future.coins.entry_at(i);
        let name = &entry.0;
        let coin = &entry.1;
        let ghost k = name@;
        proof {
            lemma_value_at(fseq, k, i as int);
        }
        let ghost before = seq_to_map(trimmed.coins@);
        let mut keep = false;
        match cache.coins.get(name.as_str()) {
            Some(pcoin) => {
                proof {
                    assert(pcoin@ == cmap[k]);
                    let at = index_of(cache.coins@, k);
                    assert(0 <= at < cache.coins@.len() && cache.coins@[at].0 == k);
                    assert(cache.coins@[at].1.wf());
                }
                match (pcoin.prices.get("usd"), coin.prices.get("usd")) {
                    (Some(p), Some(f)) => {
                        if *p != *f {
                            keep = true;
                        }
                    },
                    _ => {},
                }
            },
            None => {
                keep = true;
            },
        }
        proof {
            assert(keep == delta_includes(cmap, fmap, k));
        }
        if keep {
            trimmed.coins.insert(name.clone(), coin.clone());
        }
        proof {
            assert_maps_equal!(seq_to_map(trimmed.coins@), delta_upto(cmap, fseq, i + 1), k2 => {
                lemma_has_key_take_succ(fseq, i as int, k2);
                if k2 == k {
                    if keep {
                        assert(seq_to_map(trimmed.coins@) == before.insert(k, coin@));
                        assert(seq_to_map(trimmed.coins@)[k2] == coin@);
                        assert(fmap[k] == fseq[i as int].1);
                    } else {
                        assert(!delta_includes(cmap, fmap, k2));
                        assert(!before.contains_key(k2));
                    }
                } else {
                    if keep {
                        assert(seq_to_map(trimmed.coins@) == before.insert(k, coin@));
                    }
                    assert(seq_to_map(trimmed.coins@).contains_key(k2) == before.contains_key(k2));
                    assert(before.contains_key(k2) ==> seq_to_map(trimmed.coins@)[k2]
                        == before[k2]);
                }
            });
        }
        i += 1;
    }
    proof {
        assert(fseq.take(n as int) =~= fseq);
        assert(delta_upto(cmap, fseq, n as int) =~= spec_delta(cmap, fmap));
    }
    (trimmed, future.clone())
}

/// Idempotence: diffing a snapshot against itself yields an empty delta,
/// provided every asset quotes the reference currency.
pub proof fn lemma_delta_idempotent(coins: Map<Seq<char>, CoinView>)
    requires
        forall|k: Seq<char>| coins.contains_key(k) ==> (#[trigger] coins[k]).has_price(
            ref_currency(),
        ),
    ensures
        spec_delta(coins, coins) == Map::<Seq<char>, CoinView>::empty(),
{
    assert(spec_delta(coins, coins) =~= Map::<Seq<char>, CoinView>::empty());
}

/// Completeness: an asset present only in the incoming snapshot appears in
/// the delta, unchanged.
pub proof fn lemma_delta_completeness(
    cached: Map<Seq<char>, CoinView>,
    incoming: Map<Seq<char>, CoinView>,
    k: Seq<char>,
)
    requires
        incoming.contains_key(k),
        !cached.contains_key(k),
    ensures
        spec_delta(cached, incoming).contains_key(k),
        spec_delta(cached, incoming)[k] == incoming[k],
{
}

/// Exclusion: an asset present in both snapshots with an equal
/// reference-currency price is absent from the delta.
pub proof fn lemma_delta_exclusion(
    cached: Map<Seq<char>, CoinView>,
    incoming: Map<Seq<char>, CoinView>,
    k: Seq<char>,
)
    requires
        cached.contains_key(k),
        incoming.contains_key(k),
        cached[k].has_price(ref_currency()),
        incoming[k].has_price(ref_currency()),
        cached[k].price_of(ref_currency()) == incoming[k].price_of(ref_currency()),
    ensures
        !spec_delta(cached, incoming).contains_key(k),
{
}

/// Inclusion with replacement: an asset whose reference-currency price moved
/// appears in the delta with the incoming record, all currencies included.
pub proof fn lemma_delta_inclusion(
    cached: Map<Seq<char>, CoinView>,
    incoming: Map<Seq<char>, CoinView>,
    k: Seq<char>,
)
    requires
        cached.contains_key(k),
        incoming.contains_key(k),
        cached[k].has_price(ref_currency()),
        incoming[k].has_price(ref_currency()),
        cached[k].price_of(ref_currency()) != incoming[k].price_of(ref_currency()),
    ensures
        spec_delta(cached, incoming).contains_key(k),
        spec_delta(cached, incoming)[k] == incoming[k],
{
}

/// Currency gating: an asset missing the reference currency in either
/// snapshot never appears in the delta, whatever its other currencies did.
pub proof fn lemma_delta_currency_gating(
    cached: Map<Seq<char>, CoinView>,
    incoming: Map<Seq<char>, CoinView>,
    k: Seq<char>,
)
    requires
        cached.contains_key(k),
        incoming.contains_key(k),
        !cached[k].has_price(ref_currency()) || !incoming[k].has_price(ref_currency()),
    ensures
        !spec_delta(cached, incoming).contains_key(k),
    {
}

} // verus!
