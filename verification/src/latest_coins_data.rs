//! The per-asset bounded price history: a FIFO-evicting sliding window of
//! recent price maps, loaded from the persistence gateway, extended in
//! memory, and written back.

use vstd::prelude::*;
use crate::coin::Coin;
use crate::database::Collection;
use crate::strmap::StrMap;

verus! {

/// One append to a bounded window: at capacity zero nothing is kept; at or
/// above capacity the oldest entry leaves before the new one is appended.
pub open spec fn window_append<M>(window: Seq<M>, entry: M, capacity: nat) -> Seq<M> {
    if capacity == 0 {
        window
    } else if window.len() >= capacity {
        window.remove(0).push(entry)
    } else {
        window.push(entry)
    }
}

/// The window that a run of appends leaves behind, starting from an empty
/// window at a fixed capacity.
pub open spec fn window_of<M>(entries: Seq<M>, capacity: nat) -> Seq<M>
    decreases entries.len(),
{
    if entries.len() == 0 {
        Seq::empty()
    } else {
        window_append(window_of(entries.drop_last(), capacity), entries.last(), capacity)
    }
}

/// Window invariant: any run of appends at a fixed capacity leaves exactly
/// the most recent entries, in arrival order, never more than the capacity;
/// a capacity of zero leaves the window permanently empty.
pub proof fn lemma_window_invariant<M>(entries: Seq<M>, capacity: nat)
    ensures
        window_of(entries, capacity).len() == if entries.len() <= capacity {
            entries.len() as int
        } else {
            capacity as int
        },
        window_of(entries, capacity) == entries.subrange(
            if entries.len() <= capacity {
                0
            } else {
                entries.len() - capacity
            },
            entries.len() as int,
        ),
    decreases entries.len(),
{
    let n = entries.len();
    let w = window_of(entries, capacity);
    if n == 0 {
        assert(w =~= entries.subrange(0, 0));
    } else {
        let dl = entries.drop_last();
        lemma_window_invariant(dl, capacity);
        let wp = window_of(dl, capacity);
        if capacity == 0 {
            assert(w =~= entries.subrange(n as int, n as int));
        } else if wp.len() >= capacity {
            assert(w =~= entries.subrange(n - capacity, n as int));
        } else {
            assert(w =~= entries.subrange(
                if n <= capacity {
                    0
                } else {
                    n - capacity
                },
                n as int,
            ));
        }
    }
}

/// The persisted history of one asset: id, display symbol, the window of its
/// most recent price maps (oldest first), and when it was last touched.
#[derive(Debug, PartialEq, Eq)]
pub struct LatestCoinData {
    pub id: String,
    pub symbol: String,
    pub prices: Vec<StrMap<u32>>,
    pub updated_at: i64,
    pub prices_max_len: usize,
}

impl LatestCoinData {
    /// The window as a sequence of price lists, oldest first.
    pub open spec fn prices_view(&self) -> Seq<Seq<(Seq<char>, u32)>> {
        Seq::new(self.prices@.len(), |i: int| self.prices@[i]@)
    }

    /// An empty history for the asset.
    pub fn new(id: String, symbol: String, prices_max_len: usize) -> (r: LatestCoinData)
        ensures
            r.id == id,
            r.symbol == symbol,
            r.updated_at == 0,
            r.prices_max_len == prices_max_len,
            r.prices_view() == Seq::<Seq<(Seq<char>, u32)>>::empty(),
    {
        let r = LatestCoinData { id, updated_at: 0, symbol, prices: Vec::new(), prices_max_len };
        proof {
            assert(r.prices_view() =~= Seq::<Seq<(Seq<char>, u32)>>::empty());
        }
        r
    }

    /// Sets the window capacity for the appends that follow; a loaded
    /// document does not carry one.
    pub fn set_prices_max_len(&mut self, prices_max_len: usize)
        ensures
            final(self).prices_max_len == prices_max_len,
            final(self).id == old(self).id,
            final(self).symbol == old(self).symbol,
            final(self).prices == old(self).prices,
            final(self).updated_at == old(self).updated_at,
    {
        self.prices_max_len = prices_max_len;
    }

    /// Slides the window: appends the coin's price map, evicting the oldest
    /// entry when the window is full; at capacity zero the window stays
    /// empty.
    pub fn update_with_coin(&mut self, coin: Coin)
        ensures
            final(self).prices_view() == window_append(
                old(self).prices_view(),
                coin.prices@,
                old(self).prices_max_len as nat,
            ),
            final(self).id == old(self).id,
            final(self).symbol == old(self).symbol,
            final(self).updated_at == old(self).updated_at,
            final(self).prices_max_len == old(self).prices_max_len,
    {
        if self.prices_max_len == 0 {
            return ;
        }
        let ghost pre = self.prices_view();
        if self.prices.len() >= self.prices_max_len {
            self.prices.remove(0);
            self.prices.push(coin.prices);
            proof {
                assert(self.prices_view() =~= pre.remove(0).push(coin.prices@));
            }
        } else {
            self.prices.push(coin.prices);
            proof {
                assert(self.prices_view() =~= pre.push(coin.prices@));
            }
        }
    }
}

/// Loads the history of the asset from the gateway; `None` means the update
/// for this asset is skipped this cycle.
pub fn get_coin_latest_data(id: String, db: &impl Collection<LatestCoinData>) -> Option<
    LatestCoinData,
> {
    db.find_one(id)
}

} // verus!
