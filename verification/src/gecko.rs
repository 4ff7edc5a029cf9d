//! Shaping a quote-service response into the data model. The response
//! reaches this module already decoded into plain per-asset, per-currency
//! price codes; fetching and decoding it live with the caller.

use vstd::prelude::*;
use vstd::map::*;
use crate::coin::{Coin, CoinView, coins_wf};
use crate::strmap::{
    StrMap, has_key, value_of, keys_unique, seq_to_map, lemma_value_at, lemma_has_key_take_succ,
};

verus! {

/// The coin records that a response yields: one per asset id the directory
/// knows, named with its directory symbol and carrying the full price list
/// of the response.
pub open spec fn spec_formatted(
    data: Seq<(Seq<char>, Seq<(Seq<char>, u32)>)>,
    config: Seq<(Seq<char>, Seq<char>)>,
) -> Map<Seq<char>, CoinView> {
    Map::new(
        |k: Seq<char>| has_key(data, k) && has_key(config, k),
        |k: Seq<char>| CoinView {
            id: k,
            symbol: value_of(config, k),
            prices: value_of(data, k),
            updated_at: None,
        },
    )
}

/// The records yielded by the first `i` response entries alone.
pub open spec fn formatted_upto(
    data: Seq<(Seq<char>, Seq<(Seq<char>, u32)>)>,
    config: Seq<(Seq<char>, Seq<char>)>,
    i: int,
) -> Map<Seq<char>, CoinView> {
    Map::new(
        |k: Seq<char>| has_key(data.take(i), k) && has_key(config, k),
        |k: Seq<char>| CoinView {
            id: k,
            symbol: value_of(config, k),
            prices: value_of(data, k),
            updated_at: None,
        },
    )
}

/// Turns a decoded response — a price list per asset id — into coin records,
/// dropping ids the directory does not know; `None` when no id is known.
#[verifier::loop_isolation(false)]
pub fn format_coin_data(coins_data: StrMap<StrMap<u32>>, coins_config: &StrMap<String>) -> (r:
    Option<StrMap<Coin>>)
    requires
        coins_data.wf(),
        coins_config.wf(),
        forall|i: int| 0 <= i < coins_data@.len() ==> keys_unique((#[trigger] coins_data@[i]).1),
    ensures
        r is Some <==> exists|k: Seq<char>|
            #[trigger] has_key(coins_data@, k) && has_key(coins_config@, k),
        r is Some ==> keys_unique(r->0@) && coins_wf(r->0@) && seq_to_map(r->0@) == spec_formatted(
            coins_data@,
            coins_config@,
        ),
{
    let ghost data = coins_data@;
    let ghost config = coins_config@;
    let mut coins: StrMap<Coin> = StrMap::new();
    proof {
        assert(seq_to_map(coins@) =~= formatted_upto(data, config, 0));
    }
    let n = coins_data.len();
    let mut i: usize = 0;
    while i < n
        invariant
            i <= n,
            coins.wf(),
            coins_wf(coins@),
            seq_to_map(coins@) == formatted_upto(data, config, i as int),
        decreases n - i,
    {
        let entry = coins_data.entry_at(i);
        let id = &entry.0;
        let prices = &entry.1;
        let ghost k = id@;
        proof {
            lemma_value_at(data, k, i as int);
        }
        let ghost before = seq_to_map(coins@);
        let mut known = false;
        match coins_config.get(id.as_str()) {
            Some(symbol) => {
                known = true;
                coins.insert(
                    id.clone(),
                    Coin {
                        id: id.clone(),
                        symbol: symbol.clone(),
                        prices: prices.clone(),
                        updated_at: None,
                    },
                );
            },
            None => {},
        }
        proof {
            assert(known == has_key(config, k));
            assert_maps_equal!(seq_to_map(coins@), formatted_upto(data, config, i + 1), k2 => {
                lemma_has_key_take_succ(data, i as int, k2);
                if k2 == k {
                    if known {
                        assert(seq_to_map(coins@)[k2] == (CoinView {
                            id: k,
                            symbol: value_of(config, k),
                            prices: data[i as int].1,
                            updated_at: None,
                        }));
                        assert(value_of(data, k) == data[i as int].1);
                    } else {
                        assert(!before.contains_key(k2));
                    }
                } else {
                    if known {
                        assert(seq_to_map(coins@).contains_key(k2) == before.contains_key(k2));
                        assert(before.contains_key(k2) ==> seq_to_map(coins@)[k2] == before[k2]);
                    }
                }
            });
        }
        i += 1;
    }
    proof {
        assert(data.take(n as int) =~= data);
    }
    if coins.len() == 0 {
        proof {
            assert forall|k: Seq<char>| !(has_key(data, k) && has_key(config, k)) by {
                if has_key(data, k) && has_key(config, k) {
                    assert(formatted_upto(data, config, n as int).contains_key(k));
                    assert(has_key(coins@, k));
                    let j = choose|j: int| 0 <= j < coins@.len() && coins@[j].0 == k;
                    assert(false);
                }
            }
        }
        None
    } else {
        proof {
            assert(has_key(coins@, coins@[0].0));
            assert(formatted_upto(data, config, n as int).contains_key(coins@[0].0));
            assert(has_key(data, coins@[0].0) && has_key(config, coins@[0].0));
            assert(seq_to_map(coins@) =~= spec_formatted(data, config));
        }
        Some(coins)
    }
}

} // verus!
