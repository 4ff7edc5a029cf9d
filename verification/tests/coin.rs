use coin_watch::coin::{trim_nonupdated_coins, Coin, Stack};
use coin_watch::strmap::StrMap;

fn price_map(entries: Vec<(&str, f32)>) -> StrMap<u32> {
    let mut m: StrMap<u32> = StrMap::new();
    for (k, v) in entries {
        m.insert(k.to_string(), v.to_bits());
    }
    m
}

fn coin(id: &str, symbol: &str, prices: Vec<(&str, f32)>) -> Coin {
    Coin {
        id: id.to_string(),
        symbol: symbol.to_string(),
        prices: price_map(prices),
        updated_at: None,
    }
}

fn stack(coins: Vec<Coin>) -> Stack {
    let mut s = Stack::new();
    for c in coins {
        let id = c.id.clone();
        s.coins.insert(id, c);
    }
    s
}

#[test]
fn trim_should_return_empty_coins_hashmap() {
    let trial = stack(vec![coin("coinoyaro", "con", vec![("wsh", 4.20f32)])]);
    let cache = trial.clone();
    let (goal, cache) = trim_nonupdated_coins(&cache, &trial);
    assert_eq!(goal.coins.len(), 0);
    assert_eq!(cache.coins.get("coinoyaro").unwrap().id, "coinoyaro");
    assert_eq!(
        cache.coins.get("coinoyaro").unwrap().prices.get("wsh").unwrap().to_owned(),
        4.20f32.to_bits()
    );
}

#[test]
fn trim_should_return_n1_coins_hashmap() {
    let cached_coin = coin("cached1", "cac", vec![("wsh", 4.20f32)]);
    let og_coin = coin("og1", "og", vec![("wsh", 6.969f32)]);

    let trial = stack(vec![cached_coin.clone(), og_coin.clone()]);
    let cache = stack(vec![cached_coin]);

    let (goal, cache) = trim_nonupdated_coins(&cache, &trial);
    assert_eq!(goal.coins.len(), 1);
    assert_eq!(goal.coins.get("og1").unwrap().id, "og1");
    assert_eq!(cache.coins.get("cached1").unwrap().id, "cached1");
    assert_eq!(cache.coins.get("og1").unwrap().id, "og1");
}

#[test]
fn trim_should_update_cache_on_multiple_calls() {
    let goal = Stack::new();

    let mut trial = stack(vec![coin("t1", "t1", vec![])]);
    let (_, goal) = trim_nonupdated_coins(&goal, &trial);
    assert_eq!(goal.coins.len(), 1);

    trial = stack(vec![coin("t1", "t1", vec![]), coin("t2", "t2", vec![])]);
    let (_, cache) = trim_nonupdated_coins(&goal, &trial);
    assert_eq!(cache.coins.len(), 2);
    assert_eq!(cache.coins.get("t1").unwrap().id, "t1");
    assert_eq!(cache.coins.get("t2").unwrap().id, "t2");

    trial = stack(vec![coin("t2", "t2", vec![("wsh", 4.20f32)])]);
    let (_, cache) = trim_nonupdated_coins(&goal, &trial);
    assert_eq!(cache.coins.len(), 1);
    assert_eq!(cache.coins.get("t2").unwrap().id, "t2");
    assert_eq!(
        cache.coins.get("t2").unwrap().prices.get("wsh").unwrap().to_owned(),
        4.20f32.to_bits()
    );
}

#[test]
fn new_asset_lands_in_delta_unchanged() {
    let cache = Stack::new();
    let incoming = stack(vec![coin("btc", "btc", vec![("usd", 1.0f32)])]);
    let (delta, _) = trim_nonupdated_coins(&cache, &incoming);
    assert_eq!(delta.coins.len(), 1);
    let reported = delta.coins.get("btc").unwrap();
    assert_eq!(reported.id, "btc");
    assert_eq!(reported.prices.get("usd").unwrap().to_owned(), 1.0f32.to_bits());
}

#[test]
fn unchanged_asset_is_excluded_from_delta() {
    let cache = stack(vec![coin("btc", "btc", vec![("usd", 1.0f32)])]);
    let incoming = stack(vec![coin("btc", "btc", vec![("usd", 1.0f32)])]);
    let (delta, _) = trim_nonupdated_coins(&cache, &incoming);
    assert_eq!(delta.coins.len(), 0);
}

#[test]
fn changed_asset_lands_in_delta_with_incoming_record() {
    let cache = stack(vec![coin("btc", "btc", vec![("usd", 1.0f32)])]);
    let incoming = stack(vec![coin("btc", "btc", vec![("usd", 2.0f32), ("eur", 3.0f32)])]);
    let (delta, _) = trim_nonupdated_coins(&cache, &incoming);
    assert_eq!(delta.coins.len(), 1);
    let reported = delta.coins.get("btc").unwrap();
    assert_eq!(reported.prices.get("usd").unwrap().to_owned(), 2.0f32.to_bits());
    assert_eq!(reported.prices.get("eur").unwrap().to_owned(), 3.0f32.to_bits());
}

#[test]
fn asset_without_reference_currency_is_gated() {
    let cache = stack(vec![coin("btc", "btc", vec![("eur", 1.0f32)])]);
    let incoming = stack(vec![coin("btc", "btc", vec![("eur", 99.0f32)])]);
    let (delta, _) = trim_nonupdated_coins(&cache, &incoming);
    assert_eq!(delta.coins.len(), 0);
}

#[test]
fn delta_of_identical_snapshots_is_empty() {
    let snapshot = stack(vec![
        coin("btc", "btc", vec![("usd", 1.0f32), ("eur", 2.0f32)]),
        coin("eth", "eth", vec![("usd", 3.0f32)]),
    ]);
    let (delta, _) = trim_nonupdated_coins(&snapshot.clone(), &snapshot);
    assert_eq!(delta.coins.len(), 0);
}

#[test]
fn gating_when_only_one_side_has_the_reference_currency() {
    let cache = stack(vec![coin("btc", "btc", vec![("usd", 1.0f32)])]);
    let incoming = stack(vec![coin("btc", "btc", vec![("eur", 2.0f32)])]);
    let (delta, _) = trim_nonupdated_coins(&cache, &incoming);
    assert_eq!(delta.coins.len(), 0);

    let (delta, _) = trim_nonupdated_coins(&incoming, &cache);
    assert_eq!(delta.coins.len(), 0);
}

#[test]
fn delta_carries_incoming_timestamp() {
    let cache = Stack::new();
    let mut incoming = stack(vec![coin("btc", "btc", vec![("usd", 1.0f32)])]);
    incoming.created_at = 42;
    let (delta, kept) = trim_nonupdated_coins(&cache, &incoming);
    assert_eq!(delta.created_at, 42);
    assert_eq!(kept.created_at, 42);
}
