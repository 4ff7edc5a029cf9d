use coin_watch::coin::Coin;
use coin_watch::latest_coins_data::LatestCoinData;
use coin_watch::strmap::StrMap;

fn price_map(entries: Vec<(&str, f32)>) -> StrMap<u32> {
    let mut m: StrMap<u32> = StrMap::new();
    for (k, v) in entries {
        m.insert(k.to_string(), v.to_bits());
    }
    m
}

fn coin(id: &str, symbol: &str, prices: Vec<(&str, f32)>) -> Coin {
    Coin {
        id: id.to_string(),
        symbol: symbol.to_string(),
        prices: price_map(prices),
        updated_at: None,
    }
}

#[test]
pub fn i_can_update_with_coin_if_empty_vec_prices() {
    let mut lcd = LatestCoinData::new("test1".into(), "t1".into(), 1);
    let c = coin("test1", "t1", vec![]);
    lcd.update_with_coin(c.clone());
    assert_eq!(c.prices, lcd.prices[0]);
    assert_eq!(lcd.prices.len(), 1);
}

#[test]
pub fn i_can_replace_vec_prices_if_len_is_0() {
    let mut lcd = LatestCoinData::new("test2".into(), "t2".into(), 0);
    let c = coin("test2", "t2", vec![]);
    lcd.update_with_coin(c.clone());
    assert_eq!(lcd.prices.len(), 0);
}

#[test]
pub fn i_can_replace_vec_prices_if_len_is_greater_or_equal() {
    let mut lcd = LatestCoinData::new("test3".into(), "t3".into(), 2);
    let c = coin("test3_1", "t3_1", vec![]);
    lcd.update_with_coin(c.clone());
    let c = coin("test3_2", "t3_2", vec![]);
    lcd.update_with_coin(c.clone());
    let c = coin("test3_3", "t3_3", vec![]);
    lcd.update_with_coin(c.clone());
    assert_eq!(c.prices, lcd.prices[1]);
    assert_eq!(lcd.prices.len(), 2);
}

#[test]
fn window_keeps_the_two_most_recent_price_maps() {
    let mut lcd = LatestCoinData::new("btc".into(), "btc".into(), 2);
    let p1 = price_map(vec![("usd", 1.0f32)]);
    let p2 = price_map(vec![("usd", 2.0f32)]);
    let p3 = price_map(vec![("usd", 3.0f32)]);
    for p in [p1, p2.clone(), p3.clone()] {
        let c = Coin {
            id: "btc".to_string(),
            symbol: "btc".to_string(),
            prices: p,
            updated_at: None,
        };
        lcd.update_with_coin(c);
    }
    assert_eq!(lcd.prices.len(), 2);
    assert_eq!(lcd.prices[0], p2);
    assert_eq!(lcd.prices[1], p3);
}

#[test]
fn window_fills_up_to_capacity_in_arrival_order() {
    let mut lcd = LatestCoinData::new("btc".into(), "btc".into(), 3);
    let p1 = price_map(vec![("usd", 1.0f32)]);
    let p2 = price_map(vec![("usd", 2.0f32)]);
    for p in [p1.clone(), p2.clone()] {
        lcd.update_with_coin(coin_with(p));
    }
    assert_eq!(lcd.prices.len(), 2);
    assert_eq!(lcd.prices[0], p1);
    assert_eq!(lcd.prices[1], p2);
}

fn coin_with(prices: StrMap<u32>) -> Coin {
    Coin { id: "btc".to_string(), symbol: "btc".to_string(), prices, updated_at: None }
}

#[test]
fn set_prices_max_len_changes_only_the_capacity() {
    let mut lcd = LatestCoinData::new("btc".into(), "btc".into(), 0);
    lcd.update_with_coin(coin_with(price_map(vec![("usd", 1.0f32)])));
    assert_eq!(lcd.prices.len(), 0);
    lcd.set_prices_max_len(1);
    assert_eq!(lcd.prices_max_len, 1);
    assert_eq!(lcd.id, "btc");
    lcd.update_with_coin(coin_with(price_map(vec![("usd", 1.0f32)])));
    assert_eq!(lcd.prices.len(), 1);
}
