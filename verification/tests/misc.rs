use coin_watch::coin_info::CoinInfo;
use coin_watch::config::{Config, DEFAULT_PRICES_MAX_LEN};
use coin_watch::gecko::format_coin_data;
use coin_watch::should_update_providers;
use coin_watch::strmap::StrMap;
use coin_watch::F;

fn price_map(entries: Vec<(&str, f32)>) -> StrMap<u32> {
    let mut m: StrMap<u32> = StrMap::new();
    for (k, v) in entries {
        m.insert(k.to_string(), v.to_bits());
    }
    m
}

#[test]
fn should_test_should_update_providers() {
    let mut it: u32 = 0;
    let mut trial = false;

    while it < F {
        trial = should_update_providers(it);
        it = it + 1;
    }
    assert_eq!(trial, false);

    it = 0;
    while it <= F {
        trial = should_update_providers(it);
        it = it + 1;
    }
    assert_eq!(trial, true);

    it = 0;
    while it <= 7 {
        trial = should_update_providers(it);
        it = it + 1;
    }
    assert_eq!(trial, false);
}

#[test]
fn coin_info_carries_id_and_symbol() {
    let info = CoinInfo::new("bitcoin", "btc");
    assert_eq!(info.id, "bitcoin");
    assert_eq!(info.symbol, "btc");
}

#[test]
fn config_defaults_to_a_short_window() {
    let config = Config {
        ref_file: "providers.toml".to_string(),
        mongodb_uri: "mongodb://localhost".to_string(),
        prices_max_len: DEFAULT_PRICES_MAX_LEN,
    };
    assert_eq!(config.prices_max_len, 2);
}

#[test]
fn format_keeps_only_directory_ids() {
    let mut data: StrMap<StrMap<u32>> = StrMap::new();
    data.insert("bitcoin".to_string(), price_map(vec![("usd", 1.0f32)]));
    data.insert("dogeling".to_string(), price_map(vec![("usd", 2.0f32)]));
    let mut directory: StrMap<String> = StrMap::new();
    directory.insert("bitcoin".to_string(), "btc".to_string());

    let coins = format_coin_data(data, &directory).unwrap();
    assert_eq!(coins.len(), 1);
    let c = coins.get("bitcoin").unwrap();
    assert_eq!(c.id, "bitcoin");
    assert_eq!(c.symbol, "btc");
    assert_eq!(c.prices.get("usd").unwrap().to_owned(), 1.0f32.to_bits());
    assert!(coins.get("dogeling").is_none());
}

#[test]
fn format_of_unknown_ids_is_none() {
    let mut data: StrMap<StrMap<u32>> = StrMap::new();
    data.insert("dogeling".to_string(), price_map(vec![("usd", 2.0f32)]));
    let mut directory: StrMap<String> = StrMap::new();
    directory.insert("bitcoin".to_string(), "btc".to_string());

    assert!(format_coin_data(data, &directory).is_none());
}

#[test]
fn format_of_empty_data_is_none() {
    let directory: StrMap<String> = StrMap::new();
    assert!(format_coin_data(StrMap::new(), &directory).is_none());
}

#[test]
fn inserting_twice_replaces_the_value() {
    let mut m: StrMap<u32> = StrMap::new();
    m.insert("usd".to_string(), 1);
    m.insert("eur".to_string(), 2);
    m.insert("usd".to_string(), 3);
    assert_eq!(m.len(), 2);
    assert_eq!(m.get("usd").unwrap().to_owned(), 3);
    assert_eq!(m.get("eur").unwrap().to_owned(), 2);
    assert!(m.get("gbp").is_none());
}
