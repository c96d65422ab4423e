//! Texts: decimal numbers, hex, coins, outputs and identities.

use ree_cookie::clock::{whole_seconds, NANOS_PER_SECOND};
use ree_cookie::coin::{find_value, CoinId};
use ree_cookie::keymap::{KeyMap, MapKey};
use ree_cookie::principal::Principal;
use ree_cookie::text::{decimal_text, decode_hex};
use ree_cookie::utxo::{Txid, Utxo};
use ree_types::CoinBalances;

fn txid(n: u8) -> Txid {
    let mut bytes = [0u8; 32];
    bytes[0] = n;
    bytes[31] = 0xab;
    Txid(bytes)
}

#[test]
fn decimal_numbers() {
    assert_eq!(decimal_text(0), "0");
    assert_eq!(decimal_text(9), "9");
    assert_eq!(decimal_text(10), "10");
    assert_eq!(decimal_text(u64::MAX), "18446744073709551615");
}

#[test]
fn hex_is_read_in_either_case() {
    assert_eq!(decode_hex(&"00ffA1a1".to_string()), Some(vec![0, 255, 161, 161]));
    assert_eq!(decode_hex(&"".to_string()), Some(vec![]));
}

#[test]
fn what_is_not_hex_is_refused() {
    assert_eq!(decode_hex(&"0".to_string()), None);
    assert_eq!(decode_hex(&"0g".to_string()), None);
    assert_eq!(decode_hex(&"\u{2022}".to_string()), None);
    assert_eq!(decode_hex(&"\u{e9}".to_string()), None);
}

#[test]
fn coin_ids() {
    assert_eq!(CoinId::rune(840000, 846).text(), "840000:846");
    assert_eq!(CoinId::cookie(), CoinId::rune(840000, 846));
    assert_eq!(CoinId::btc(), CoinId::rune(0, 0));
    assert_eq!(CoinId::btc().text(), "0:0");
    assert_ne!(CoinId::rune(1, 23).text(), CoinId::rune(12, 3).text());
}

#[test]
fn outpoints_name_the_id_backwards() {
    let utxo = Utxo { txid: txid(0x01), vout: 7, coins: CoinBalances::new(), sats: 0 };
    let zeros = "00".repeat(30);
    assert_eq!(utxo.outpoint(), format!("ab{}01:7", zeros));
}

#[test]
fn outpoints_are_read_back() {
    let utxo = Utxo { txid: txid(0x5c), vout: 12, coins: CoinBalances::new(), sats: 3 };
    let read = Utxo::try_from(&utxo.outpoint(), CoinBalances::new(), 99).unwrap();
    assert_eq!(read.txid, utxo.txid);
    assert_eq!(read.vout, 12);
    assert_eq!(read.sats, 99);
}

#[test]
fn outpoints_that_are_none_are_refused() {
    for text in ["", "ab", "ab:1", "zz:1"] {
        let read = Utxo::try_from(&text.to_string(), CoinBalances::new(), 0);
        let outside = ree_types::Utxo::try_from(text, CoinBalances::new(), 0);
        assert_eq!(read, Err(outside.unwrap_err()));
    }
}

#[test]
fn different_outputs_are_named_differently() {
    let mut names: Vec<String> = Vec::new();
    for id in [1u8, 2, 17] {
        for vout in [0u32, 1, 10, 11] {
            let utxo = Utxo { txid: txid(id), vout, coins: CoinBalances::new(), sats: 0 };
            assert!(!names.contains(&utxo.outpoint()));
            names.push(utxo.outpoint());
        }
    }
}

#[test]
fn the_first_balance_of_a_coin_is_found() {
    let mut coins = CoinBalances::new();
    assert_eq!(find_value(&coins, CoinId::cookie()), None);
    coins.add_coin(&ree_types::CoinBalance { id: ree_types::CoinId::rune(1, 2), value: 5 });
    coins.add_coin(&ree_types::CoinBalance { id: ree_types::CoinId::rune(840000, 846), value: 6 });
    assert_eq!(find_value(&coins, CoinId::cookie()), Some(6));
    assert_eq!(find_value(&coins, CoinId::rune(1, 2)), Some(5));
    assert_eq!(find_value(&coins, CoinId::btc()), None);
}

#[test]
fn ids_are_told_apart() {
    assert!(txid(3).same(&txid(3)));
    assert!(!txid(3).same(&txid(4)));
}

#[test]
fn principals_have_up_to_29_bytes() {
    assert!(Principal::try_from_bytes(vec![0; 30]).is_none());
    let p = Principal::try_from_bytes(vec![4]).unwrap();
    assert_eq!(p.to_text(), "2vxsx-fae");
    assert_eq!(p.as_bytes(), &vec![4]);
    let management = Principal::try_from_bytes(vec![]).unwrap();
    assert_eq!(management.to_text(), "aaaaa-aa");
    assert!(p.same(&p.clone()));
    assert!(!p.same(&management));
    assert!(!p.same(&Principal::try_from_bytes(vec![5]).unwrap()));
}

#[test]
fn maps_keep_one_value_for_each_key() {
    let mut map: KeyMap<String, u32> = KeyMap::new();
    map.insert("a".to_string(), 1);
    map.insert("b".to_string(), 2);
    map.insert("a".to_string(), 3);
    assert_eq!(map.get(&"a".to_string()), Some(&3));
    assert_eq!(map.entries().len(), 2);
    assert_eq!(map.remove(&"a".to_string()), Some(3));
    assert_eq!(map.remove(&"a".to_string()), None);
    assert_eq!(map.get(&"a".to_string()), None);
    assert_eq!(map.get(&"b".to_string()), Some(&2));
}

#[test]
fn seconds_are_whole() {
    assert_eq!(NANOS_PER_SECOND, 1_000_000_000);
    assert_eq!(whole_seconds(1_999_999_999), 1);
    assert_eq!(whole_seconds(999_999_999), 0);
    assert_eq!(whole_seconds(u64::MAX), 18_446_744_073);
}
