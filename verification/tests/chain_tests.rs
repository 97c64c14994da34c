//! Network name decoding: the matic/Polygon pairing, the goerli asymmetry,
//! and the refusal of unknown names.

use opensea_stream::chain::Chain;
use opensea_stream::json::parse_json;

#[test]
fn matic_maps_to_polygon_both_ways() {
    assert_eq!(Chain::from_wire(&b"matic".to_vec()), Some(Chain::Polygon));
    assert_eq!(Chain::Polygon.wire_name(), b"matic".to_vec());
}

#[test]
fn every_wire_name_round_trips_except_goerli() {
    let all = [
        Chain::Avalanche,
        Chain::Base,
        Chain::Bsc,
        Chain::Ethereum,
        Chain::Optimism,
        Chain::Arbitrum,
        Chain::ArbitrumNova,
        Chain::Polygon,
        Chain::Klaytn,
        Chain::Solana,
        Chain::Mumbai,
        Chain::Baobab,
        Chain::Zora,
    ];
    for c in all {
        assert_eq!(Chain::from_wire(&c.wire_name()), Some(c));
    }
    assert_eq!(Chain::Goerli.wire_name(), b"goerli".to_vec());
    assert_eq!(Chain::from_wire(&b"goerli".to_vec()), None);
}

#[test]
fn object_shape_accepts_goerli() {
    let v = parse_json(b"{\"name\":\"goerli\"}").unwrap();
    assert_eq!(Chain::decode(&v), Some(Chain::Goerli));
    let v2 = parse_json(b"{\"name\":\"matic\"}").unwrap();
    assert_eq!(Chain::decode(&v2), Some(Chain::Polygon));
}

#[test]
fn unknown_network_is_refused() {
    assert_eq!(Chain::from_wire(&b"polygon".to_vec()), None);
    let v = parse_json(b"{\"name\":\"sepolia\"}").unwrap();
    assert_eq!(Chain::decode(&v), None);
}

#[test]
fn chain_object_round_trips() {
    let encoded = Chain::ArbitrumNova.encode();
    assert_eq!(Chain::decode(&encoded), Some(Chain::ArbitrumNova));
}
