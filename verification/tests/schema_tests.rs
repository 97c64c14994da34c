//! One minimal well-formed sample per event type: each decodes into the
//! matching payload variant with required fields populated and absent
//! optional fields resolved to empty.

use opensea_stream::json::parse_json;
use opensea_stream::protocol::Event;
use opensea_stream::schema::{Payload, StreamEvent};

const ADDR_OBJ: &str = "{\"address\":\"0xabababababababababababababababababababab\"}";
const ADDR_BARE: &str = "\"0xabababababababababababababababababababab\"";
const HASH: &str = "\"0xcdcdcdcdcdcdcdcdcdcdcdcdcdcdcdcdcdcdcdcdcdcdcdcdcdcdcdcdcdcdcdcd\"";
const COLLECTION: &str = "{\"slug\":\"neon-vortex-1\"}";

fn payment_token() -> String {
    format!(
        "{{\"address\":{},\"decimals\":18,\"eth_price\":\"1.0\",\"name\":\"Wrapped\",\"symbol\":\"WETH\",\"usd_price\":\"3000.5\"}}",
        ADDR_BARE
    )
}

fn protocol_data() -> String {
    format!(
        "{{\"parameters\":{{\"conduitKey\":\"ck\",\"consideration\":[],\"counter\":0,\"endTime\":\"1700000000\",\"offer\":[],\"offerer\":{a},\"orderType\":0,\"salt\":\"17\",\"startTime\":1690000000,\"totalOriginalConsiderationItems\":0,\"zone\":{a},\"zoneHash\":\"zh\"}}}}",
        a = ADDR_BARE
    )
}

fn decode_event(event_type: &str, payload: &str) -> StreamEvent {
    let text = format!(
        "{{\"event_type\":\"{}\",\"payload\":{},\"sent_at\":\"2023-08-01T22:39:32.033948+00:00\"}}",
        event_type, payload
    );
    let v = parse_json(text.as_bytes())
        .unwrap_or_else(|| panic!("sample for {} does not parse", event_type));
    StreamEvent::decode(&v)
        .unwrap_or_else(|| panic!("sample for {} does not decode", event_type))
}

#[test]
fn item_listed_sample() {
    let payload = format!(
        "{{\"collection\":{c},\"item\":{{}},\"event_timestamp\":1690000000,\"base_price\":\"1000000000000000000\",\"expiration_date\":1690086400,\"is_private\":false,\"listing_date\":1690000000,\"maker\":{m},\"order_hash\":{h},\"payment_token\":{p},\"protocol_data\":{d}}}",
        c = COLLECTION, m = ADDR_OBJ, h = HASH, p = payment_token(), d = protocol_data()
    );
    let e = decode_event("item_listed", &payload);
    assert_eq!(e.payload.event(), Event::ItemListed);
    match e.payload {
        Payload::ItemListed(d) => {
            assert_eq!(d.collection.slug, b"neon-vortex-1".to_vec());
            assert_eq!(d.base_price.digits(), &b"1000000000000000000".to_vec());
            assert!(d.listing_type.is_none());
            assert!(d.item.nft_id.is_none());
            assert!(d.protocol_data.signature.is_none());
            assert_eq!(d.protocol_data.parameters.start_time.secs, 1690000000);
            assert_eq!(d.protocol_data.parameters.end_time.secs, 1700000000);
        },
        other => panic!("wrong variant: {:?}", other),
    }
}

#[test]
fn item_sold_sample() {
    let payload = format!(
        "{{\"collection\":{c},\"item\":{{}},\"closing_date\":1690000001,\"event_timestamp\":1690000000,\"is_private\":false,\"maker\":{m},\"order_hash\":{h},\"payment_token\":{p},\"quantity\":1,\"sale_price\":\"25\",\"taker\":{m},\"transaction\":{{\"hash\":{h},\"timestamp\":1690000002}}}}",
        c = COLLECTION, m = ADDR_OBJ, h = HASH, p = payment_token()
    );
    let e = decode_event("item_sold", &payload);
    match e.payload {
        Payload::ItemSold(d) => {
            assert_eq!(d.quantity, 1);
            assert_eq!(d.sale_price.digits(), &b"25".to_vec());
            assert!(d.listing_type.is_none());
            assert_eq!(d.transaction.timestamp.secs, 1690000002);
        },
        other => panic!("wrong variant: {:?}", other),
    }
}

#[test]
fn item_transferred_sample() {
    let payload = format!(
        "{{\"collection\":{c},\"event_timestamp\":1690000000,\"from_account\":{m},\"item\":{{}},\"to_account\":{m}}}",
        c = COLLECTION, m = ADDR_OBJ
    );
    let e = decode_event("item_transferred", &payload);
    match e.payload {
        Payload::ItemTransferred(d) => {
            assert!(d.transaction.is_none());
            assert_eq!(d.from_account.bytes(), d.to_account.bytes());
        },
        other => panic!("wrong variant: {:?}", other),
    }
}

#[test]
fn item_metadata_updated_sample() {
    let payload = format!("{{\"collection\":{c},\"item\":{{}}}}", c = COLLECTION);
    let e = decode_event("item_metadata_updated", &payload);
    match e.payload {
        Payload::ItemMetadataUpdated(d) => {
            assert_eq!(d.collection.slug, b"neon-vortex-1".to_vec());
            assert!(d.item.metadata.is_none());
        },
        other => panic!("wrong variant: {:?}", other),
    }
}

#[test]
fn item_cancelled_sample() {
    let payload = format!(
        "{{\"base_price\":\"10\",\"collection\":{c},\"event_timestamp\":1690000000,\"is_private\":true,\"item\":{{}},\"order_hash\":{h},\"payment_token\":{p},\"quantity\":1}}",
        c = COLLECTION, h = HASH, p = payment_token()
    );
    let e = decode_event("item_cancelled", &payload);
    match e.payload {
        Payload::ItemCancelled(d) => {
            assert!(d.listing_date.is_none());
            assert!(d.listing_type.is_none());
            assert!(d.transaction.is_none());
            assert!(d.is_private);
        },
        other => panic!("wrong variant: {:?}", other),
    }
}

fn offer_payload() -> String {
    format!(
        "{{\"collection\":{c},\"item\":{{}},\"event_timestamp\":1690000000,\"base_price\":\"7\",\"created_date\":1690000000,\"expiration_date\":1690086400,\"maker\":{m},\"order_hash\":{h},\"payment_token\":{p},\"quantity\":1}}",
        c = COLLECTION, m = ADDR_OBJ, h = HASH, p = payment_token()
    )
}

#[test]
fn item_received_offer_sample() {
    let e = decode_event("item_received_offer", &offer_payload());
    match e.payload {
        Payload::ItemReceivedOffer(d) => {
            assert!(d.taker.is_none());
            assert_eq!(d.quantity, 1);
        },
        other => panic!("wrong variant: {:?}", other),
    }
}

#[test]
fn item_received_bid_sample() {
    let e = decode_event("item_received_bid", &offer_payload());
    match e.payload {
        Payload::ItemReceivedBid(d) => {
            assert!(d.taker.is_none());
            assert_eq!(d.base_price.digits(), &b"7".to_vec());
        },
        other => panic!("wrong variant: {:?}", other),
    }
}

fn collection_offer_payload() -> String {
    format!(
        "{{\"asset_contract_criteria\":{m},\"base_price\":\"9\",\"collection\":{c},\"collection_criteria\":{{\"slug\":\"neon-vortex-1\"}},\"created_date\":1690000000,\"event_timestamp\":1690000000,\"expiration_date\":1690086400,\"maker\":{m},\"order_hash\":{h},\"payment_token\":{p},\"protocol_address\":{a},\"protocol_data\":{d},\"quantity\":2}}",
        c = COLLECTION, m = ADDR_OBJ, h = HASH, p = payment_token(), a = ADDR_BARE,
        d = protocol_data()
    )
}

#[test]
fn collection_offer_sample() {
    let e = decode_event("collection_offer", &collection_offer_payload());
    match e.payload {
        Payload::CollectionOffer(d) => {
            assert_eq!(d.collection_criteria.slug, b"neon-vortex-1".to_vec());
            assert_eq!(d.quantity, 2);
            assert!(d.taker.is_none());
        },
        other => panic!("wrong variant: {:?}", other),
    }
}

#[test]
fn trait_offer_sample() {
    let payload = {
        let base = collection_offer_payload();
        // graft the trait criteria into the same object
        let mut s = base[..base.len() - 1].to_string();
        s.push_str(",\"trait_criteria\":{\"trait_name\":\"Background\",\"trait_type\":\"string\"}}");
        s
    };
    let e = decode_event("trait_offer", &payload);
    match e.payload {
        Payload::TraitOffer(d) => {
            assert_eq!(d.trait_criteria.trait_name, b"Background".to_vec());
            assert_eq!(d.trait_criteria.trait_type, b"string".to_vec());
        },
        other => panic!("wrong variant: {:?}", other),
    }
}

#[test]
fn order_invalidate_sample() {
    let payload = format!(
        "{{\"chain\":{{\"name\":\"ethereum\"}},\"collection\":{c},\"event_timestamp\":1690000000,\"item\":{{}},\"protocol_address\":{a}}}",
        c = COLLECTION, a = ADDR_BARE
    );
    let e = decode_event("order_invalidate", &payload);
    match e.payload {
        Payload::OrderInvalidate(d) => {
            // an order can be invalidated before ever being assigned a hash
            assert!(d.order_hash.is_none());
        },
        other => panic!("wrong variant: {:?}", other),
    }
}

#[test]
fn order_revalidate_sample() {
    let payload = format!(
        "{{\"chain\":{{\"name\":\"matic\"}},\"collection\":{c},\"event_timestamp\":1690000000,\"item\":{{}},\"order_hash\":{h},\"protocol_address\":{a}}}",
        c = COLLECTION, h = HASH, a = ADDR_BARE
    );
    let e = decode_event("order_revalidate", &payload);
    match e.payload {
        Payload::OrderRevalidate(d) => {
            assert_eq!(d.chain, opensea_stream::chain::Chain::Polygon);
        },
        other => panic!("wrong variant: {:?}", other),
    }
}

#[test]
fn unrecognized_event_type_is_refused() {
    let text = format!(
        "{{\"event_type\":\"item_vaporised\",\"payload\":{{\"collection\":{c},\"item\":{{}}}},\"sent_at\":\"2023-08-01T22:39:32+00:00\"}}",
        c = COLLECTION
    );
    let v = parse_json(text.as_bytes()).unwrap();
    assert!(StreamEvent::decode(&v).is_none());
}

#[test]
fn missing_required_field_is_refused() {
    // item_sold without its transaction
    let payload = format!(
        "{{\"collection\":{c},\"item\":{{}},\"closing_date\":1,\"event_timestamp\":1,\"is_private\":false,\"maker\":{m},\"order_hash\":{h},\"payment_token\":{p},\"quantity\":1,\"sale_price\":\"25\",\"taker\":{m}}}",
        c = COLLECTION, m = ADDR_OBJ, h = HASH, p = payment_token()
    );
    let text = format!(
        "{{\"event_type\":\"item_sold\",\"payload\":{},\"sent_at\":1690000000}}",
        payload
    );
    let v = parse_json(text.as_bytes()).unwrap();
    assert!(StreamEvent::decode(&v).is_none());
}

#[test]
fn nft_id_and_metadata_decode_inside_item() {
    let payload = format!(
        "{{\"collection\":{c},\"item\":{{\"nft_id\":\"ethereum/0xabababababababababababababababababababab/123/456\",\"permalink\":\"https://example.invalid/x\",\"chain\":{{\"name\":\"ethereum\"}},\"metadata\":{{\"name\":\"Piece\",\"traits\":[{{\"trait_type\":\"Background\",\"value\":\"Blue\"}}]}}}}}}",
        c = COLLECTION
    );
    let e = decode_event("item_metadata_updated", &payload);
    match e.payload {
        Payload::ItemMetadataUpdated(d) => {
            let nft = d.item.nft_id.unwrap();
            assert_eq!(nft.network, opensea_stream::chain::Chain::Ethereum);
            // the token id keeps everything after the second separator
            assert_eq!(nft.id, b"123/456".to_vec());
            let md = d.item.metadata.unwrap();
            assert_eq!(md.name.unwrap(), b"Piece".to_vec());
            let traits = md.traits.unwrap();
            assert_eq!(traits.len(), 1);
            assert_eq!(traits[0].trait_type, b"Background".to_vec());
            assert_eq!(traits[0].value.as_ref().unwrap(), &b"Blue".to_vec());
            assert!(traits[0].max_value.is_none());
        },
        other => panic!("wrong variant: {:?}", other),
    }
}
