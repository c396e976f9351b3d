use std::collections::BTreeMap;

use framed_codec::codec::{Cbor, Decoder, Encoder};

fn test_value(name: &str, data: u64) -> serde_cbor::Value {
    let mut map: BTreeMap<serde_cbor::Value, serde_cbor::Value> = BTreeMap::new();
    map.insert(
        serde_cbor::Value::Text("name".to_owned()),
        serde_cbor::Value::Text(name.to_owned()),
    );
    map.insert(
        serde_cbor::Value::Text("data".to_owned()),
        serde_cbor::Value::Integer(data as i128),
    );
    serde_cbor::Value::Map(map)
}

#[test]
fn cbor_codec_encode_decode() {
    let mut codec = Cbor {};
    let mut buff: Vec<u8> = Vec::new();

    let item1 = test_value("Test name", 16);
    codec.encode(&item1.clone(), &mut buff).unwrap();

    let item2 = codec.decode(&mut buff).unwrap().unwrap();
    assert_eq!(item1, item2);

    assert_eq!(codec.decode(&mut buff).unwrap(), None);

    assert_eq!(buff.len(), 0);
}

#[test]
fn cbor_codec_partial_decode() {
    let mut codec = Cbor {};
    let mut buff: Vec<u8> = Vec::new();

    let item1 = test_value("Test name", 34);
    codec.encode(&item1.clone(), &mut buff).unwrap();

    let mut start = buff.clone()[0..4].to_vec();
    assert_eq!(codec.decode(&mut start).unwrap(), None);

    codec.decode(&mut buff).unwrap().unwrap();

    assert_eq!(buff.len(), 0);
}
