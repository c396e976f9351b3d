use framed_codec::codec::{Decoder, Encoder, Json};

fn test_value(name: &str, data: u64) -> serde_json::Value {
    let mut map = serde_json::Map::new();
    map.insert(
        "name".to_owned(),
        serde_json::Value::String(name.to_owned()),
    );
    map.insert(
        "data".to_owned(),
        serde_json::Value::Number(serde_json::Number::from(data)),
    );
    serde_json::Value::Object(map)
}

#[test]
fn json_codec_encode_decode() {
    let mut codec = Json {};
    let mut buff: Vec<u8> = Vec::new();

    let item1 = test_value("Test name", 16);
    codec.encode(&item1.clone(), &mut buff).unwrap();

    let item2 = codec.decode(&mut buff).unwrap().unwrap();
    assert_eq!(item1, item2);

    assert_eq!(codec.decode(&mut buff).unwrap(), None);

    assert_eq!(buff.len(), 0);
}

#[test]
fn json_codec_partial_decode() {
    let mut codec = Json {};
    let mut buff: Vec<u8> = Vec::new();

    let item1 = test_value("Test name", 34);
    codec.encode(&item1.clone(), &mut buff).unwrap();

    let mut start = buff.clone()[0..4].to_vec();
    assert_eq!(codec.decode(&mut start).unwrap(), None);

    codec.decode(&mut buff).unwrap().unwrap();

    assert_eq!(buff.len(), 0);
}

#[test]
fn json_codec_rejects_malformed_data() {
    let mut codec = Json {};
    let mut buff = b"not json at all!".to_vec();
    assert!(codec.decode(&mut buff).is_err());
}
