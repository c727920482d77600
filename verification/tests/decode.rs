use wikipedia::decode::decode;
use wikipedia::json::Json;

#[test]
fn decode_reads_an_object_in_order() {
    let doc = decode("{\"b\": [1, true, null], \"a\": \"x\"}").unwrap();
    match doc {
        Json::Object(members) => {
            assert_eq!(members.len(), 2);
            assert_eq!(members[0].0, "a");
            assert!(matches!(&members[0].1, Json::Text(s) if s == "x"));
            assert_eq!(members[1].0, "b");
            match &members[1].1 {
                Json::Array(items) => {
                    assert_eq!(items.len(), 3);
                    assert!(matches!(&items[0], Json::Number(n) if n == "1"));
                    assert!(matches!(&items[1], Json::Bool(true)));
                    assert!(matches!(&items[2], Json::Null));
                }
                other => panic!("not an array: {:?}", other),
            }
        }
        other => panic!("not an object: {:?}", other),
    }
}

#[test]
fn decode_rejects_what_is_no_document() {
    assert!(matches!(decode("{\"a\": "), Err(wikipedia::error::WikiError::JSONError(_))));
}
