use mobile_bridge::envelope::decode_envelope;
use mobile_bridge::envelope::render_array;

#[test]
fn malformed_text_is_rejected() {
    assert!(decode_envelope("not json").is_none());
}

#[test]
fn single_object_equals_one_element_array() {
    let single = decode_envelope("{\"method\":\"ping\"}").expect("single object decodes");
    let array = decode_envelope("[{\"method\":\"ping\"}]").expect("one-element array decodes");
    assert_eq!(single.len(), 1);
    assert_eq!(array.len(), 1);
    assert_eq!(single[0].method, array[0].method);
    assert_eq!(single[0].raw, array[0].raw);
    assert_eq!(single[0].method, "ping");
}

#[test]
fn array_units_keep_order_and_methods() {
    let units =
        decode_envelope("[{\"method\":\"a\",\"id\":1},{\"method\":\"b\",\"id\":2}]").expect("decodes");
    assert_eq!(units.len(), 2);
    assert_eq!(units[0].method, "a");
    assert_eq!(units[1].method, "b");
    assert!(units[0].raw.contains("\"id\":1"));
    assert!(units[1].raw.contains("\"id\":2"));
}

#[test]
fn empty_array_decodes_to_no_units() {
    let units = decode_envelope("[]").expect("empty array decodes");
    assert_eq!(units.len(), 0);
}

#[test]
fn unit_without_method_rejects_whole_envelope() {
    assert!(decode_envelope("[{\"method\":\"a\"},{\"nope\":1}]").is_none());
}

#[test]
fn non_object_single_envelope_is_rejected() {
    assert!(decode_envelope("42").is_none());
    assert!(decode_envelope("\"ping\"").is_none());
}

#[test]
fn method_must_be_a_string() {
    assert!(decode_envelope("{\"method\":7}").is_none());
}

#[test]
fn render_empty_batch_is_empty_array_text() {
    let none: Vec<String> = Vec::new();
    assert_eq!(render_array(&none), "[]");
}

#[test]
fn render_joins_units_with_commas() {
    let units = vec!["{\"a\":1}".to_string(), "true".to_string(), "\"x\"".to_string()];
    assert_eq!(render_array(&units), "[{\"a\":1},true,\"x\"]");
}

#[test]
fn decoded_unit_raw_is_the_unit_not_the_envelope() {
    let units = decode_envelope("[{\"method\":\"a\"}]").expect("decodes");
    assert_eq!(units[0].raw, "{\"method\":\"a\"}");
}
