use mobile_bridge::batch::begin_submit;
use mobile_bridge::batch::SubmitStart;
use mobile_bridge::batch::UnitOutcome;
use mobile_bridge::token::PendingToken;

#[test]
fn malformed_envelope_resolves_empty_array() {
    let token = PendingToken::new(11);
    match begin_submit("not json", token) {
        SubmitStart::Rejected(res) => {
            assert_eq!(res.handle, 11);
            assert_eq!(res.payload, "[]");
        }
        SubmitStart::Accepted(_) => panic!("malformed envelope must be rejected"),
    }
}

#[test]
fn outputs_stand_in_input_order_whatever_the_completion_order() {
    let token = PendingToken::new(5);
    let mut batch = match begin_submit("[{\"method\":\"a\"},{\"method\":\"b\"}]", token) {
        SubmitStart::Accepted(batch) => batch,
        SubmitStart::Rejected(_) => panic!("well-formed envelope must be accepted"),
    };
    assert_eq!(batch.len(), 2);
    assert_eq!(batch.unit_at(0).method, "a");
    assert_eq!(batch.unit_at(1).method, "b");
    // the second unit finishes first; the output order must not change
    batch.record(1, UnitOutcome::Responded("{\"of\":\"b\"}".to_string()));
    assert!(!batch.is_complete());
    batch.record(0, UnitOutcome::Responded("{\"of\":\"a\"}".to_string()));
    assert!(batch.is_complete());
    let res = batch.finish();
    assert_eq!(res.handle, 5);
    assert_eq!(res.payload, "[{\"of\":\"a\"},{\"of\":\"b\"}]");
}

#[test]
fn one_faulted_unit_does_not_block_resolution() {
    let token = PendingToken::new(8);
    let mut batch = match begin_submit("[{\"method\":\"a\"},{\"method\":\"b\"}]", token) {
        SubmitStart::Accepted(batch) => batch,
        SubmitStart::Rejected(_) => panic!("well-formed envelope must be accepted"),
    };
    batch.record(0, UnitOutcome::Faulted);
    batch.record(1, UnitOutcome::Responded("{\"ok\":true}".to_string()));
    assert!(batch.is_complete());
    let res = batch.finish();
    assert_eq!(res.handle, 8);
    // the faulted unit keeps its position as a null, so the array keeps
    // the batch's length
    assert_eq!(res.payload, "[null,{\"ok\":true}]");
}

#[test]
fn units_without_response_resolve_as_null_in_place() {
    let token = PendingToken::new(2);
    let mut batch = match begin_submit("[{\"method\":\"sub\"}]", token) {
        SubmitStart::Accepted(batch) => batch,
        SubmitStart::Rejected(_) => panic!("well-formed envelope must be accepted"),
    };
    batch.record(0, UnitOutcome::NoResponse);
    let res = batch.finish();
    assert_eq!(res.payload, "[null]");
}

#[test]
fn output_length_matches_input_length_whatever_the_outcomes() {
    let token = PendingToken::new(6);
    let mut batch = match begin_submit(
        "[{\"method\":\"a\"},{\"method\":\"b\"},{\"method\":\"c\"}]",
        token,
    ) {
        SubmitStart::Accepted(batch) => batch,
        SubmitStart::Rejected(_) => panic!("well-formed envelope must be accepted"),
    };
    batch.record(2, UnitOutcome::Responded("3".to_string()));
    batch.record(1, UnitOutcome::NoResponse);
    batch.record(0, UnitOutcome::Responded("1".to_string()));
    let res = batch.finish();
    assert_eq!(res.payload, "[1,null,3]");
}

#[test]
fn single_object_dispatches_like_its_one_element_array() {
    let run = |text: &str| {
        let token = PendingToken::new(1);
        let mut batch = match begin_submit(text, token) {
            SubmitStart::Accepted(batch) => batch,
            SubmitStart::Rejected(_) => panic!("well-formed envelope must be accepted"),
        };
        assert_eq!(batch.len(), 1);
        batch.record(0, UnitOutcome::Responded("\"pong\"".to_string()));
        batch.finish().payload
    };
    assert_eq!(run("{\"method\":\"ping\"}"), run("[{\"method\":\"ping\"}]"));
    assert_eq!(run("{\"method\":\"ping\"}"), "[\"pong\"]");
}

#[test]
fn empty_batch_resolves_empty_array() {
    let token = PendingToken::new(3);
    let batch = match begin_submit("[]", token) {
        SubmitStart::Accepted(batch) => batch,
        SubmitStart::Rejected(_) => panic!("the empty array is a well-formed envelope"),
    };
    assert!(batch.is_complete());
    let res = batch.finish();
    assert_eq!(res.payload, "[]");
}

#[test]
fn token_resolution_carries_handle_and_payload() {
    let token = PendingToken::new(77);
    let res = token.resolve("[]".to_string());
    assert_eq!(res.handle, 77);
    assert_eq!(res.payload, "[]");
}
