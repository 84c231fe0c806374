//! Refusals and the numbers they carry.

use ibkr_dx::error_codes::Refusal;

#[test]
fn a_reason_alone_is_a_validation_refusal() {
    let refusal: Refusal = "quantity must be positive".to_string().into();
    assert_eq!(refusal.code, Refusal::VALIDATION);
    assert_eq!(refusal.to_string(), "quantity must be positive");
}

#[test]
fn a_refusal_the_venue_stated_keeps_its_number() {
    let refused = Refusal::stated(10197, "no market data during competing session");
    assert_eq!(refused.code, 10197);
    assert_eq!(refused.to_string(), "no market data during competing session");

    let gone = Refusal::not_connected("Engine stopped: sending on a closed channel");
    assert_eq!(gone.code, 504);
    assert_ne!(gone.code, Refusal::VALIDATION);

    let quiet = Refusal::no_answer("no answer within 15s to head timestamp");
    assert_eq!(quiet.code, Refusal::NO_ANSWER);
    assert!(quiet.code < 0, "not a number the venue can state");
    assert_ne!(quiet.code, Refusal::VALIDATION, "silence is not a bad request");

    assert_eq!(refused.to_string(), "no market data during competing session");
}

#[test]
fn an_unnamed_contract_is_reported_under_its_own_number() {
    assert_eq!(Refusal::no_definition("nothing matches").code, 200);
}

#[test]
fn each_refusal_is_reported_under_its_own_number() {
    assert_eq!(Refusal::validation("x").code, 321);
    assert_eq!(Refusal::unnumbered("x").code, i32::MAX);
    assert_eq!(Refusal::no_answer("x").code, -1);
    assert_eq!(Refusal::validation("why").clone(), Refusal::stated(321, "why"));
}
