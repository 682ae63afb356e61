use wager_ledger::contract::{Contract, WagerError};
use wager_ledger::ledger::LedgerError;
use wager_ledger::metadata::TokenMetadata;
use wager_ledger::verdict::Response;

fn s(x: &str) -> String {
    x.to_string()
}

fn meta() -> TokenMetadata {
    TokenMetadata {
        standard: s("ft-1.0"),
        name: s("Wager Token"),
        symbol: s("WAGER"),
        icon: None,
        reference: None,
        reference_hash: None,
        decimals: 24,
    }
}

const H: [u8; 32] = [7u8; 32];

fn verdict(winner: &str) -> Response {
    Response {
        ok: true,
        data: Some(format!("{{\"message\":\"the verdict\",\"winner\":\"{}\"}}", winner)),
        signature: None,
    }
}

/// A contract with alice holding 300, bob holding 500, and one pending wager
/// of 100 from alice to bob, under request id 0.
fn setup_wager() -> Contract {
    let mut c = Contract::new(1000, meta(), s("agent"), s("operator"), s("vault"));
    assert_eq!(c.ft_transfer(s("vault"), s("alice"), 300, None, H), Ok(None));
    assert_eq!(c.ft_transfer(s("vault"), s("bob"), 500, None, H), Ok(None));
    assert_eq!(c.ft_transfer(s("alice"), s("bob"), 100, None, H), Ok(Some(0)));
    c
}

#[test]
fn respond_without_request_fails() {
    let mut c = setup_wager();
    let r = c.respond(&s("operator"), H, 7, verdict("bob"));
    assert_eq!(r, Err(WagerError::RequestNotFound));
    // The pending wager is untouched.
    assert!(c.get_request(0).is_ok());
    assert_eq!(c.num_requests, 1);
    assert!(matches!(c.await_response(7), Err(WagerError::ResponseMissing)));
}

#[test]
fn respond_by_non_operator_fails() {
    let mut c = setup_wager();
    let r = c.respond(&s("mallory"), H, 0, verdict("bob"));
    assert_eq!(r, Err(WagerError::Unauthorized));
    assert!(matches!(c.await_response(0), Err(WagerError::ResponseMissing)));
}

#[test]
fn settlement_without_response_fails() {
    let mut c = setup_wager();
    let r = c.await_response(0);
    assert!(matches!(r, Err(WagerError::ResponseMissing)));
    assert!(c.get_request(0).is_ok());
}

#[test]
fn settlement_voided_when_not_ok() {
    let mut c = setup_wager();
    let resp = Response {
        ok: false,
        data: Some(s("{\"message\":\"no deal\",\"winner\":\"bob\"}")),
        signature: None,
    };
    assert_eq!(c.respond(&s("operator"), H, 0, resp), Ok(()));
    let out = c.await_response(0).unwrap();
    assert!(!out.ok);
    assert_eq!(out.data, Some(s("{\"message\":\"no deal\",\"winner\":\"bob\"}")));
    // No funds moved; the pair is removed.
    assert_eq!(c.ft_balance_of(&s("alice")), 300);
    assert_eq!(c.ft_balance_of(&s("bob")), 500);
    assert!(matches!(c.get_request(0), Err(WagerError::RequestNotFound)));
    assert!(matches!(c.await_response(0), Err(WagerError::ResponseMissing)));
}

#[test]
fn settlement_winner_receiver_moves_amount_to_receiver() {
    let mut c = setup_wager();
    assert_eq!(c.respond(&s("operator"), H, 0, verdict("bob")), Ok(()));
    let out = c.await_response(0).unwrap();
    assert!(out.ok);
    // The sender lost the wager: alice pays bob.
    assert_eq!(c.ft_balance_of(&s("alice")), 200);
    assert_eq!(c.ft_balance_of(&s("bob")), 600);
    assert_eq!(c.ft_total_supply(), 1000);
    assert!(matches!(c.get_request(0), Err(WagerError::RequestNotFound)));
}

#[test]
fn settlement_winner_sender_moves_amount_to_sender() {
    let mut c = setup_wager();
    assert_eq!(c.respond(&s("operator"), H, 0, verdict("alice")), Ok(()));
    let out = c.await_response(0).unwrap();
    assert!(out.ok);
    // The receiver lost the wager: bob pays alice.
    assert_eq!(c.ft_balance_of(&s("alice")), 400);
    assert_eq!(c.ft_balance_of(&s("bob")), 400);
    assert_eq!(c.ft_total_supply(), 1000);
    assert!(matches!(c.get_request(0), Err(WagerError::RequestNotFound)));
}

#[test]
fn settlement_unknown_winner_fails_and_changes_nothing() {
    let mut c = setup_wager();
    assert_eq!(c.respond(&s("operator"), H, 0, verdict("mallory")), Ok(()));
    let r = c.await_response(0);
    assert!(matches!(r, Err(WagerError::UnknownWinner)));
    assert_eq!(c.ft_balance_of(&s("alice")), 300);
    assert_eq!(c.ft_balance_of(&s("bob")), 500);
    // Nothing was consumed: the wager is still pending.
    assert!(c.get_request(0).is_ok());
}

#[test]
fn settlement_malformed_verdict_fails_and_changes_nothing() {
    let mut c = setup_wager();
    let resp = Response { ok: true, data: Some(s("not a verdict")), signature: None };
    assert_eq!(c.respond(&s("operator"), H, 0, resp), Ok(()));
    assert!(matches!(c.await_response(0), Err(WagerError::MalformedVerdict)));
    // A response with no payload at all does not parse either, even when the
    // wager is merely voided.
    let resp = Response { ok: false, data: None, signature: None };
    assert_eq!(c.respond(&s("operator"), H, 0, resp), Ok(()));
    assert!(matches!(c.await_response(0), Err(WagerError::MalformedVerdict)));
    assert!(c.get_request(0).is_ok());
    assert_eq!(c.ft_balance_of(&s("bob")), 500);
}

#[test]
fn settlement_paying_unregistered_winner_fails() {
    let mut c = Contract::new(1000, meta(), s("agent"), s("operator"), s("vault"));
    assert_eq!(c.ft_transfer(s("vault"), s("bob"), 500, None, H), Ok(None));
    // alice never held a balance and is not registered; bob covers 100.
    assert_eq!(c.ft_transfer(s("alice"), s("bob"), 100, None, H), Ok(Some(0)));
    assert_eq!(c.respond(&s("operator"), H, 0, verdict("alice")), Ok(()));
    // Paying alice back needs her registered; the ledger refuses.
    let r = c.await_response(0);
    assert_eq!(r.err(), Some(WagerError::Ledger(LedgerError::NotRegistered)));
    assert!(c.get_request(0).is_ok());
    // After she deposits storage, settlement goes through.
    c.storage_deposit(&s("alice"));
    assert!(c.await_response(0).is_ok());
    assert_eq!(c.ft_balance_of(&s("alice")), 100);
    assert_eq!(c.ft_balance_of(&s("bob")), 400);
}

#[test]
fn settlement_when_loser_cannot_pay_fails() {
    let mut c = setup_wager();
    // Drain alice below the wagered amount before settlement.
    assert_eq!(c.ft_transfer(s("alice"), s("carol"), 250, None, H), Ok(None));
    assert_eq!(c.ft_balance_of(&s("alice")), 50);
    assert_eq!(c.respond(&s("operator"), H, 0, verdict("bob")), Ok(()));
    let r = c.await_response(0);
    assert_eq!(r.err(), Some(WagerError::Ledger(LedgerError::InsufficientBalance)));
    assert!(c.get_request(0).is_ok());
    assert_eq!(c.ft_balance_of(&s("bob")), 500);
}

#[test]
fn settlement_of_zero_wager_fails() {
    let mut c = Contract::new(1000, meta(), s("agent"), s("operator"), s("vault"));
    assert_eq!(c.ft_transfer(s("vault"), s("bob"), 500, None, H), Ok(None));
    // Any balance covers 0, so a zero transfer always becomes a wager; the
    // ledger then refuses to move nothing.
    assert_eq!(c.ft_transfer(s("alice"), s("bob"), 0, None, H), Ok(Some(0)));
    assert_eq!(c.respond(&s("operator"), H, 0, verdict("bob")), Ok(()));
    let r = c.await_response(0);
    assert_eq!(r.err(), Some(WagerError::Ledger(LedgerError::ZeroAmount)));
    assert!(c.get_request(0).is_ok());
}

#[test]
fn settlement_of_self_wager_fails() {
    let mut c = Contract::new(1000, meta(), s("agent"), s("operator"), s("vault"));
    assert_eq!(c.ft_transfer(s("vault"), s("alice"), 300, None, H), Ok(None));
    // alice holds 300 >= 100, so a transfer to herself suspends into a wager.
    assert_eq!(c.ft_transfer(s("alice"), s("alice"), 100, None, H), Ok(Some(0)));
    assert_eq!(c.respond(&s("operator"), H, 0, verdict("alice")), Ok(()));
    let r = c.await_response(0);
    assert_eq!(r.err(), Some(WagerError::Ledger(LedgerError::SelfTransfer)));
    assert_eq!(c.ft_balance_of(&s("alice")), 300);
}

#[test]
fn later_response_overwrites_earlier_one() {
    let mut c = setup_wager();
    assert_eq!(c.respond(&s("operator"), H, 0, verdict("mallory")), Ok(()));
    assert_eq!(c.respond(&s("operator"), H, 0, verdict("bob")), Ok(()));
    // Only the last response before resumption is observed.
    assert!(c.await_response(0).is_ok());
    assert_eq!(c.ft_balance_of(&s("bob")), 600);
}

#[test]
fn scenario_pending_wager_settled_against_receiver() {
    // The reserve holds 1000; alice (balance 0, registered) "transfers" 100
    // to bob (balance 500): a wager is created under request id 0. The
    // verdict pays alice: bob's balance falls by 100, alice's rises by 100,
    // and the pending pair is gone.
    let mut c = Contract::new(1000, meta(), s("agent"), s("operator"), s("vault"));
    assert_eq!(c.ft_transfer(s("vault"), s("bob"), 500, None, H), Ok(None));
    c.storage_deposit(&s("alice"));
    assert_eq!(c.ft_balance_of(&s("alice")), 0);
    let r = c.ft_transfer(s("alice"), s("bob"), 100, None, H);
    assert_eq!(r, Ok(Some(0)));
    assert_eq!(c.respond(&s("operator"), H, 0, verdict("alice")), Ok(()));
    let out = c.await_response(0).unwrap();
    assert!(out.ok);
    assert_eq!(c.ft_balance_of(&s("bob")), 400);
    assert_eq!(c.ft_balance_of(&s("alice")), 100);
    assert!(matches!(c.get_request(0), Err(WagerError::RequestNotFound)));
    assert!(matches!(c.await_response(0), Err(WagerError::ResponseMissing)));
}
