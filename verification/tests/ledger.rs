use remittance::{CancelOutcome, ClaimOutcome, RemittanceContract, RemittanceRecord, TransferStatus};

fn text(s: &str) -> String {
    s.to_string()
}

/// Sends a transfer from sender `sid` to recipient `rid`, the host having drawn `drawn`,
/// at time `at`.
fn send(ledger: &mut RemittanceContract, sid: &str, rid: &str, amount_usd: u64, drawn: u64, at: u64) -> u64 {
    ledger.send_money(
        text("Sender"),
        text(sid),
        text("Malaysia"),
        text("Recipient"),
        text(rid),
        text("0800"),
        amount_usd,
        amount_usd * 155,
        text("Salam"),
        drawn,
        at,
    )
}

fn record(id: u64, sid: &str, rid: &str, status: TransferStatus, claimed_at: u64) -> RemittanceRecord {
    RemittanceRecord {
        transfer_id: id,
        sender_name: text("Sender"),
        sender_id: text(sid),
        sender_country: text("Taiwan"),
        recipient_name: text("Recipient"),
        recipient_id: text(rid),
        recipient_phone: text("0811"),
        amount_usd: 100,
        amount_idr: 15_500,
        message: text("Hi"),
        status,
        sent_at: 10,
        claimed_at,
    }
}

fn ids(records: &[RemittanceRecord]) -> Vec<u64> {
    records.iter().map(|r| r.transfer_id).collect()
}

#[test]
fn new_ledger_is_empty() {
    let ledger = RemittanceContract::new();
    assert_eq!(ledger.len(), 0);
    assert!(ledger.get_all_transfers().is_empty());
    assert!(ledger.get_transfer_by_id(1).is_empty());
}

#[test]
fn send_with_zero_amount_is_refused_and_changes_nothing() {
    let mut ledger = RemittanceContract::new();
    send(&mut ledger, "S1", "R1", 100, 5, 10);
    let reply = send(&mut ledger, "S1", "R1", 0, 9, 11);
    assert_eq!(reply, 0);
    assert_eq!(ledger.len(), 1);
    assert!(ledger.get_transfer_by_id(9).is_empty());
}

#[test]
fn send_appends_a_pending_record_with_every_field() {
    let mut ledger = RemittanceContract::new();
    let reply = ledger.send_money(
        text("Siti"),
        text("S1"),
        text("Malaysia"),
        text("Budi"),
        text("R1"),
        text("0812"),
        20000,
        3_100_000,
        text("Untuk sekolah"),
        31,
        1_700_000_000,
    );
    assert_eq!(reply, 31);
    let all = ledger.get_all_transfers();
    assert_eq!(all.len(), 1);
    let r = &all[0];
    assert_eq!(r.transfer_id, 31);
    assert_eq!(r.sender_name, text("Siti"));
    assert_eq!(r.sender_id, text("S1"));
    assert_eq!(r.sender_country, text("Malaysia"));
    assert_eq!(r.recipient_name, text("Budi"));
    assert_eq!(r.recipient_id, text("R1"));
    assert_eq!(r.recipient_phone, text("0812"));
    assert_eq!(r.amount_usd, 20000);
    assert_eq!(r.amount_idr, 3_100_000);
    assert_eq!(r.message, text("Untuk sekolah"));
    assert_eq!(r.status, TransferStatus::Pending);
    assert_eq!(r.sent_at, 1_700_000_000);
    assert_eq!(r.claimed_at, 0);
}

#[test]
fn claim_records_the_claim_time() {
    let mut ledger = RemittanceContract::new();
    send(&mut ledger, "S1", "R1", 100, 5, 10);
    assert_eq!(ledger.claim_money(5, text("R1"), 99), ClaimOutcome::Claimed);
    let found = ledger.get_transfer_by_id(5);
    assert_eq!(found[0].status, TransferStatus::Claimed);
    assert_eq!(found[0].claimed_at, 99);
    assert_eq!(found[0].sent_at, 10);
}

#[test]
fn claim_of_unknown_id_is_not_found() {
    let mut ledger = RemittanceContract::new();
    send(&mut ledger, "S1", "R1", 100, 5, 10);
    let outcome = ledger.claim_money(6, text("R1"), 20);
    assert_eq!(outcome, ClaimOutcome::NotFound);
    assert_eq!(outcome.message(), text("ERROR: Transfer ID not found"));
    assert!(!outcome.succeeded());
    assert_eq!(ledger.get_transfer_by_id(5)[0].status, TransferStatus::Pending);
}

#[test]
fn claim_checks_recipient_before_status() {
    let mut ledger = RemittanceContract::new();
    send(&mut ledger, "S1", "R1", 100, 5, 10);
    ledger.claim_money(5, text("R1"), 20);
    assert_eq!(ledger.claim_money(5, text("R2"), 30), ClaimOutcome::RecipientMismatch);
}

#[test]
fn failed_claims_change_nothing() {
    let mut ledger = RemittanceContract::new();
    send(&mut ledger, "S1", "R1", 100, 5, 10);
    ledger.claim_money(5, text("R1"), 20);
    ledger.claim_money(5, text("R1"), 30);
    ledger.claim_money(5, text("R9"), 40);
    let found = ledger.get_transfer_by_id(5);
    assert_eq!(found[0].claimed_at, 20);
}

#[test]
fn cancel_of_unknown_id_is_not_found() {
    let mut ledger = RemittanceContract::new();
    let outcome = ledger.cancel_transfer(3, text("S1"));
    assert_eq!(outcome, CancelOutcome::NotFound);
    assert_eq!(outcome.message(), text("ERROR: Transfer ID not found"));
}

#[test]
fn cancel_by_other_sender_is_refused() {
    let mut ledger = RemittanceContract::new();
    send(&mut ledger, "S1", "R1", 100, 5, 10);
    let outcome = ledger.cancel_transfer(5, text("S2"));
    assert_eq!(outcome, CancelOutcome::SenderMismatch);
    assert_eq!(outcome.message(), text("ERROR: Sender ID does not match"));
    assert_eq!(ledger.get_transfer_by_id(5)[0].status, TransferStatus::Pending);
}

#[test]
fn claimed_transfer_cannot_be_cancelled() {
    let mut ledger = RemittanceContract::new();
    send(&mut ledger, "S1", "R1", 100, 5, 10);
    ledger.claim_money(5, text("R1"), 20);
    let outcome = ledger.cancel_transfer(5, text("S1"));
    assert_eq!(outcome, CancelOutcome::NotPending);
    assert_eq!(outcome.message(), text("ERROR: Only pending transfers can be cancelled"));
    assert_eq!(ledger.get_transfer_by_id(5)[0].status, TransferStatus::Claimed);
}

#[test]
fn transfer_is_cancelled_at_most_once() {
    let mut ledger = RemittanceContract::new();
    send(&mut ledger, "S1", "R1", 100, 5, 10);
    let first = ledger.cancel_transfer(5, text("S1"));
    assert!(first.succeeded());
    assert_eq!(ledger.cancel_transfer(5, text("S1")), CancelOutcome::NotPending);
    let found = ledger.get_transfer_by_id(5);
    assert_eq!(found[0].status, TransferStatus::Cancelled);
    assert_eq!(found[0].claimed_at, 0);
}

#[test]
fn cancelled_transfer_cannot_be_claimed() {
    let mut ledger = RemittanceContract::new();
    send(&mut ledger, "S1", "R1", 100, 5, 10);
    ledger.cancel_transfer(5, text("S1"));
    assert_eq!(ledger.claim_money(5, text("R1"), 20), ClaimOutcome::AlreadyCancelled);
    assert_eq!(ledger.claim_money(5, text("R2"), 20), ClaimOutcome::RecipientMismatch);
    assert_eq!(ledger.get_transfer_by_id(5)[0].status, TransferStatus::Cancelled);
}

#[test]
fn every_reply_text() {
    assert_eq!(ClaimOutcome::Claimed.message(), text("Transfer claimed successfully"));
    assert_eq!(ClaimOutcome::RecipientMismatch.message(), text("ERROR: Recipient ID does not match"));
    assert_eq!(ClaimOutcome::AlreadyClaimed.message(), text("ERROR: Transfer has already been claimed"));
    assert_eq!(ClaimOutcome::AlreadyCancelled.message(), text("ERROR: Transfer has been cancelled"));
    assert_eq!(ClaimOutcome::NotFound.message(), text("ERROR: Transfer ID not found"));
    assert_eq!(CancelOutcome::Cancelled.message(), text("Transfer cancelled successfully"));
    assert_eq!(CancelOutcome::SenderMismatch.message(), text("ERROR: Sender ID does not match"));
    assert_eq!(CancelOutcome::NotPending.message(), text("ERROR: Only pending transfers can be cancelled"));
    assert_eq!(CancelOutcome::NotFound.message(), text("ERROR: Transfer ID not found"));
    assert!(ClaimOutcome::Claimed.succeeded());
    assert!(!ClaimOutcome::AlreadyClaimed.succeeded());
    assert!(CancelOutcome::Cancelled.succeeded());
    assert!(!CancelOutcome::NotPending.succeeded());
}

#[test]
fn only_the_first_record_with_an_id_counts() {
    let mut ledger = RemittanceContract::from_records(vec![
        record(7, "S1", "R1", TransferStatus::Claimed, 50),
        record(7, "S2", "R2", TransferStatus::Pending, 0),
    ]);
    let found = ledger.get_transfer_by_id(7);
    assert_eq!(found.len(), 1);
    assert_eq!(found[0].sender_id, text("S1"));
    assert_eq!(ledger.claim_money(7, text("R2"), 60), ClaimOutcome::RecipientMismatch);
    assert_eq!(ledger.claim_money(7, text("R1"), 60), ClaimOutcome::AlreadyClaimed);
    assert_eq!(ledger.cancel_transfer(7, text("S2")), CancelOutcome::SenderMismatch);
    assert_eq!(ledger.get_all_transfers()[1].status, TransferStatus::Pending);
}

#[test]
fn histories_keep_the_order_of_sending() {
    let mut ledger = RemittanceContract::new();
    send(&mut ledger, "S1", "R1", 100, 1, 10);
    send(&mut ledger, "S2", "R1", 100, 2, 11);
    send(&mut ledger, "S1", "R2", 100, 3, 12);
    send(&mut ledger, "S1", "R1", 100, 4, 13);
    assert_eq!(ids(&ledger.get_transfers_by_sender(text("S1"))), vec![1, 3, 4]);
    assert_eq!(ids(&ledger.get_transfers_by_sender(text("S2"))), vec![2]);
    assert_eq!(ids(&ledger.get_transfers_by_recipient(text("R1"))), vec![1, 2, 4]);
    assert_eq!(ids(&ledger.get_transfers_by_recipient(text("R2"))), vec![3]);
    assert!(ledger.get_transfers_by_sender(text("R1")).is_empty());
    assert_eq!(ids(&ledger.get_all_transfers()), vec![1, 2, 3, 4]);
}

#[test]
fn new_transfer_shows_up_last_in_its_histories() {
    let mut ledger = RemittanceContract::new();
    send(&mut ledger, "S1", "R1", 100, 1, 10);
    send(&mut ledger, "S1", "R2", 100, 2, 11);
    assert_eq!(ids(&ledger.get_transfers_by_sender(text("S1"))), vec![1, 2]);
    assert_eq!(ids(&ledger.get_transfers_by_recipient(text("R2"))), vec![2]);
    assert_eq!(ids(&ledger.get_transfers_by_recipient(text("R1"))), vec![1]);
}

#[test]
fn operations_never_remove_or_reorder_records() {
    let mut ledger = RemittanceContract::new();
    send(&mut ledger, "S1", "R1", 100, 1, 10);
    send(&mut ledger, "S2", "R2", 100, 2, 11);
    send(&mut ledger, "S3", "R3", 100, 3, 12);
    ledger.claim_money(2, text("R2"), 20);
    ledger.cancel_transfer(3, text("S3"));
    ledger.claim_money(9, text("R2"), 20);
    let all = ledger.get_all_transfers();
    assert_eq!(ids(&all), vec![1, 2, 3]);
    assert_eq!(all[0].status, TransferStatus::Pending);
    assert_eq!(all[1].status, TransferStatus::Claimed);
    assert_eq!(all[1].sender_id, text("S2"));
    assert_eq!(all[1].amount_usd, 100);
    assert_eq!(all[2].status, TransferStatus::Cancelled);
    assert_eq!(all[2].message, text("Salam"));
}

#[test]
fn stored_records_load_back_in_order() {
    let ledger = RemittanceContract::from_records(vec![
        record(3, "S1", "R1", TransferStatus::Pending, 0),
        record(1, "S2", "R2", TransferStatus::Cancelled, 0),
    ]);
    assert_eq!(ledger.len(), 2);
    assert_eq!(ids(&ledger.get_all_transfers()), vec![3, 1]);
    let copy = ledger.get_all_transfers()[1].clone();
    assert_eq!(copy.status, TransferStatus::Cancelled);
    assert_eq!(copy.sender_id, text("S2"));
    assert_eq!(copy.sender_country, text("Taiwan"));
}

#[test]
fn with_status_changes_only_status_and_claim_time() {
    let r = record(4, "S1", "R1", TransferStatus::Pending, 0);
    let s = r.with_status(TransferStatus::Claimed, 77);
    assert_eq!(s.status, TransferStatus::Claimed);
    assert_eq!(s.claimed_at, 77);
    assert_eq!(s.transfer_id, 4);
    assert_eq!(s.recipient_phone, text("0811"));
    assert_eq!(s.sent_at, 10);
}

#[test]
fn drawn_zero_gets_the_smallest_free_id() {
    let mut ledger = RemittanceContract::new();
    assert_eq!(send(&mut ledger, "S1", "R1", 100, 0, 10), 1);
    assert_eq!(send(&mut ledger, "S1", "R1", 100, 0, 11), 2);
    assert_eq!(ids(&ledger.get_all_transfers()), vec![1, 2]);
}

#[test]
fn drawn_id_already_stored_is_not_reused() {
    let mut ledger = RemittanceContract::new();
    assert_eq!(send(&mut ledger, "S1", "R1", 100, 2, 10), 2);
    assert_eq!(send(&mut ledger, "S1", "R1", 100, 1, 11), 1);
    assert_eq!(send(&mut ledger, "S2", "R2", 100, 2, 12), 3);
    assert_eq!(send(&mut ledger, "S2", "R2", 100, 3, 13), 4);
    assert_eq!(ids(&ledger.get_all_transfers()), vec![2, 1, 3, 4]);
    assert_eq!(ledger.get_transfer_by_id(3)[0].sender_id, text("S2"));
}

#[test]
fn fresh_drawn_id_is_used_as_drawn() {
    let mut ledger = RemittanceContract::new();
    assert_eq!(send(&mut ledger, "S1", "R1", 100, 9_999_999_999, 10), 9_999_999_999);
    assert_eq!(send(&mut ledger, "S1", "R1", 100, u64::MAX, 11), u64::MAX);
    assert_eq!(send(&mut ledger, "S1", "R1", 100, u64::MAX, 12), 1);
}

#[test]
fn a_run_of_calls_keeps_one_record_per_taken_send() {
    let mut ledger = RemittanceContract::new();
    let a = send(&mut ledger, "S1", "R1", 100, 40, 10);
    let refused = send(&mut ledger, "S1", "R1", 0, 41, 11);
    let b = send(&mut ledger, "S2", "R2", 100, 40, 12);
    ledger.claim_money(a, text("R1"), 20);
    ledger.cancel_transfer(b, text("S2"));
    let c = send(&mut ledger, "S3", "R3", 100, 7, 13);
    assert_eq!(refused, 0);
    assert_eq!(ids(&ledger.get_all_transfers()), vec![a, b, c]);
    assert!(a != b && b != c && a != c);
}
