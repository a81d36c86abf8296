use vstd::prelude::*;

use crate::record::{RecordView, TransferStatus, settled};

verus! {

/// What a claim of a transfer by its recipient came to.
#[derive(Clone, Copy, Debug, PartialEq, Eq, Structural)]
pub enum ClaimOutcome {
    /// The transfer was pending and is now claimed.
    Claimed,
    /// The transfer exists but the recipient id given is not the one it was sent to.
    RecipientMismatch,
    /// The transfer was claimed before.
    AlreadyClaimed,
    /// The transfer was cancelled by its sender.
    AlreadyCancelled,
    /// No transfer has the id given.
    NotFound,
}

/// What a cancellation of a transfer by its sender came to.
#[derive(Clone, Copy, Debug, PartialEq, Eq, Structural)]
pub enum CancelOutcome {
    /// The transfer was pending and is now cancelled.
    Cancelled,
    /// The transfer exists but the sender id given is not the one that sent it.
    SenderMismatch,
    /// The transfer was claimed or cancelled before.
    NotPending,
    /// No transfer has the id given.
    NotFound,
}

impl ClaimOutcome {
    /// The reply that the contract gives for this outcome.
    pub open spec fn reply_text(self) -> Seq<char> {
        match self {
            ClaimOutcome::Claimed => "Transfer claimed successfully"@,
            ClaimOutcome::RecipientMismatch => "ERROR: Recipient ID does not match"@,
            ClaimOutcome::AlreadyClaimed => "ERROR: Transfer has already been claimed"@,
            ClaimOutcome::AlreadyCancelled => "ERROR: Transfer has been cancelled"@,
            ClaimOutcome::NotFound => "ERROR: Transfer ID not found"@,
        }
    }

    /// The reply that the contract gives for this outcome.
    pub fn message(&self) -> (text: String)
        ensures
            text@ == self.reply_text(),
    {
        match self {
            ClaimOutcome::Claimed => String::from_str("Transfer claimed successfully"),
            ClaimOutcome::RecipientMismatch => String::from_str("ERROR: Recipient ID does not match"),
            ClaimOutcome::AlreadyClaimed => String::from_str(
                "ERROR: Transfer has already been claimed",
            ),
            ClaimOutcome::AlreadyCancelled => String::from_str("ERROR: Transfer has been cancelled"),
            ClaimOutcome::NotFound => String::from_str("ERROR: Transfer ID not found"),
        }
    }

    /// Whether the claim changed the ledger.
    pub fn succeeded(&self) -> (ok: bool)
        ensures
            ok == (*self == ClaimOutcome::Claimed),
    {
        match self {
            ClaimOutcome::Claimed => true,
            _ => false,
        }
    }
}

impl CancelOutcome {
    /// The reply that the contract gives for this outcome.
    pub open spec fn reply_text(self) -> Seq<char> {
        match self {
            CancelOutcome::Cancelled => "Transfer cancelled successfully"@,
            CancelOutcome::SenderMismatch => "ERROR: Sender ID does not match"@,
            CancelOutcome::NotPending => "ERROR: Only pending transfers can be cancelled"@,
            CancelOutcome::NotFound => "ERROR: Transfer ID not found"@,
        }
    }

    /// The reply that the contract gives for this outcome.
    pub fn message(&self) -> (text: String)
        ensures
            text@ == self.reply_text(),
    {
        match self {
            CancelOutcome::Cancelled => String::from_str("Transfer cancelled successfully"),
            CancelOutcome::SenderMismatch => String::from_str("ERROR: Sender ID does not match"),
            CancelOutcome::NotPending => String::from_str(
                "ERROR: Only pending transfers can be cancelled",
            ),
            CancelOutcome::NotFound => String::from_str("ERROR: Transfer ID not found"),
        }
    }

    /// Whether the cancellation changed the ledger.
    pub fn succeeded(&self) -> (ok: bool)
        ensures
            ok == (*self == CancelOutcome::Cancelled),
    {
        match self {
            CancelOutcome::Cancelled => true,
            _ => false,
        }
    }
}

/// The index of the first record at or after `from` whose transfer id is `id`,
/// or -1 when there is none.
pub open spec fn find_from(records: Seq<RecordView>, id: u64, from: int) -> int
    decreases records.len() - from,
{
    if from < 0 || from >= records.len() {
        -1
    } else if records[from].transfer_id == id {
        from
    } else {
        find_from(records, id, from + 1)
    }
}

/// The index of the first record whose transfer id is `id`, or -1 when there is none.
pub open spec fn find_transfer(records: Seq<RecordView>, id: u64) -> int {
    find_from(records, id, 0)
}

/// Whether some record has the transfer id `id`.
pub open spec fn stored(records: Seq<RecordView>, id: u64) -> bool {
    exists|j: int| 0 <= j < records.len() && #[trigger] records[j].transfer_id == id
}

/// Whether `id` can name a new transfer: it is not 0, which is the reply of a refused
/// send, and no record has it.
pub open spec fn is_fresh(records: Seq<RecordView>, id: u64) -> bool {
    id != 0 && !stored(records, id)
}

/// Whether `id` is the smallest id that can name a new transfer.
pub open spec fn is_first_free(records: Seq<RecordView>, id: u64) -> bool {
    &&& is_fresh(records, id)
    &&& forall|k: u64| 0 < k < id ==> #[trigger] stored(records, k)
}

/// The id that a send gives its transfer: the id drawn by the host when it can name a
/// new transfer, else the smallest id that can.
pub open spec fn assigned_id(records: Seq<RecordView>, drawn_id: u64) -> u64 {
    if is_fresh(records, drawn_id) {
        drawn_id
    } else {
        choose|id: u64| is_first_free(records, id)
    }
}

/// Whether a send of `amount_usd` US cents is taken: the amount is not 0, and the
/// ledger is below the largest size for which a fresh id is sure to exist.
pub open spec fn send_accepted(records: Seq<RecordView>, amount_usd: u64) -> bool {
    amount_usd != 0 && records.len() < u64::MAX
}

/// The reply of a send: the new transfer's id, or 0 when the send is refused.
pub open spec fn send_reply(records: Seq<RecordView>, amount_usd: u64, drawn_id: u64) -> u64 {
    if send_accepted(records, amount_usd) {
        assigned_id(records, drawn_id)
    } else {
        0
    }
}

/// The record that a taken send appends.
pub open spec fn pending_record(
    sender_name: Seq<char>,
    sender_id: Seq<char>,
    sender_country: Seq<char>,
    recipient_name: Seq<char>,
    recipient_id: Seq<char>,
    recipient_phone: Seq<char>,
    amount_usd: u64,
    amount_idr: u64,
    message: Seq<char>,
    transfer_id: u64,
    sent_at: u64,
) -> RecordView {
    RecordView {
        transfer_id,
        sender_name,
        sender_id,
        sender_country,
        recipient_name,
        recipient_id,
        recipient_phone,
        amount_usd,
        amount_idr,
        message,
        status: TransferStatus::Pending,
        sent_at,
        claimed_at: 0,
    }
}

/// The records after a send whose host drew `drawn_id` at ledger time `sent_at`: a taken
/// send appends a pending record under the assigned id; a refused one changes nothing.
pub open spec fn after_send(
    records: Seq<RecordView>,
    sender_name: Seq<char>,
    sender_id: Seq<char>,
    sender_country: Seq<char>,
    recipient_name: Seq<char>,
    recipient_id: Seq<char>,
    recipient_phone: Seq<char>,
    amount_usd: u64,
    amount_idr: u64,
    message: Seq<char>,
    drawn_id: u64,
    sent_at: u64,
) -> Seq<RecordView> {
    if send_accepted(records, amount_usd) {
        records.push(
            pending_record(
                sender_name,
                sender_id,
                sender_country,
                recipient_name,
                recipient_id,
                recipient_phone,
                amount_usd,
                amount_idr,
                message,
                assigned_id(records, drawn_id),
                sent_at,
            ),
        )
    } else {
        records
    }
}

/// What a claim of transfer `id` by the holder of `recipient_id` comes to. Only the first
/// record with that id counts; its recipient is checked before its status.
pub open spec fn claim_outcome(records: Seq<RecordView>, id: u64, recipient_id: Seq<char>) -> ClaimOutcome {
    let i = find_transfer(records, id);
    if i < 0 {
        ClaimOutcome::NotFound
    } else if records[i].recipient_id != recipient_id {
        ClaimOutcome::RecipientMismatch
    } else if records[i].status == TransferStatus::Claimed {
        ClaimOutcome::AlreadyClaimed
    } else if records[i].status == TransferStatus::Cancelled {
        ClaimOutcome::AlreadyCancelled
    } else {
        ClaimOutcome::Claimed
    }
}

/// The records after a claim at ledger time `now`: a successful claim marks the first
/// record with the id claimed at `now`; any other claim changes nothing.
pub open spec fn after_claim(records: Seq<RecordView>, id: u64, recipient_id: Seq<char>, now: u64) -> Seq<RecordView> {
    if claim_outcome(records, id, recipient_id) == ClaimOutcome::Claimed {
        let i = find_transfer(records, id);
        records.update(i, settled(records[i], TransferStatus::Claimed, now))
    } else {
        records
    }
}

/// What a cancellation of transfer `id` by the holder of `sender_id` comes to. Only the
/// first record with that id counts; its sender is checked before its status.
pub open spec fn cancel_outcome(records: Seq<RecordView>, id: u64, sender_id: Seq<char>) -> CancelOutcome {
    let i = find_transfer(records, id);
    if i < 0 {
        CancelOutcome::NotFound
    } else if records[i].sender_id != sender_id {
        CancelOutcome::SenderMismatch
    } else if records[i].status != TransferStatus::Pending {
        CancelOutcome::NotPending
    } else {
        CancelOutcome::Cancelled
    }
}

/// The records after a cancellation: a successful one marks the first record with the id
/// cancelled, with claim time 0; any other cancellation changes nothing.
pub open spec fn after_cancel(records: Seq<RecordView>, id: u64, sender_id: Seq<char>) -> Seq<RecordView> {
    if cancel_outcome(records, id, sender_id) == CancelOutcome::Cancelled {
        let i = find_transfer(records, id);
        records.update(i, settled(records[i], TransferStatus::Cancelled, 0))
    } else {
        records
    }
}

/// The records sent by the holder of `sender_id`, in their order.
pub open spec fn by_sender(records: Seq<RecordView>, sender_id: Seq<char>) -> Seq<RecordView> {
    records.filter(|r: RecordView| r.sender_id == sender_id)
}

/// The records sent to the holder of `recipient_id`, in their order.
pub open spec fn by_recipient(records: Seq<RecordView>, recipient_id: Seq<char>) -> Seq<RecordView> {
    records.filter(|r: RecordView| r.recipient_id == recipient_id)
}

/// The first record with transfer id `id`, alone, or nothing when there is none.
pub open spec fn by_id(records: Seq<RecordView>, id: u64) -> Seq<RecordView> {
    let i = find_transfer(records, id);
    if i < 0 {
        Seq::empty()
    } else {
        seq![records[i]]
    }
}

/// Each record on its own is sound: its transfer id is not 0, its amount in US cents is
/// positive, and it has claim time 0 unless it is claimed.
pub open spec fn records_sound(records: Seq<RecordView>) -> bool {
    forall|i: int|
        #![trigger records[i]]
        0 <= i < records.len() ==> {
            &&& records[i].transfer_id != 0
            &&& records[i].amount_usd > 0
            &&& records[i].status != TransferStatus::Claimed ==> records[i].claimed_at == 0
        }
}

/// No two records share a transfer id.
pub open spec fn ids_distinct(records: Seq<RecordView>) -> bool {
    forall|i: int, j: int|
        #![trigger records[i].transfer_id, records[j].transfer_id]
        0 <= i < j < records.len() ==> records[i].transfer_id != records[j].transfer_id
}

/// What every sequence of records built by the contract's operations satisfies: each
/// record is sound and transfer ids are distinct.
pub open spec fn well_formed(records: Seq<RecordView>) -> bool {
    records_sound(records) && ids_distinct(records)
}

/// How one record may change under one operation: not at all, or, while pending, by
/// leaving the pending state with nothing but its status and claim time changed.
pub open spec fn record_step(before: RecordView, after: RecordView) -> bool {
    ||| after == before
    ||| {
        &&& before.status == TransferStatus::Pending
        &&& after.status != TransferStatus::Pending
        &&& after == settled(before, after.status, after.claimed_at)
    }
}

/// How the ledger may change under one operation: no record is removed or moved, and
/// each record changes at most as [`record_step`] allows.
pub open spec fn keeps_history(before: Seq<RecordView>, after: Seq<RecordView>) -> bool {
    &&& before.len() <= after.len()
    &&& forall|i: int| 0 <= i < before.len() ==> #[trigger] record_step(before[i], after[i])
}

/// One call of an operation that changes the ledger, with what the host handed it.
pub enum LedgerCall {
    /// A send, with the id the host drew and the ledger time.
    Send {
        sender_name: Seq<char>,
        sender_id: Seq<char>,
        sender_country: Seq<char>,
        recipient_name: Seq<char>,
        recipient_id: Seq<char>,
        recipient_phone: Seq<char>,
        amount_usd: u64,
        amount_idr: u64,
        message: Seq<char>,
        drawn_id: u64,
        sent_at: u64,
    },
    /// A claim, with the ledger time.
    Claim { transfer_id: u64, recipient_id: Seq<char>, now: u64 },
    /// A cancellation.
    Cancel { transfer_id: u64, sender_id: Seq<char> },
}

/// The records after one call.
pub open spec fn after_call(records: Seq<RecordView>, call: LedgerCall) -> Seq<RecordView> {
    match call {
        LedgerCall::Send {
            sender_name,
            sender_id,
            sender_country,
            recipient_name,
            recipient_id,
            recipient_phone,
            amount_usd,
            amount_idr,
            message,
            drawn_id,
            sent_at,
        } => after_send(
            records,
            sender_name,
            sender_id,
            sender_country,
            recipient_name,
            recipient_id,
            recipient_phone,
            amount_usd,
            amount_idr,
            message,
            drawn_id,
            sent_at,
        ),
        LedgerCall::Claim { transfer_id, recipient_id, now } => after_claim(
            records,
            transfer_id,
            recipient_id,
            now,
        ),
        LedgerCall::Cancel { transfer_id, sender_id } => after_cancel(
            records,
            transfer_id,
            sender_id,
        ),
    }
}

/// The records after the calls `calls`, made in their order.
pub open spec fn after_calls(records: Seq<RecordView>, calls: Seq<LedgerCall>) -> Seq<RecordView>
    decreases calls.len(),
{
    if calls.len() == 0 {
        records
    } else {
        after_call(after_calls(records, calls.drop_last()), calls.last())
    }
}

/// The replies of the taken sends among the calls `calls`, in their order.
pub open spec fn accepted_ids(records: Seq<RecordView>, calls: Seq<LedgerCall>) -> Seq<u64>
    decreases calls.len(),
{
    if calls.len() == 0 {
        Seq::empty()
    } else {
        let before = after_calls(records, calls.drop_last());
        let earlier = accepted_ids(records, calls.drop_last());
        match calls.last() {
            LedgerCall::Send { amount_usd, drawn_id, .. } => if send_accepted(before, amount_usd) {
                earlier.push(assigned_id(before, drawn_id))
            } else {
                earlier
            },
            _ => earlier,
        }
    }
}

} // verus!
