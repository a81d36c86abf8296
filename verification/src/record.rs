use vstd::prelude::*;

verus! {

/// Where a transfer stands.
#[derive(Clone, Copy, Debug, PartialEq, Eq, Structural)]
pub enum TransferStatus {
    /// The money was sent and the family has not claimed it yet.
    Pending,
    /// The family claimed the money.
    Claimed,
    /// The sender cancelled the transfer.
    Cancelled,
}

/// One transfer from a migrant worker abroad to a family member at home.
pub struct RemittanceRecord {
    /// The transfer's id, handed back to the sender as proof.
    pub transfer_id: u64,
    /// Name of the worker who sends the money.
    pub sender_name: String,
    /// Identity number of the sender.
    pub sender_id: String,
    /// Country in which the sender works.
    pub sender_country: String,
    /// Name of the family member who receives the money.
    pub recipient_name: String,
    /// Identity number of the recipient.
    pub recipient_id: String,
    /// Phone number of the recipient.
    pub recipient_phone: String,
    /// Amount in US cents (10000 is $100.00).
    pub amount_usd: u64,
    /// Estimated amount in rupiah.
    pub amount_idr: u64,
    /// Message from the sender to the family.
    pub message: String,
    /// Where the transfer stands.
    pub status: TransferStatus,
    /// Ledger time at which the money was sent.
    pub sent_at: u64,
    /// Ledger time at which the money was claimed; 0 while it is not claimed.
    pub claimed_at: u64,
}

/// The mathematical value of a [`RemittanceRecord`]: its text fields as character sequences.
pub struct RecordView {
    pub transfer_id: u64,
    pub sender_name: Seq<char>,
    pub sender_id: Seq<char>,
    pub sender_country: Seq<char>,
    pub recipient_name: Seq<char>,
    pub recipient_id: Seq<char>,
    pub recipient_phone: Seq<char>,
    pub amount_usd: u64,
    pub amount_idr: u64,
    pub message: Seq<char>,
    pub status: TransferStatus,
    pub sent_at: u64,
    pub claimed_at: u64,
}

impl View for RemittanceRecord {
    type V = RecordView;

    open spec fn view(&self) -> RecordView {
        RecordView {
            transfer_id: self.transfer_id,
            sender_name: self.sender_name@,
            sender_id: self.sender_id@,
            sender_country: self.sender_country@,
            recipient_name: self.recipient_name@,
            recipient_id: self.recipient_id@,
            recipient_phone: self.recipient_phone@,
            amount_usd: self.amount_usd,
            amount_idr: self.amount_idr,
            message: self.message@,
            status: self.status,
            sent_at: self.sent_at,
            claimed_at: self.claimed_at,
        }
    }
}

/// The views of a sequence of records, in the same order.
pub open spec fn record_views(records: Seq<RemittanceRecord>) -> Seq<RecordView> {
    records.map_values(|r: RemittanceRecord| r@)
}

/// The record `r` with its status set to `status` and its claim time set to `claimed_at`;
/// every other field is kept.
pub open spec fn settled(r: RecordView, status: TransferStatus, claimed_at: u64) -> RecordView {
    RecordView { status, claimed_at, ..r }
}

impl RemittanceRecord {
    /// A copy of the record with its status set to `status` and its claim time set to
    /// `claimed_at`.
    pub fn with_status(&self, status: TransferStatus, claimed_at: u64) -> (r: RemittanceRecord)
        ensures
            r@ == settled(self@, status, claimed_at),
    {
        RemittanceRecord {
            transfer_id: self.transfer_id,
            sender_name: self.sender_name.clone(),
            sender_id: self.sender_id.clone(),
            sender_country: self.sender_country.clone(),
            recipient_name: self.recipient_name.clone(),
            recipient_id: self.recipient_id.clone(),
            recipient_phone: self.recipient_phone.clone(),
            amount_usd: self.amount_usd,
            amount_idr: self.amount_idr,
            message: self.message.clone(),
            status,
            sent_at: self.sent_at,
            claimed_at,
        }
    }
}

impl Clone for RemittanceRecord {
    fn clone(&self) -> (r: Self)
        ensures
            r@ == self@,
    {
        self.with_status(self.status, self.claimed_at)
    }
}

} // verus!
