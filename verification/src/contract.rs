use vstd::prelude::*;

use crate::laws::{
    lemma_assigned_id, lemma_cancel_keeps, lemma_claim_keeps, lemma_find_stored,
    lemma_first_free_unique, lemma_send_keeps, lemma_stored_ids_bound,
};
use crate::model::{
    after_cancel, after_claim, after_send, assigned_id, by_id, by_recipient, by_sender,
    cancel_outcome, claim_outcome, find_from, find_transfer, is_first_free, is_fresh,
    keeps_history, send_accepted, send_reply, stored, well_formed, CancelOutcome, ClaimOutcome,
};
use crate::record::{RecordView, RemittanceRecord, TransferStatus, record_views, settled};

verus! {

/// The contract's ledger of transfers, in the order in which they were sent.
pub struct RemittanceContract {
    records: Vec<RemittanceRecord>,
}

impl View for RemittanceContract {
    type V = Seq<RecordView>;

    closed spec fn view(&self) -> Seq<RecordView> {
        record_views(self.records@)
    }
}

impl RemittanceContract {
    /// A ledger with no transfer in it.
    pub fn new() -> (ledger: Self)
        ensures
            ledger@ == Seq::<RecordView>::empty(),
    {
        let ledger = RemittanceContract { records: Vec::new() };
        assert(ledger@ =~= Seq::<RecordView>::empty());
        ledger
    }

    /// A ledger holding `records`, in their order (as they were stored).
    pub fn from_records(records: Vec<RemittanceRecord>) -> (ledger: Self)
        ensures
            ledger@ == record_views(records@),
    {
        RemittanceContract { records }
    }

    /// The number of transfers in the ledger.
    pub fn len(&self) -> (n: usize)
        ensures
            n == self@.len(),
    {
        self.records.len()
    }

    /// The index of the first transfer with id `transfer_id`, if there is one.
    fn find(&self, transfer_id: u64) -> (found: Option<usize>)
        ensures
            match found {
                Some(i) => i < self@.len() && i == find_transfer(self@, transfer_id),
                None => find_transfer(self@, transfer_id) == -1,
            },
    {
        let mut i: usize = 0;
        while i < self.records.len()
            invariant
                i <= self.records.len(),
                self@.len() == self.records.len(),
                find_transfer(self@, transfer_id) == find_from(self@, transfer_id, i as int),
            decreases self.records.len() - i,
        {
            assert(self@[i as int].transfer_id == self.records[i as int].transfer_id);
            if self.records[i].transfer_id == transfer_id {
                return Some(i);
            }
            i += 1;
        }
        None
    }

    /// Whether some transfer has the id `id`.
    fn holds_id(&self, id: u64) -> (held: bool)
        ensures
            held == stored(self@, id),
    {
        proof {
            lemma_find_stored(self@, id);
        }
        match self.find(id) {
            Some(_) => true,
            None => false,
        }
    }

    /// The smallest id that no transfer has and that is not 0.
    fn first_free_id(&self) -> (id: u64)
        requires
            self@.len() < u64::MAX,
        ensures
            is_first_free(self@, id),
    {
        let mut candidate: u64 = 1;
        while self.holds_id(candidate)
            invariant
                self@.len() < u64::MAX,
                1 <= candidate <= self@.len() + 1,
                forall|k: u64| 0 < k < candidate ==> #[trigger] stored(self@, k),
            decreases self@.len() + 1 - candidate,
        {
            proof {
                if candidate == self@.len() + 1 {
                    assert forall|k: u64| 1 <= k <= candidate implies #[trigger] stored(
                        self@,
                        k,
                    ) by {}
                    lemma_stored_ids_bound(self@, candidate);
                }
            }
            candidate = candidate + 1;
        }
        candidate
    }

    /// Sends a transfer at ledger time `sent_at`; the host drew `drawn_id` for it. A
    /// transfer of no US cents is refused: the reply is 0 and the ledger is unchanged.
    /// Otherwise a pending record is appended and the reply is its id: the drawn id when
    /// it is not 0 and no transfer has it yet, else the smallest such id. A ledger of
    /// `u64::MAX` transfers or more, which cannot be sure of a free id, refuses too.
    pub fn send_money(
        &mut self,
        sender_name: String,
        sender_id: String,
        sender_country: String,
        recipient_name: String,
        recipient_id: String,
        recipient_phone: String,
        amount_usd: u64,
        amount_idr: u64,
        message: String,
        drawn_id: u64,
        sent_at: u64,
    ) -> (reply: u64)
        ensures
            reply == send_reply(old(self)@, amount_usd, drawn_id),
            final(self)@ == after_send(
                old(self)@,
                sender_name@,
                sender_id@,
                sender_country@,
                recipient_name@,
                recipient_id@,
                recipient_phone@,
                amount_usd,
                amount_idr,
                message@,
                drawn_id,
                sent_at,
            ),
            (reply == 0) == !send_accepted(old(self)@, amount_usd),
            send_accepted(old(self)@, amount_usd) ==> is_fresh(old(self)@, reply),
            well_formed(old(self)@) ==> well_formed(final(self)@),
            keeps_history(old(self)@, final(self)@),
    {
        proof {
            lemma_send_keeps(
                self@,
                sender_name@,
                sender_id@,
                sender_country@,
                recipient_name@,
                recipient_id@,
                recipient_phone@,
                amount_usd,
                amount_idr,
                message@,
                drawn_id,
                sent_at,
            );
        }
        if amount_usd == 0 || self.records.len() as u64 == u64::MAX {
            return 0;
        }
        let transfer_id = if drawn_id != 0 && !self.holds_id(drawn_id) {
            drawn_id
        } else {
            let id = self.first_free_id();
            proof {
                lemma_assigned_id(self@, drawn_id);
                lemma_first_free_unique(self@, id, assigned_id(self@, drawn_id));
            }
            id
        };
        let record = RemittanceRecord {
            transfer_id,
            sender_name,
            sender_id,
            sender_country,
            recipient_name,
            recipient_id,
            recipient_phone,
            amount_usd,
            amount_idr,
            message,
            status: TransferStatus::Pending,
            sent_at,
            claimed_at: 0,
        };
        let ghost before = self@;
        self.records.push(record);
        assert(self@ =~= before.push(record@));
        transfer_id
    }

    /// What a claim of transfer `transfer_id` by the holder of `recipient_id` comes to,
    /// and, when it succeeds, the index of the transfer to mark.
    fn check_claim(&self, transfer_id: u64, recipient_id: &String) -> (checked: (ClaimOutcome, usize))
        ensures
            checked.0 == claim_outcome(self@, transfer_id, recipient_id@),
            checked.0 == ClaimOutcome::Claimed ==> checked.1 < self@.len() && checked.1
                == find_transfer(self@, transfer_id),
    {
        match self.find(transfer_id) {
            None => (ClaimOutcome::NotFound, 0),
            Some(i) => {
                assert(self@[i as int] == self.records[i as int]@);
                if !(self.records[i].recipient_id == *recipient_id) {
                    (ClaimOutcome::RecipientMismatch, i)
                } else if self.records[i].status == TransferStatus::Claimed {
                    (ClaimOutcome::AlreadyClaimed, i)
                } else if self.records[i].status == TransferStatus::Cancelled {
                    (ClaimOutcome::AlreadyCancelled, i)
                } else {
                    (ClaimOutcome::Claimed, i)
                }
            },
        }
    }

    /// What a cancellation of transfer `transfer_id` by the holder of `sender_id` comes
    /// to, and, when it succeeds, the index of the transfer to mark.
    fn check_cancel(&self, transfer_id: u64, sender_id: &String) -> (checked: (CancelOutcome, usize))
        ensures
            checked.0 == cancel_outcome(self@, transfer_id, sender_id@),
            checked.0 == CancelOutcome::Cancelled ==> checked.1 < self@.len() && checked.1
                == find_transfer(self@, transfer_id),
    {
        match self.find(transfer_id) {
            None => (CancelOutcome::NotFound, 0),
            Some(i) => {
                assert(self@[i as int] == self.records[i as int]@);
                if !(self.records[i].sender_id == *sender_id) {
                    (CancelOutcome::SenderMismatch, i)
                } else if self.records[i].status != TransferStatus::Pending {
                    (CancelOutcome::NotPending, i)
                } else {
                    (CancelOutcome::Cancelled, i)
                }
            },
        }
    }

    /// Gives the transfer at index `i` the status `status` and the claim time `claimed_at`.
    fn mark(&mut self, i: usize, status: TransferStatus, claimed_at: u64)
        requires
            i < old(self)@.len(),
        ensures
            final(self)@ == old(self)@.update(
                i as int,
                settled(old(self)@[i as int], status, claimed_at),
            ),
    {
        let ghost before = self@;
        assert(before[i as int] == self.records[i as int]@);
        let updated = self.records[i].with_status(status, claimed_at);
        self.records.set(i, updated);
        assert(self@ =~= before.update(i as int, updated@));
    }

    /// The holder of `recipient_id` claims transfer `transfer_id` at ledger time `now`.
    /// Only the first transfer with that id counts. The claim succeeds when that transfer
    /// is pending and was sent to `recipient_id`; it is then marked claimed at `now`.
    /// A failed claim changes nothing.
    pub fn claim_money(&mut self, transfer_id: u64, recipient_id: String, now: u64) -> (outcome:
        ClaimOutcome)
        ensures
            outcome == claim_outcome(old(self)@, transfer_id, recipient_id@),
            final(self)@ == after_claim(old(self)@, transfer_id, recipient_id@, now),
            well_formed(old(self)@) ==> well_formed(final(self)@),
            keeps_history(old(self)@, final(self)@),
    {
        proof {
            lemma_claim_keeps(self@, transfer_id, recipient_id@, now);
        }
        let (outcome, i) = self.check_claim(transfer_id, &recipient_id);
        if outcome == ClaimOutcome::Claimed {
            self.mark(i, TransferStatus::Claimed, now);
        }
        outcome
    }

    /// The holder of `sender_id` cancels transfer `transfer_id`. Only the first transfer
    /// with that id counts. The cancellation succeeds when that transfer is pending and was
    /// sent by `sender_id`; it is then marked cancelled, with claim time 0. A failed
    /// cancellation changes nothing.
    pub fn cancel_transfer(&mut self, transfer_id: u64, sender_id: String) -> (outcome:
        CancelOutcome)
        ensures
            outcome == cancel_outcome(old(self)@, transfer_id, sender_id@),
            final(self)@ == after_cancel(old(self)@, transfer_id, sender_id@),
            well_formed(old(self)@) ==> well_formed(final(self)@),
            keeps_history(old(self)@, final(self)@),
    {
        proof {
            lemma_cancel_keeps(self@, transfer_id, sender_id@);
        }
        let (outcome, i) = self.check_cancel(transfer_id, &sender_id);
        if outcome == CancelOutcome::Cancelled {
            self.mark(i, TransferStatus::Cancelled, 0);
        }
        outcome
    }

    /// The transfers sent by the holder of `sender_id`, in the order in which they were sent.
    pub fn get_transfers_by_sender(&self, sender_id: String) -> (found: Vec<RemittanceRecord>)
        ensures
            record_views(found@) == by_sender(self@, sender_id@),
    {
        let mut found: Vec<RemittanceRecord> = Vec::new();
        let mut i: usize = 0;
        while i < self.records.len()
            invariant
                i <= self.records.len(),
                self@.len() == self.records.len(),
                record_views(found@) == by_sender(self@.take(i as int), sender_id@),
            decreases self.records.len() - i,
        {
            let ghost before = found@;
            proof {
                assert(self@.take(i + 1) =~= self@.take(i as int).push(self@[i as int]));
                self@.take(i as int).lemma_filter_push(
                    self@[i as int],
                    |r: RecordView| r.sender_id == sender_id@,
                );
            }
            assert(self@[i as int] == self.records[i as int]@);
            if self.records[i].sender_id == sender_id {
                found.push(self.records[i].clone());
                assert(record_views(found@) =~= record_views(before).push(self@[i as int]));
            }
            i += 1;
        }
        assert(self@.take(i as int) =~= self@);
        found
    }

    /// The transfers sent to the holder of `recipient_id`, in the order in which they were
    /// sent.
    pub fn get_transfers_by_recipient(&self, recipient_id: String) -> (found: Vec<
        RemittanceRecord,
    >)
        ensures
            record_views(found@) == by_recipient(self@, recipient_id@),
    {
        let mut found: Vec<RemittanceRecord> = Vec::new();
        let mut i: usize = 0;
        while i < self.records.len()
            invariant
                i <= self.records.len(),
                self@.len() == self.records.len(),
                record_views(found@) == by_recipient(self@.take(i as int), recipient_id@),
            decreases self.records.len() - i,
        {
            let ghost before = found@;
            proof {
                assert(self@.take(i + 1) =~= self@.take(i as int).push(self@[i as int]));
                self@.take(i as int).lemma_filter_push(
                    self@[i as int],
                    |r: RecordView| r.recipient_id == recipient_id@,
                );
            }
            assert(self@[i as int] == self.records[i as int]@);
            if self.records[i].recipient_id == recipient_id {
                found.push(self.records[i].clone());
                assert(record_views(found@) =~= record_views(before).push(self@[i as int]));
            }
            i += 1;
        }
        assert(self@.take(i as int) =~= self@);
        found
    }

    /// The first transfer with id `transfer_id`, alone, or nothing when there is none.
    pub fn get_transfer_by_id(&self, transfer_id: u64) -> (found: Vec<RemittanceRecord>)
        ensures
            record_views(found@) == by_id(self@, transfer_id),
    {
        let mut found: Vec<RemittanceRecord> = Vec::new();
        match self.find(transfer_id) {
            None => {},
            Some(i) => {
                assert(self@[i as int] == self.records[i as int]@);
                found.push(self.records[i].clone());
            },
        }
        assert(record_views(found@) =~= by_id(self@, transfer_id));
        found
    }

    /// All transfers, in the order in which they were sent.
    pub fn get_all_transfers(&self) -> (all: Vec<RemittanceRecord>)
        ensures
            record_views(all@) == self@,
    {
        let mut all: Vec<RemittanceRecord> = Vec::new();
        let mut i: usize = 0;
        while i < self.records.len()
            invariant
                i <= self.records.len(),
                self@.len() == self.records.len(),
                record_views(all@) == self@.take(i as int),
            decreases self.records.len() - i,
        {
            let ghost before = all@;
            assert(self@[i as int] == self.records[i as int]@);
            all.push(self.records[i].clone());
            assert(record_views(all@) =~= record_views(before).push(self@[i as int]));
            assert(self@.take(i + 1) =~= self@.take(i as int).push(self@[i as int]));
            i += 1;
        }
        assert(self@.take(i as int) =~= self@);
        all
    }
}

} // verus!
