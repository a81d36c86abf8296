use vstd::prelude::*;

use crate::model::{
    accepted_ids, after_call, after_calls, after_cancel, after_claim, after_send, assigned_id,
    by_id, by_recipient, by_sender, cancel_outcome, claim_outcome, find_from, find_transfer,
    ids_distinct, is_first_free, is_fresh, keeps_history, records_sound, pending_record, record_step, send_accepted,
    send_reply, stored, well_formed, CancelOutcome, ClaimOutcome, LedgerCall,
};
use vstd::set_lib::{lemma_int_range, lemma_len_subset, set_int_range};
use crate::record::{RecordView, TransferStatus, settled};

verus! {

/// The lookup by transfer id finds the first record with that id: when it answers an
/// index, the record there has the id and no earlier record has it; when it answers -1,
/// no record has the id.
pub proof fn lemma_find_transfer(records: Seq<RecordView>, id: u64)
    ensures
        find_transfer(records, id) == -1 || 0 <= find_transfer(records, id) < records.len(),
        find_transfer(records, id) >= 0 ==> records[find_transfer(records, id)].transfer_id == id,
        forall|j: int|
            0 <= j < records.len() && (find_transfer(records, id) == -1 || j < find_transfer(
                records,
                id,
            )) ==> #[trigger] records[j].transfer_id != id,
{
    lemma_find_from(records, id, 0);
}

/// What [`lemma_find_transfer`] states, for the search that starts at `from`.
pub proof fn lemma_find_from(records: Seq<RecordView>, id: u64, from: int)
    requires
        0 <= from,
    ensures
        find_from(records, id, from) == -1 || from <= find_from(records, id, from) < records.len(),
        find_from(records, id, from) >= 0 ==> records[find_from(records, id, from)].transfer_id
            == id,
        forall|j: int|
            from <= j < records.len() && (find_from(records, id, from) == -1 || j < find_from(
                records,
                id,
                from,
            )) ==> #[trigger] records[j].transfer_id != id,
    decreases records.len() - from,
{
    if from < records.len() && records[from].transfer_id != id {
        lemma_find_from(records, id, from + 1);
    }
}

/// The search by transfer id looks at nothing but the transfer ids.
pub proof fn lemma_find_same_ids(a: Seq<RecordView>, b: Seq<RecordView>, id: u64, from: int)
    requires
        a.len() == b.len(),
        forall|i: int| 0 <= i < a.len() ==> #[trigger] a[i].transfer_id == b[i].transfer_id,
    ensures
        find_from(a, id, from) == find_from(b, id, from),
    decreases a.len() - from,
{
    if 0 <= from < a.len() && a[from].transfer_id != id {
        lemma_find_same_ids(a, b, id, from + 1);
    }
}

/// Replacing one record by one with the same transfer id leaves every search by id as it was.
pub proof fn lemma_find_after_update(records: Seq<RecordView>, i: int, r: RecordView, id: u64)
    requires
        0 <= i < records.len(),
        r.transfer_id == records[i].transfer_id,
    ensures
        find_transfer(records.update(i, r), id) == find_transfer(records, id),
{
    let updated = records.update(i, r);
    assert forall|j: int| 0 <= j < records.len() implies #[trigger] updated[j].transfer_id
        == records[j].transfer_id by {}
    lemma_find_same_ids(updated, records, id, 0);
}

/// Appending a record leaves the first match of every id that was already there, and
/// makes the new record the first match of its id when no earlier record had it.
pub proof fn lemma_find_after_push(records: Seq<RecordView>, r: RecordView, id: u64, from: int)
    requires
        0 <= from <= records.len(),
    ensures
        find_from(records.push(r), id, from) == if find_from(records, id, from) >= 0 {
            find_from(records, id, from)
        } else if r.transfer_id == id {
            records.len() as int
        } else {
            -1
        },
    decreases records.len() - from,
{
    let pushed = records.push(r);
    if from < records.len() {
        assert(pushed[from] == records[from]);
        if records[from].transfer_id != id {
            lemma_find_after_push(records, r, id, from + 1);
        }
    } else {
        assert(pushed[from] == r);
        if r.transfer_id != id {
            assert(find_from(pushed, id, from + 1) == -1);
        }
    }
}

/// The lookup by transfer id answers -1 exactly when no record has the id.
pub proof fn lemma_find_stored(records: Seq<RecordView>, id: u64)
    ensures
        (find_transfer(records, id) == -1) == !stored(records, id),
{
    lemma_find_transfer(records, id);
    if find_transfer(records, id) >= 0 {
        assert(records[find_transfer(records, id)].transfer_id == id);
    }
}

/// Pigeonhole: when every id from 1 to `n` is held by some record, there are at least
/// `n` records.
pub proof fn lemma_stored_ids_bound(records: Seq<RecordView>, n: u64)
    requires
        forall|k: u64| 1 <= k <= n ==> #[trigger] stored(records, k),
    ensures
        n <= records.len(),
{
    broadcast use vstd::seq_lib::seq_to_set_is_finite;

    let ids = records.map_values(|r: RecordView| r.transfer_id as int);
    let range = set_int_range(1, n + 1);
    lemma_int_range(1, n + 1);
    assert forall|k: int| range.contains(k) implies ids.to_set().contains(k) by {
        let ku = k as u64;
        assert(stored(records, ku));
        let j = choose|j: int| 0 <= j < records.len() && #[trigger] records[j].transfer_id == ku;
        assert(ids[j] == k);
    }
    ids.lemma_cardinality_of_set();
    lemma_len_subset(range, ids.to_set());
}

/// Below the largest size, a ledger always leaves some id free, and so a smallest one.
pub proof fn lemma_first_free_exists(records: Seq<RecordView>, c: u64)
    requires
        records.len() < u64::MAX,
        1 <= c <= records.len() + 1,
        forall|k: u64| 0 < k < c ==> #[trigger] stored(records, k),
    ensures
        exists|id: u64| is_first_free(records, id),
    decreases records.len() + 1 - c,
{
    if !stored(records, c) {
        assert(is_first_free(records, c));
    } else if c == records.len() + 1 {
        assert forall|k: u64| 1 <= k <= c implies #[trigger] stored(records, k) by {}
        lemma_stored_ids_bound(records, c);
    } else {
        assert forall|k: u64| 0 < k < c + 1 implies #[trigger] stored(records, k) by {}
        lemma_first_free_exists(records, (c + 1) as u64);
    }
}

/// There is only one smallest free id.
pub proof fn lemma_first_free_unique(records: Seq<RecordView>, a: u64, b: u64)
    requires
        is_first_free(records, a),
        is_first_free(records, b),
    ensures
        a == b,
{
    if a < b {
        assert(stored(records, a));
    } else if b < a {
        assert(stored(records, b));
    }
}

/// The id that a taken send gives its transfer can name a new transfer; it is the drawn
/// id when that one can, and the smallest free id otherwise.
pub proof fn lemma_assigned_id(records: Seq<RecordView>, drawn_id: u64)
    requires
        records.len() < u64::MAX,
    ensures
        is_fresh(records, assigned_id(records, drawn_id)),
        is_fresh(records, drawn_id) ==> assigned_id(records, drawn_id) == drawn_id,
        !is_fresh(records, drawn_id) ==> is_first_free(records, assigned_id(records, drawn_id)),
{
    if !is_fresh(records, drawn_id) {
        lemma_first_free_exists(records, 1);
    }
}

/// Replacing record `i` by itself with a new status and claim time keeps the ledger well
/// formed (when the new status is not claimed, the claim time must be 0) and its history
/// intact (when the record was pending and the new status is not).
pub proof fn lemma_settle_keeps(
    records: Seq<RecordView>,
    i: int,
    status: crate::record::TransferStatus,
    claimed_at: u64,
)
    requires
        0 <= i < records.len(),
        records[i].status == TransferStatus::Pending,
        status != TransferStatus::Pending,
        status != TransferStatus::Claimed ==> claimed_at == 0,
    ensures
        ({
            let after = records.update(i, settled(records[i], status, claimed_at));
            &&& well_formed(records) ==> well_formed(after)
            &&& keeps_history(records, after)
        }),
{
    let after = records.update(i, settled(records[i], status, claimed_at));
    assert forall|j: int| 0 <= j < records.len() implies #[trigger] after[j].transfer_id
        == records[j].transfer_id by {}
    assert forall|j: int| 0 <= j < records.len() implies #[trigger] record_step(
        records[j],
        after[j],
    ) by {}
    if well_formed(records) {
        assert forall|j: int| #![trigger after[j]] 0 <= j < after.len() implies {
            &&& after[j].transfer_id != 0
            &&& after[j].amount_usd > 0
            &&& after[j].status != TransferStatus::Claimed ==> after[j].claimed_at == 0
        } by {
            assert(records[j].transfer_id != 0);
        }
        assert(records_sound(after));
        assert forall|j: int, k: int| 0 <= j < k < after.len() implies #[trigger] after[j].transfer_id
            != #[trigger] after[k].transfer_id by {
            assert(records[j].transfer_id != records[k].transfer_id);
        }
        assert(ids_distinct(after));
    }
}

/// A claim keeps the ledger well formed and its history intact.
pub proof fn lemma_claim_keeps(records: Seq<RecordView>, id: u64, recipient_id: Seq<char>, now: u64)
    ensures
        well_formed(records) ==> well_formed(after_claim(records, id, recipient_id, now)),
        keeps_history(records, after_claim(records, id, recipient_id, now)),
{
    lemma_find_transfer(records, id);
    if claim_outcome(records, id, recipient_id) == ClaimOutcome::Claimed {
        lemma_settle_keeps(records, find_transfer(records, id), TransferStatus::Claimed, now);
    } else {
        assert forall|j: int| 0 <= j < records.len() implies #[trigger] record_step(
            records[j],
            records[j],
        ) by {}
    }
}

/// A cancellation keeps the ledger well formed and its history intact.
pub proof fn lemma_cancel_keeps(records: Seq<RecordView>, id: u64, sender_id: Seq<char>)
    ensures
        well_formed(records) ==> well_formed(after_cancel(records, id, sender_id)),
        keeps_history(records, after_cancel(records, id, sender_id)),
{
    lemma_find_transfer(records, id);
    if cancel_outcome(records, id, sender_id) == CancelOutcome::Cancelled {
        lemma_settle_keeps(records, find_transfer(records, id), TransferStatus::Cancelled, 0);
    } else {
        assert forall|j: int| 0 <= j < records.len() implies #[trigger] record_step(
            records[j],
            records[j],
        ) by {}
    }
}

/// Appending a pending record with a positive amount under an id that can name a new
/// transfer keeps the ledger well formed and its history intact.
pub proof fn lemma_push_keeps(records: Seq<RecordView>, r: RecordView)
    requires
        is_fresh(records, r.transfer_id),
        r.amount_usd > 0,
        r.status == TransferStatus::Pending,
        r.claimed_at == 0,
    ensures
        well_formed(records) ==> well_formed(records.push(r)),
        keeps_history(records, records.push(r)),
{
    let after = records.push(r);
    assert forall|j: int| 0 <= j < records.len() implies #[trigger] record_step(
        records[j],
        after[j],
    ) by {
        assert(after[j] == records[j]);
    }
    if well_formed(records) {
        assert forall|j: int| #![trigger after[j]] 0 <= j < after.len() implies {
            &&& after[j].transfer_id != 0
            &&& after[j].amount_usd > 0
            &&& after[j].status != TransferStatus::Claimed ==> after[j].claimed_at == 0
        } by {
            if j < records.len() {
                assert(after[j] == records[j]);
            }
        }
        assert forall|j: int, k: int| 0 <= j < k < after.len() implies #[trigger] after[j].transfer_id
            != #[trigger] after[k].transfer_id by {
            assert(after[j] == records[j]);
            if k == records.len() {
                assert(after[k] == r);
                if records[j].transfer_id == r.transfer_id {
                    assert(stored(records, r.transfer_id));
                }
            } else {
                assert(after[k] == records[k]);
            }
        }
        assert(records_sound(after));
        assert(ids_distinct(after));
    }
}

/// A send keeps the ledger well formed and its history intact. When it is taken, its
/// reply is an id that no earlier record has and that is not 0; when it is refused, its
/// reply is 0.
pub proof fn lemma_send_keeps(
    records: Seq<RecordView>,
    sender_name: Seq<char>,
    sender_id: Seq<char>,
    sender_country: Seq<char>,
    recipient_name: Seq<char>,
    recipient_id: Seq<char>,
    recipient_phone: Seq<char>,
    amount_usd: u64,
    amount_idr: u64,
    message: Seq<char>,
    drawn_id: u64,
    sent_at: u64,
)
    ensures
        ({
            let after = after_send(
                records,
                sender_name,
                sender_id,
                sender_country,
                recipient_name,
                recipient_id,
                recipient_phone,
                amount_usd,
                amount_idr,
                message,
                drawn_id,
                sent_at,
            );
            &&& well_formed(records) ==> well_formed(after)
            &&& keeps_history(records, after)
            &&& (send_reply(records, amount_usd, drawn_id) == 0) == !send_accepted(records, amount_usd)
            &&& send_accepted(records, amount_usd) ==> is_fresh(
                records,
                send_reply(records, amount_usd, drawn_id),
            )
        }),
{
    if send_accepted(records, amount_usd) {
        lemma_assigned_id(records, drawn_id);
        lemma_push_keeps(
            records,
            pending_record(
                sender_name,
                sender_id,
                sender_country,
                recipient_name,
                recipient_id,
                recipient_phone,
                amount_usd,
                amount_idr,
                message,
                assigned_id(records, drawn_id),
                sent_at,
            ),
        );
    } else {
        assert forall|j: int| 0 <= j < records.len() implies #[trigger] record_step(
            records[j],
            records[j],
        ) by {}
    }
}

/// Every send reply tells a refused send from a taken one: it is 0 exactly when the send
/// is refused, and a taken send's reply is an id that no stored record has.
pub proof fn law_send_reply(records: Seq<RecordView>, amount_usd: u64, drawn_id: u64)
    ensures
        (send_reply(records, amount_usd, drawn_id) == 0) == !send_accepted(records, amount_usd),
        send_accepted(records, amount_usd) ==> forall|j: int|
            0 <= j < records.len() ==> #[trigger] records[j].transfer_id != send_reply(
                records,
                amount_usd,
                drawn_id,
            ),
{
    if send_accepted(records, amount_usd) {
        lemma_assigned_id(records, drawn_id);
        let id = send_reply(records, amount_usd, drawn_id);
        assert forall|j: int| 0 <= j < records.len() implies #[trigger] records[j].transfer_id
            != id by {
            if records[j].transfer_id == id {
                assert(stored(records, id));
            }
        }
    }
}

/// Read after write: after a taken send, the lookup by the send's reply gives back
/// exactly the record that was sent.
pub proof fn law_send_then_lookup(
    records: Seq<RecordView>,
    sender_name: Seq<char>,
    sender_id: Seq<char>,
    sender_country: Seq<char>,
    recipient_name: Seq<char>,
    recipient_id: Seq<char>,
    recipient_phone: Seq<char>,
    amount_usd: u64,
    amount_idr: u64,
    message: Seq<char>,
    drawn_id: u64,
    sent_at: u64,
)
    requires
        send_accepted(records, amount_usd),
    ensures
        ({
            let id = send_reply(records, amount_usd, drawn_id);
            by_id(
                after_send(
                    records,
                    sender_name,
                    sender_id,
                    sender_country,
                    recipient_name,
                    recipient_id,
                    recipient_phone,
                    amount_usd,
                    amount_idr,
                    message,
                    drawn_id,
                    sent_at,
                ),
                id,
            ) == seq![
                pending_record(
                    sender_name,
                    sender_id,
                    sender_country,
                    recipient_name,
                    recipient_id,
                    recipient_phone,
                    amount_usd,
                    amount_idr,
                    message,
                    id,
                    sent_at,
                ),
            ]
        }),
{
    let id = send_reply(records, amount_usd, drawn_id);
    let r = pending_record(
        sender_name,
        sender_id,
        sender_country,
        recipient_name,
        recipient_id,
        recipient_phone,
        amount_usd,
        amount_idr,
        message,
        id,
        sent_at,
    );
    law_send_reply(records, amount_usd, drawn_id);
    lemma_find_transfer(records, id);
    lemma_find_after_push(records, r, id, 0);
    assert(records.push(r)[records.len() as int] == r);
}

/// Read after write for the history queries: a new record shows up, last, in the history
/// of its sender and in that of its recipient, and in no other.
pub proof fn law_push_then_histories(records: Seq<RecordView>, r: RecordView, party: Seq<char>)
    ensures
        by_sender(records.push(r), party) == if r.sender_id == party {
            by_sender(records, party).push(r)
        } else {
            by_sender(records, party)
        },
        by_recipient(records.push(r), party) == if r.recipient_id == party {
            by_recipient(records, party).push(r)
        } else {
            by_recipient(records, party)
        },
{
    records.lemma_filter_push(r, |x: RecordView| x.sender_id == party);
    records.lemma_filter_push(r, |x: RecordView| x.recipient_id == party);
}

/// A history holds exactly the stored records of its party: every record it returns is
/// stored and belongs to the party, and every stored record of the party is in it.
pub proof fn law_histories_exact(records: Seq<RecordView>, party: Seq<char>)
    ensures
        by_sender(records, party).len() <= records.len(),
        forall|k: int|
            0 <= k < by_sender(records, party).len() ==> (#[trigger] by_sender(records, party)[k]).sender_id
                == party && records.contains(by_sender(records, party)[k]),
        forall|j: int|
            0 <= j < records.len() && records[j].sender_id == party ==> by_sender(
                records,
                party,
            ).contains(#[trigger] records[j]),
        by_recipient(records, party).len() <= records.len(),
        forall|k: int|
            0 <= k < by_recipient(records, party).len() ==> (#[trigger] by_recipient(
                records,
                party,
            )[k]).recipient_id == party && records.contains(by_recipient(records, party)[k]),
        forall|j: int|
            0 <= j < records.len() && records[j].recipient_id == party ==> by_recipient(
                records,
                party,
            ).contains(#[trigger] records[j]),
{
    broadcast use vstd::seq_lib::group_filter_ensures;

    let of_sender = |x: RecordView| x.sender_id == party;
    let of_recipient = |x: RecordView| x.recipient_id == party;
    assert forall|k: int| 0 <= k < by_sender(records, party).len() implies (
    #[trigger] by_sender(records, party)[k]).sender_id == party && records.contains(
        by_sender(records, party)[k],
    ) by {
        let out = records.filter(of_sender);
        assert(out.contains(out[k]));
        records.lemma_filter_contains_rev(of_sender, out[k]);
    }
    assert forall|k: int| 0 <= k < by_recipient(records, party).len() implies (
    #[trigger] by_recipient(records, party)[k]).recipient_id == party && records.contains(
        by_recipient(records, party)[k],
    ) by {
        let out = records.filter(of_recipient);
        assert(out.contains(out[k]));
        records.lemma_filter_contains_rev(of_recipient, out[k]);
    }
}

/// A transfer is claimed at most once: after a successful claim, every further claim of
/// the same id fails, as already claimed when the recipient id matches, and changes nothing.
pub proof fn law_claim_once(
    records: Seq<RecordView>,
    id: u64,
    recipient_id: Seq<char>,
    now: u64,
    again_recipient_id: Seq<char>,
    again_now: u64,
)
    requires
        claim_outcome(records, id, recipient_id) == ClaimOutcome::Claimed,
    ensures
        ({
            let after = after_claim(records, id, recipient_id, now);
            &&& claim_outcome(after, id, again_recipient_id) == if again_recipient_id
                == recipient_id {
                ClaimOutcome::AlreadyClaimed
            } else {
                ClaimOutcome::RecipientMismatch
            }
            &&& after_claim(after, id, again_recipient_id, again_now) == after
        }),
{
    lemma_find_transfer(records, id);
    let i = find_transfer(records, id);
    lemma_find_after_update(records, i, settled(records[i], TransferStatus::Claimed, now), id);
}

/// A claimed transfer cannot be cancelled: a cancellation after a successful claim fails,
/// as not pending when the sender id matches, and changes nothing.
pub proof fn law_claimed_not_cancellable(
    records: Seq<RecordView>,
    id: u64,
    recipient_id: Seq<char>,
    now: u64,
    sender_id: Seq<char>,
)
    requires
        claim_outcome(records, id, recipient_id) == ClaimOutcome::Claimed,
    ensures
        ({
            let after = after_claim(records, id, recipient_id, now);
            &&& cancel_outcome(after, id, sender_id) == if sender_id == records[find_transfer(
                records,
                id,
            )].sender_id {
                CancelOutcome::NotPending
            } else {
                CancelOutcome::SenderMismatch
            }
            &&& after_cancel(after, id, sender_id) == after
        }),
{
    lemma_find_transfer(records, id);
    let i = find_transfer(records, id);
    lemma_find_after_update(records, i, settled(records[i], TransferStatus::Claimed, now), id);
}

/// A cancelled transfer cannot be claimed: a claim after a successful cancellation fails,
/// as cancelled when the recipient id matches, and changes nothing.
pub proof fn law_cancelled_not_claimable(
    records: Seq<RecordView>,
    id: u64,
    sender_id: Seq<char>,
    recipient_id: Seq<char>,
    now: u64,
)
    requires
        cancel_outcome(records, id, sender_id) == CancelOutcome::Cancelled,
    ensures
        ({
            let after = after_cancel(records, id, sender_id);
            &&& claim_outcome(after, id, recipient_id) == if recipient_id == records[find_transfer(
                records,
                id,
            )].recipient_id {
                ClaimOutcome::AlreadyCancelled
            } else {
                ClaimOutcome::RecipientMismatch
            }
            &&& after_claim(after, id, recipient_id, now) == after
        }),
{
    lemma_find_transfer(records, id);
    let i = find_transfer(records, id);
    lemma_find_after_update(records, i, settled(records[i], TransferStatus::Cancelled, 0), id);
}

/// A transfer is cancelled at most once: a further cancellation of the same id fails, as
/// not pending when the sender id matches, and changes nothing.
pub proof fn law_cancel_once(
    records: Seq<RecordView>,
    id: u64,
    sender_id: Seq<char>,
    again_sender_id: Seq<char>,
)
    requires
        cancel_outcome(records, id, sender_id) == CancelOutcome::Cancelled,
    ensures
        ({
            let after = after_cancel(records, id, sender_id);
            &&& cancel_outcome(after, id, again_sender_id) == if again_sender_id == sender_id {
                CancelOutcome::NotPending
            } else {
                CancelOutcome::SenderMismatch
            }
            &&& after_cancel(after, id, again_sender_id) == after
        }),
{
    lemma_find_transfer(records, id);
    let i = find_transfer(records, id);
    lemma_find_after_update(records, i, settled(records[i], TransferStatus::Cancelled, 0), id);
}

/// History is kept over any run of operations: when each step keeps it, so does the whole
/// run, so a record once claimed or cancelled never changes again and no record is lost.
pub proof fn law_history_transitive(a: Seq<RecordView>, b: Seq<RecordView>, c: Seq<RecordView>)
    requires
        keeps_history(a, b),
        keeps_history(b, c),
    ensures
        keeps_history(a, c),
{
    assert forall|i: int| 0 <= i < a.len() implies #[trigger] record_step(a[i], c[i]) by {
        assert(record_step(a[i], b[i]));
        assert(record_step(b[i], c[i]));
    }
}

/// A run of calls, from any ledger: the calls never remove or move a record and never
/// change a transfer id; the ledger grows by one record per taken send, whose id is that
/// send's reply, in the order of the sends; and a well-formed ledger stays well formed,
/// so transfer ids stay distinct and not 0.
pub proof fn law_run(records: Seq<RecordView>, calls: Seq<LedgerCall>)
    ensures
        ({
            let after = after_calls(records, calls);
            let ids = accepted_ids(records, calls);
            &&& after.len() == records.len() + ids.len()
            &&& forall|k: int| 0 <= k < records.len() ==> #[trigger] after[k].transfer_id
                == records[k].transfer_id
            &&& forall|k: int| 0 <= k < ids.len() ==> after[records.len() + k].transfer_id
                == #[trigger] ids[k]
            &&& keeps_history(records, after)
            &&& well_formed(records) ==> well_formed(after)
        }),
    decreases calls.len(),
{
    if calls.len() > 0 {
        let earlier = calls.drop_last();
        law_run(records, earlier);
        let before = after_calls(records, earlier);
        let ids_before = accepted_ids(records, earlier);
        let after = after_calls(records, calls);
        let ids = accepted_ids(records, calls);
        assert(after == after_call(before, calls.last()));
        match calls.last() {
            LedgerCall::Send {
                sender_name,
                sender_id,
                sender_country,
                recipient_name,
                recipient_id,
                recipient_phone,
                amount_usd,
                amount_idr,
                message,
                drawn_id,
                sent_at,
            } => {
                lemma_send_keeps(
                    before,
                    sender_name,
                    sender_id,
                    sender_country,
                    recipient_name,
                    recipient_id,
                    recipient_phone,
                    amount_usd,
                    amount_idr,
                    message,
                    drawn_id,
                    sent_at,
                );
                if send_accepted(before, amount_usd) {
                    assert forall|k: int| 0 <= k < before.len() implies #[trigger] after[k]
                        == before[k] by {}
                }
            },
            LedgerCall::Claim { transfer_id, recipient_id, now } => {
                lemma_claim_keeps(before, transfer_id, recipient_id, now);
                lemma_find_transfer(before, transfer_id);
                assert forall|k: int| 0 <= k < before.len() implies #[trigger] after[k].transfer_id
                    == before[k].transfer_id by {}
            },
            LedgerCall::Cancel { transfer_id, sender_id } => {
                lemma_cancel_keeps(before, transfer_id, sender_id);
                lemma_find_transfer(before, transfer_id);
                assert forall|k: int| 0 <= k < before.len() implies #[trigger] after[k].transfer_id
                    == before[k].transfer_id by {}
            },
        }
        assert forall|k: int| 0 <= k < records.len() implies #[trigger] after[k].transfer_id
            == records[k].transfer_id by {
            assert(before[k].transfer_id == records[k].transfer_id);
        }
        assert forall|k: int| 0 <= k < ids.len() implies after[records.len() + k].transfer_id
            == #[trigger] ids[k] by {
            if k < ids_before.len() {
                assert(before[records.len() + k].transfer_id == ids_before[k]);
            }
        }
        law_history_transitive(records, before, after);
    }
}

/// From an empty ledger, after any run of calls the ledger holds exactly one record per
/// taken send, in the order of the sends, each under that send's reply; those ids are
/// distinct and not 0.
pub proof fn law_run_from_empty(calls: Seq<LedgerCall>)
    ensures
        ({
            let after = after_calls(Seq::empty(), calls);
            let ids = accepted_ids(Seq::empty(), calls);
            &&& after.len() == ids.len()
            &&& forall|k: int| 0 <= k < ids.len() ==> #[trigger] after[k].transfer_id == ids[k]
            &&& well_formed(after)
        }),
{
    law_run(Seq::empty(), calls);
    let ids = accepted_ids(Seq::<RecordView>::empty(), calls);
    let after = after_calls(Seq::<RecordView>::empty(), calls);
    assert forall|k: int| 0 <= k < ids.len() implies #[trigger] after[k].transfer_id == ids[k] by {
        assert(after[0 + k].transfer_id == ids[k]);
    }
}

/// When record `i` is the first record with transfer id `id`, the lookup by `id` lands
/// on `i`.
pub proof fn lemma_first_match(records: Seq<RecordView>, id: u64, i: int)
    requires
        0 <= i < records.len(),
        records[i].transfer_id == id,
        forall|j: int| 0 <= j < i ==> #[trigger] records[j].transfer_id != id,
    ensures
        find_transfer(records, id) == i,
{
    lemma_find_transfer(records, id);
    let r = find_transfer(records, id);
    if r == -1 {
        assert(records[i].transfer_id != id);
    } else if r < i {
        assert(records[r].transfer_id != id);
    } else if r > i {
        assert(records[i].transfer_id != id);
    }
}

/// A send of a positive amount to a ledger of fewer than `u64::MAX` transfers is always
/// taken: the reply is not 0 and no stored transfer has it; it is the drawn id when that
/// is not 0 and unused, and otherwise every smaller positive id is in use; exactly one record
/// is appended, pending, unclaimed, under the reply, carrying every field given; and every
/// stored record stays as it was. A send of no US cents replies 0 and changes nothing.
pub proof fn law_send_money(
    records: Seq<RecordView>,
    sender_name: Seq<char>,
    sender_id: Seq<char>,
    sender_country: Seq<char>,
    recipient_name: Seq<char>,
    recipient_id: Seq<char>,
    recipient_phone: Seq<char>,
    amount_usd: u64,
    amount_idr: u64,
    message: Seq<char>,
    drawn_id: u64,
    sent_at: u64,
)
    ensures
        ({
            let reply = send_reply(records, amount_usd, drawn_id);
            let after = after_send(
                records,
                sender_name,
                sender_id,
                sender_country,
                recipient_name,
                recipient_id,
                recipient_phone,
                amount_usd,
                amount_idr,
                message,
                drawn_id,
                sent_at,
            );
            &&& amount_usd == 0 ==> reply == 0 && after == records
            &&& amount_usd > 0 && records.len() < u64::MAX ==> {
                &&& reply != 0
                &&& forall|j: int| 0 <= j < records.len() ==> #[trigger] records[j].transfer_id != reply
                &&& (drawn_id != 0 && forall|j: int|
                    0 <= j < records.len() ==> #[trigger] records[j].transfer_id != drawn_id)
                    ==> reply == drawn_id
                &&& (drawn_id == 0 || stored(records, drawn_id)) ==> forall|k: u64|
                    0 < k < reply ==> #[trigger] stored(records, k)
                &&& after.len() == records.len() + 1
                &&& forall|j: int| 0 <= j < records.len() ==> #[trigger] after[j] == records[j]
                &&& after[records.len() as int] == RecordView {
                    transfer_id: reply,
                    sender_name,
                    sender_id,
                    sender_country,
                    recipient_name,
                    recipient_id,
                    recipient_phone,
                    amount_usd,
                    amount_idr,
                    message,
                    status: TransferStatus::Pending,
                    sent_at,
                    claimed_at: 0,
                }
            }
        }),
{
    if amount_usd > 0 && records.len() < u64::MAX {
        law_send_reply(records, amount_usd, drawn_id);
        lemma_assigned_id(records, drawn_id);
        let reply = send_reply(records, amount_usd, drawn_id);
        if drawn_id != 0 && forall|j: int|
            0 <= j < records.len() ==> #[trigger] records[j].transfer_id != drawn_id {
            assert(!stored(records, drawn_id));
        }
        if drawn_id == 0 || stored(records, drawn_id) {
            assert(is_first_free(records, reply));
        }
    }
}

/// A claim of transfer `id` by the holder of `recipient_id`, decided by the first record
/// `i` with that id: when that transfer was sent to `recipient_id` and is pending, the
/// claim succeeds, record `i` becomes claimed with claim time `now` and nothing else of
/// it changes, and no other record changes. Otherwise the claim fails, with the recipient
/// checked before the status, and nothing changes.
pub proof fn law_claim_money(records: Seq<RecordView>, id: u64, recipient_id: Seq<char>, now: u64, i: int)
    requires
        0 <= i < records.len(),
        records[i].transfer_id == id,
        forall|j: int| 0 <= j < i ==> #[trigger] records[j].transfer_id != id,
    ensures
        ({
            let outcome = claim_outcome(records, id, recipient_id);
            let after = after_claim(records, id, recipient_id, now);
            &&& records[i].recipient_id == recipient_id && records[i].status
                == TransferStatus::Pending ==> {
                &&& outcome == ClaimOutcome::Claimed
                &&& after.len() == records.len()
                &&& after[i] == RecordView {
                    status: TransferStatus::Claimed,
                    claimed_at: now,
                    ..records[i]
                }
                &&& forall|j: int| 0 <= j < records.len() && j != i ==> #[trigger] after[j]
                    == records[j]
            }
            &&& records[i].recipient_id != recipient_id ==> outcome
                == ClaimOutcome::RecipientMismatch && after == records
            &&& records[i].recipient_id == recipient_id && records[i].status
                == TransferStatus::Claimed ==> outcome == ClaimOutcome::AlreadyClaimed && after
                == records
            &&& records[i].recipient_id == recipient_id && records[i].status
                == TransferStatus::Cancelled ==> outcome == ClaimOutcome::AlreadyCancelled && after
                == records
        }),
{
    lemma_first_match(records, id, i);
}

/// A claim or a cancellation of an id that no transfer has fails as not found and
/// changes nothing; so does a lookup by that id find nothing.
pub proof fn law_unknown_id(
    records: Seq<RecordView>,
    id: u64,
    party: Seq<char>,
    now: u64,
)
    requires
        forall|j: int| 0 <= j < records.len() ==> #[trigger] records[j].transfer_id != id,
    ensures
        claim_outcome(records, id, party) == ClaimOutcome::NotFound,
        after_claim(records, id, party, now) == records,
        cancel_outcome(records, id, party) == CancelOutcome::NotFound,
        after_cancel(records, id, party) == records,
        by_id(records, id) == Seq::<RecordView>::empty(),
{
    lemma_find_transfer(records, id);
    if find_transfer(records, id) >= 0 {
        assert(records[find_transfer(records, id)].transfer_id != id);
    }
}

/// A cancellation of transfer `id` by the holder of `sender_id`, decided by the first
/// record `i` with that id, wherever it stands in the ledger: when that transfer was sent
/// by `sender_id` and is pending, the cancellation succeeds, record `i` becomes cancelled
/// with claim time 0 and nothing else of it changes, and no other record changes.
/// Otherwise it fails, with the sender checked before the status, and nothing changes.
pub proof fn law_cancel_transfer(records: Seq<RecordView>, id: u64, sender_id: Seq<char>, i: int)
    requires
        0 <= i < records.len(),
        records[i].transfer_id == id,
        forall|j: int| 0 <= j < i ==> #[trigger] records[j].transfer_id != id,
    ensures
        ({
            let outcome = cancel_outcome(records, id, sender_id);
            let after = after_cancel(records, id, sender_id);
            &&& records[i].sender_id == sender_id && records[i].status
                == TransferStatus::Pending ==> {
                &&& outcome == CancelOutcome::Cancelled
                &&& after.len() == records.len()
                &&& after[i] == RecordView {
                    status: TransferStatus::Cancelled,
                    claimed_at: 0,
                    ..records[i]
                }
                &&& forall|j: int| 0 <= j < records.len() && j != i ==> #[trigger] after[j]
                    == records[j]
            }
            &&& records[i].sender_id != sender_id ==> outcome == CancelOutcome::SenderMismatch
                && after == records
            &&& records[i].sender_id == sender_id && records[i].status != TransferStatus::Pending
                ==> outcome == CancelOutcome::NotPending && after == records
        }),
{
    lemma_first_match(records, id, i);
}

/// A lookup by id returns the first record with that id, alone, whatever its status and
/// wherever it stands in the ledger.
pub proof fn law_lookup_by_id(records: Seq<RecordView>, id: u64, i: int)
    requires
        0 <= i < records.len(),
        records[i].transfer_id == id,
        forall|j: int| 0 <= j < i ==> #[trigger] records[j].transfer_id != id,
    ensures
        by_id(records, id) == seq![records[i]],
{
    lemma_first_match(records, id, i);
}

} // verus!
