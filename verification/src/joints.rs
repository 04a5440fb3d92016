//! The joint vector: one raw position per motor, in the order of the motor
//! ids fixed at setup, and how a reply from the bus changes it.

use crate::packet::{
    decode_status, lemma_status_round_trip, parse_status, status_packet, DecodeError,
    StatusReport, STATUS_PACKET_LEN,
};
use vstd::prelude::*;

verus! {

/// A set of motors is addressable when one synchronized packet can name
/// all of them with a position each: its length field has sixteen bits.
pub open spec fn addressable(ids: Seq<u8>) -> bool {
    5 * ids.len() + 7 <= 0xFFFF
}

/// No motor id occurs twice.
pub open spec fn distinct(ids: Seq<u8>) -> bool {
    forall|i: int, j: int| 0 <= i < j < ids.len() ==> ids[i] != ids[j]
}

/// The first index from `from` on at which `ids` holds `id`, or the length
/// of `ids` where there is none.
pub open spec fn slot_from(ids: Seq<u8>, id: u8, from: int) -> int
    decreases ids.len() - from,
{
    if from < 0 || from >= ids.len() {
        ids.len() as int
    } else if ids[from] == id {
        from
    } else {
        slot_from(ids, id, from + 1)
    }
}

/// The place of motor `id` in the joint vector, or the length of `ids` for
/// a motor that is not part of the mechanism.
pub open spec fn slot_of(ids: Seq<u8>, id: u8) -> int {
    slot_from(ids, id, 0)
}

/// The joint vector after one report: the reporting motor's position is
/// replaced; the report of a motor that is not part of the mechanism
/// changes nothing.
pub open spec fn absorb(joints: Seq<i32>, ids: Seq<u8>, report: StatusReport) -> Seq<i32> {
    let k = slot_of(ids, report.id);
    if 0 <= k < joints.len() {
        joints.update(k, report.value)
    } else {
        joints
    }
}

/// The joint vector after the first `n` regions of a reply, each as long
/// as one status report. A region that does not decode changes nothing and
/// does not keep the regions after it from being read.
pub open spec fn absorb_reply(joints: Seq<i32>, ids: Seq<u8>, reply: Seq<u8>, n: nat) -> Seq<i32>
    decreases n,
{
    if n == 0 {
        joints
    } else {
        let prior = absorb_reply(joints, ids, reply, (n - 1) as nat);
        match decode_status(reply, (n - 1) * STATUS_PACKET_LEN) {
            Ok(report) => absorb(prior, ids, report),
            Err(_) => prior,
        }
    }
}

/// Absorbing reports keeps the length of the joint vector.
pub proof fn lemma_absorb_reply_len(joints: Seq<i32>, ids: Seq<u8>, reply: Seq<u8>, n: nat)
    ensures
        absorb_reply(joints, ids, reply, n).len() == joints.len(),
    decreases n,
{
    if n > 0 {
        lemma_absorb_reply_len(joints, ids, reply, (n - 1) as nat);
    }
}

/// `slot_from` finds the first place from `from` on that holds `id`.
pub proof fn lemma_slot_from_is_first(ids: Seq<u8>, id: u8, from: int)
    requires
        0 <= from <= ids.len(),
    ensures
        from <= slot_from(ids, id, from) <= ids.len(),
        slot_from(ids, id, from) < ids.len() ==> ids[slot_from(ids, id, from)] == id,
        forall|j: int| from <= j < slot_from(ids, id, from) ==> ids[j] != id,
    decreases ids.len() - from,
{
    if from < ids.len() && ids[from] != id {
        lemma_slot_from_is_first(ids, id, from + 1);
    }
}

/// Among distinct ids every motor has its own place: the place of the
/// motor whose id stands at index `k` is `k`.
pub proof fn lemma_own_slot(ids: Seq<u8>, k: int)
    requires
        distinct(ids),
        0 <= k < ids.len(),
    ensures
        slot_of(ids, ids[k]) == k,
{
    lemma_slot_from_is_first(ids, ids[k], 0);
}

/// The reply in which each of the first `n` motors of `ids`, in order,
/// reports the error byte and the value at its index.
pub open spec fn reply_of(ids: Seq<u8>, errors: Seq<u8>, values: Seq<i32>, n: nat) -> Seq<u8>
    decreases n,
{
    if n == 0 {
        Seq::empty()
    } else {
        reply_of(ids, errors, values, (n - 1) as nat) + status_packet(
            ids[n - 1],
            errors[n - 1],
            values[n - 1],
        )
    }
}

/// A reply of `n` reports has fifteen bytes for each, and starts with the
/// reply of the first `k` of them.
proof fn lemma_reply_prefix(ids: Seq<u8>, errors: Seq<u8>, values: Seq<i32>, k: nat, n: nat)
    requires
        k <= n,
    ensures
        reply_of(ids, errors, values, n).len() == STATUS_PACKET_LEN * n,
        reply_of(ids, errors, values, k).len() == STATUS_PACKET_LEN * k,
        reply_of(ids, errors, values, n).subrange(0, STATUS_PACKET_LEN * k) == reply_of(
            ids,
            errors,
            values,
            k,
        ),
    decreases n,
{
    if n > 0 {
        let m = (n - 1) as nat;
        lemma_status_round_trip(
            Seq::empty(),
            ids[n - 1],
            errors[n - 1],
            values[n - 1],
            Seq::empty(),
        );
        if k == n {
            lemma_reply_prefix(ids, errors, values, m, m);
        } else {
            lemma_reply_prefix(ids, errors, values, k, m);
        }
    }
}

/// Region `k` of a reply reads as the report of the motor at index `k`.
proof fn lemma_reply_region(ids: Seq<u8>, errors: Seq<u8>, values: Seq<i32>, k: nat, n: nat)
    requires
        k < n,
    ensures
        decode_status(reply_of(ids, errors, values, n), k * STATUS_PACKET_LEN) == Ok::<
            StatusReport,
            DecodeError,
        >(StatusReport { id: ids[k as int], value: values[k as int], error: errors[k as int] }),
{
    let whole = reply_of(ids, errors, values, n);
    let before = reply_of(ids, errors, values, k);
    lemma_reply_prefix(ids, errors, values, k, n);
    lemma_reply_prefix(ids, errors, values, k + 1, n);
    lemma_status_round_trip(
        before,
        ids[k as int],
        errors[k as int],
        values[k as int],
        Seq::empty(),
    );
    let after = whole.subrange(STATUS_PACKET_LEN * (k + 1), whole.len() as int);
    assert(whole =~= whole.subrange(0, STATUS_PACKET_LEN * (k + 1)) + after);
    lemma_status_round_trip(before, ids[k as int], errors[k as int], values[k as int], after);
}

/// After the first `n` regions of such a reply the first `n` joints hold
/// the reported values and the others are as they were.
proof fn lemma_absorb_reply_prefix(
    joints: Seq<i32>,
    ids: Seq<u8>,
    errors: Seq<u8>,
    values: Seq<i32>,
    n: nat,
)
    requires
        distinct(ids),
        joints.len() == ids.len(),
        values.len() == ids.len(),
        errors.len() == ids.len(),
        n <= ids.len(),
    ensures
        absorb_reply(joints, ids, reply_of(ids, errors, values, ids.len()), n) == Seq::new(
            ids.len(),
            |k: int|
                if k < n {
                    values[k]
                } else {
                    joints[k]
                },
        ),
    decreases n,
{
    if n > 0 {
        let m = (n - 1) as nat;
        lemma_absorb_reply_prefix(joints, ids, errors, values, m);
        lemma_reply_region(ids, errors, values, m, ids.len());
        lemma_own_slot(ids, m as int);
    }
}

/// A reply in which every motor, in the order of distinct ids, reports a
/// value is read back as the joint vector of those values, whatever the
/// joint vector was and whatever the error bytes are.
pub proof fn lemma_reply_round_trip(
    joints: Seq<i32>,
    ids: Seq<u8>,
    errors: Seq<u8>,
    values: Seq<i32>,
)
    requires
        distinct(ids),
        joints.len() == ids.len(),
        values.len() == ids.len(),
        errors.len() == ids.len(),
    ensures
        absorb_reply(joints, ids, reply_of(ids, errors, values, ids.len()), ids.len()) == values,
{
    lemma_absorb_reply_prefix(joints, ids, errors, values, ids.len());
}

/// Whether no motor id occurs twice.
pub fn all_distinct(ids: &[u8]) -> (r: bool)
    ensures
        r == distinct(ids@),
{
    let mut k: usize = 0;
    while k < ids.len()
        invariant
            k <= ids@.len(),
            forall|i: int, j: int| 0 <= i < j < ids@.len() && i < k ==> ids@[i] != ids@[j],
        decreases ids@.len() - k,
    {
        let mut j: usize = k + 1;
        while j < ids.len()
            invariant
                k < j <= ids@.len(),
                forall|i: int| k < i < j ==> ids@[k as int] != ids@[i],
            decreases ids@.len() - j,
        {
            if ids[j] == ids[k] {
                return false;
            }
            j = j + 1;
        }
        k = k + 1;
    }
    true
}

/// Finds the place of motor `id` among `ids`.
pub fn find_slot(ids: &[u8], id: u8) -> (k: usize)
    ensures
        k == slot_of(ids@, id),
        k <= ids@.len(),
{
    let mut k: usize = 0;
    while k < ids.len()
        invariant
            k <= ids@.len(),
            slot_of(ids@, id) == slot_from(ids@, id, k as int),
        decreases ids@.len() - k,
    {
        if ids[k] == id {
            return k;
        }
        k = k + 1;
    }
    k
}

/// Reads a reply to a synchronized position read, one region per motor,
/// and stores each position that was reported. Returns what each region
/// held, so that the caller can report the regions that did not decode and
/// the advisories of those that did.
pub fn absorb_reports(joints: &mut Vec<i32>, ids: &[u8], reply: &[u8]) -> (reports: Vec<
    Result<StatusReport, DecodeError>,
>)
    requires
        addressable(ids@),
        old(joints)@.len() == ids@.len(),
    ensures
        final(joints)@ == absorb_reply(old(joints)@, ids@, reply@, ids@.len()),
        reports@.len() == ids@.len(),
        forall|k: int|
            0 <= k < reports@.len() ==> #[trigger] reports@[k] == decode_status(
                reply@,
                k * STATUS_PACKET_LEN,
            ),
{
    let mut reports: Vec<Result<StatusReport, DecodeError>> = Vec::new();
    let mut k: usize = 0;
    while k < ids.len()
        invariant
            addressable(ids@),
            k <= ids@.len(),
            joints@.len() == ids@.len(),
            joints@ == absorb_reply(old(joints)@, ids@, reply@, k as nat),
            reports@.len() == k,
            forall|j: int|
                0 <= j < k ==> #[trigger] reports@[j] == decode_status(
                    reply@,
                    j * STATUS_PACKET_LEN,
                ),
        decreases ids@.len() - k,
    {
        let outcome = parse_status(reply, k * STATUS_PACKET_LEN);
        match outcome {
            Ok(report) => {
                let slot: usize = find_slot(ids, report.id);
                if slot < joints.len() {
                    joints.set(slot, report.value);
                }
            },
            Err(_) => {},
        }
        reports.push(outcome);
        k = k + 1;
    }
    reports
}

} // verus!
