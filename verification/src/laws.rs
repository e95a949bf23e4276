//! What holds of every generator, stated over its model and proved.
//!
//! A series of calls is modelled by the sequence of clock readings that were
//! handed in, one per call, starting from any well-formed state.

use vstd::prelude::*;
use crate::generator::{Error, Model, Outcome};
use crate::layout::{
    lemma_pack_round_trip, node_field, pack, sequence_field, sequence_span, timestamp_field,
};

verus! {

/// The state after the first `k` readings of a series.
pub open spec fn state_after(start: Model, readings: Seq<nat>, k: int) -> Model
    decreases k,
{
    if k <= 0 {
        start
    } else {
        state_after(start, readings, k - 1).after(readings[k - 1])
    }
}

/// What the call with reading number `k` is answered with.
pub open spec fn answer_at(start: Model, readings: Seq<nat>, k: int) -> Result<Outcome, Error> {
    state_after(start, readings, k).answer(readings[k])
}

/// The call with reading number `k` issues the identifier `id`.
pub open spec fn issued_at(start: Model, readings: Seq<nat>, k: int, id: u64) -> bool {
    answer_at(start, readings, k) == Ok::<Outcome, Error>(Outcome::Issued(id))
}

/// The call with reading number `k` finds its millisecond used up.
pub open spec fn exhausted_at(start: Model, readings: Seq<nat>, k: int) -> bool {
    answer_at(start, readings, k) == Ok::<Outcome, Error>(Outcome::Exhausted)
}

/// No reading is earlier than one before it.
pub open spec fn never_regresses(readings: Seq<nat>) -> bool {
    forall|a: int, b: int| 0 <= a <= b < readings.len() ==> readings[a] <= readings[b]
}

/// After each call that was told to wait, the next reading is a later
/// millisecond.
pub open spec fn waits_reach_a_later_millisecond(start: Model, readings: Seq<nat>) -> bool {
    forall|k: int|
        0 <= k && k + 1 < readings.len() && #[trigger] exhausted_at(start, readings, k)
            ==> readings[k] < readings[k + 1]
}

/// A step keeps the state well formed and never touches the configuration.
pub proof fn lemma_after_keeps_configuration(m: Model, now_ms: nat)
    requires
        m.wf(),
    ensures
        m.after(now_ms).wf(),
        m.after(now_ms).epoch == m.epoch,
        m.after(now_ms).node_id == m.node_id,
{
}

/// Any number of steps keeps the state well formed and never touches the
/// configuration.
pub proof fn lemma_state_after_keeps_configuration(start: Model, readings: Seq<nat>, k: int)
    requires
        start.wf(),
    ensures
        state_after(start, readings, k).wf(),
        state_after(start, readings, k).epoch == start.epoch,
        state_after(start, readings, k).node_id == start.node_id,
    decreases k,
{
    if k > 0 {
        lemma_state_after_keeps_configuration(start, readings, k - 1);
        lemma_after_keeps_configuration(state_after(start, readings, k - 1), readings[k - 1]);
    }
}

/// An issued identifier carries the milliseconds elapsed at its reading, the
/// configured node number, and the sequence counter as the call left it.
pub proof fn law_issued_fields(m: Model, now_ms: nat, id: u64)
    requires
        m.wf(),
        m.answer(now_ms) == Ok::<Outcome, Error>(Outcome::Issued(id)),
    ensures
        id == pack(m.elapsed(now_ms), m.node_id, m.after(now_ms).sequence),
        timestamp_field(id as nat) == m.elapsed(now_ms),
        timestamp_field(id as nat) == now_ms - m.epoch,
        node_field(id as nat) == m.node_id,
        sequence_field(id as nat) == m.after(now_ms).sequence,
        sequence_field(id as nat) < sequence_span(),
{
    lemma_pack_round_trip(m.elapsed(now_ms), m.node_id, m.next_sequence(now_ms));
}

/// The fields of the identifier that call number `k` of a series issued.
proof fn lemma_issued_at_fields(start: Model, readings: Seq<nat>, k: int, id: u64)
    requires
        start.wf(),
        0 <= k < readings.len(),
        issued_at(start, readings, k, id),
    ensures
        start.epoch <= readings[k],
        state_after(start, readings, k).accepts(readings[k]),
        id == pack(
            (readings[k] - start.epoch) as nat,
            start.node_id,
            state_after(start, readings, k + 1).sequence,
        ),
        timestamp_field(id as nat) == readings[k] - start.epoch,
        node_field(id as nat) == start.node_id,
        sequence_field(id as nat) == state_after(start, readings, k + 1).sequence,
        state_after(start, readings, k + 1).last_timestamp == Some(
            (readings[k] - start.epoch) as nat,
        ),
{
    lemma_state_after_keeps_configuration(start, readings, k);
    law_issued_fields(state_after(start, readings, k), readings[k], id);
}

/// While the clock stands still and no call is told to wait, the sequence
/// counter goes up by one with every call.
proof fn lemma_counter_climbs(start: Model, readings: Seq<nat>, i: int, j: int)
    requires
        start.wf(),
        0 <= i <= j < readings.len(),
        never_regresses(readings),
        waits_reach_a_later_millisecond(start, readings),
        readings[i] == readings[j],
        answer_at(start, readings, i) is Ok,
        !exhausted_at(start, readings, i),
        answer_at(start, readings, j) is Ok,
        !exhausted_at(start, readings, j),
    ensures
        state_after(start, readings, j + 1).sequence == state_after(start, readings, i + 1).sequence
            + (j - i),
        state_after(start, readings, j + 1).last_timestamp == Some(
            (readings[i] - start.epoch) as nat,
        ),
    decreases j - i,
{
    lemma_state_after_keeps_configuration(start, readings, i);
    lemma_state_after_keeps_configuration(start, readings, j);
    if i < j {
        assert(readings[i] <= readings[j - 1] <= readings[j]);
        lemma_state_after_keeps_configuration(start, readings, j - 1);
        assert(state_after(start, readings, j - 1).accepts(readings[j - 1]));
        assert(answer_at(start, readings, j - 1) is Ok);
        if exhausted_at(start, readings, j - 1) {
            assert(readings[j - 1] < readings[j - 1 + 1]);
        }
        lemma_counter_climbs(start, readings, i, j - 1);
    }
}

/// Order. In a series of calls whose clock never goes back, and in which
/// every call that was told to wait is followed by a reading in a later
/// millisecond, an identifier is larger than every identifier issued before
/// it.
pub proof fn law_identifiers_increase(
    start: Model,
    readings: Seq<nat>,
    i: int,
    j: int,
    first: u64,
    second: u64,
)
    requires
        start.wf(),
        0 <= i < j < readings.len(),
        never_regresses(readings),
        waits_reach_a_later_millisecond(start, readings),
        issued_at(start, readings, i, first),
        issued_at(start, readings, j, second),
    ensures
        first < second,
{
    lemma_issued_at_fields(start, readings, i, first);
    lemma_issued_at_fields(start, readings, j, second);
    lemma_state_after_keeps_configuration(start, readings, i + 1);
    lemma_state_after_keeps_configuration(start, readings, j + 1);
    assert(readings[i] <= readings[j]);
    if readings[i] == readings[j] {
        lemma_counter_climbs(start, readings, i, j);
    }
}

/// Uniqueness. In a series of calls whose clock never goes back, and in
/// which every call that was told to wait is followed by a reading in a later
/// millisecond, no two calls are given the same identifier.
pub proof fn law_identifiers_are_unique(
    start: Model,
    readings: Seq<nat>,
    i: int,
    j: int,
    first: u64,
    second: u64,
)
    requires
        start.wf(),
        0 <= i < j < readings.len(),
        never_regresses(readings),
        waits_reach_a_later_millisecond(start, readings),
        issued_at(start, readings, i, first),
        issued_at(start, readings, j, second),
    ensures
        first != second,
{
    law_identifiers_increase(start, readings, i, j, first, second);
}

/// Time order. In a series of calls whose clock never goes back, the timestamp
/// carried by an identifier is never smaller than the one carried by an
/// identifier issued before it.
pub proof fn law_timestamps_never_decrease(
    start: Model,
    readings: Seq<nat>,
    i: int,
    j: int,
    first: u64,
    second: u64,
)
    requires
        start.wf(),
        0 <= i <= j < readings.len(),
        never_regresses(readings),
        issued_at(start, readings, i, first),
        issued_at(start, readings, j, second),
    ensures
        timestamp_field(first as nat) <= timestamp_field(second as nat),
{
    lemma_issued_at_fields(start, readings, i, first);
    lemma_issued_at_fields(start, readings, j, second);
}

/// Two calls in a row that read the same millisecond. If the first issued an
/// identifier with a sequence number below 4095, the second issues one with
/// the same timestamp and node and the next sequence number. If the first one
/// carried 4095, the second is told to wait and issues nothing.
pub proof fn law_same_millisecond_increments(m: Model, now_ms: nat, first: u64)
    requires
        m.wf(),
        m.answer(now_ms) == Ok::<Outcome, Error>(Outcome::Issued(first)),
    ensures
        sequence_field(first as nat) + 1 < sequence_span() ==> m.after(now_ms).answer(now_ms)
            == Ok::<Outcome, Error>(Outcome::Issued((first + 1) as u64)),
        sequence_field(first as nat) + 1 < sequence_span() ==> sequence_field((first + 1) as nat)
            == (sequence_field(first as nat) + 1) % sequence_span(),
        sequence_field(first as nat) + 1 == sequence_span() ==> m.after(now_ms).answer(now_ms)
            == Ok::<Outcome, Error>(Outcome::Exhausted),
        m.after(now_ms).after(now_ms).sequence == (sequence_field(first as nat) + 1)
            % sequence_span(),
{
    law_issued_fields(m, now_ms, first);
    let then = m.after(now_ms);
    lemma_after_keeps_configuration(m, now_ms);
    if sequence_field(first as nat) + 1 < sequence_span() {
        lemma_pack_round_trip(then.elapsed(now_ms), then.node_id, then.next_sequence(now_ms));
    }
}

/// A call that reads another millisecond than the one seen last issues an
/// identifier with sequence number zero, whatever the counter was.
pub proof fn law_new_millisecond_resets_sequence(m: Model, now_ms: nat)
    requires
        m.wf(),
        m.accepts(now_ms),
        m.last_timestamp != Some(m.elapsed(now_ms)),
    ensures
        m.answer(now_ms) == Ok::<Outcome, Error>(
            Outcome::Issued(pack(m.elapsed(now_ms), m.node_id, 0) as u64),
        ),
        m.after(now_ms).sequence == 0,
        m.after(now_ms).last_timestamp == Some(m.elapsed(now_ms)),
{
}

/// The first accepted reading of a new generator opens its millisecond: it
/// is answered with the identifier of sequence number zero, at the epoch as
/// at any later reading, and leaves the counter at zero.
pub proof fn law_first_call_opens_a_millisecond(epoch: nat, node_id: nat, now_ms: nat)
    requires
        Model::fresh(epoch, node_id).wf(),
        Model::fresh(epoch, node_id).accepts(now_ms),
    ensures
        Model::fresh(epoch, node_id).answer(now_ms) == Ok::<Outcome, Error>(
            Outcome::Issued(pack((now_ms - epoch) as nat, node_id, 0) as u64),
        ),
        Model::fresh(epoch, node_id).after(now_ms).sequence == 0,
        Model::fresh(epoch, node_id).after(now_ms).last_timestamp == Some(
            (now_ms - epoch) as nat,
        ),
{
}

/// Two generators with different node numbers never issue the same
/// identifier, whatever their epochs, their states and their readings are.
pub proof fn law_distinct_nodes_never_collide(
    a: Model,
    b: Model,
    now_a: nat,
    now_b: nat,
    id_a: u64,
    id_b: u64,
)
    requires
        a.wf(),
        b.wf(),
        a.node_id != b.node_id,
        a.answer(now_a) == Ok::<Outcome, Error>(Outcome::Issued(id_a)),
        b.answer(now_b) == Ok::<Outcome, Error>(Outcome::Issued(id_b)),
    ensures
        id_a != id_b,
{
    law_issued_fields(a, now_a, id_a);
    law_issued_fields(b, now_b, id_b);
}

/// The budget of a millisecond. After the call that opened a millisecond
/// with sequence number zero, the next 4095 calls in that millisecond issue
/// the sequence numbers 1 to 4095 in turn, and the call after those is told to
/// wait.
pub proof fn law_millisecond_budget(start: Model, readings: Seq<nat>, k: int)
    requires
        start.wf(),
        start.last_timestamp is Some,
        start.sequence == 0,
        readings.len() == sequence_span(),
        0 <= k < readings.len(),
        forall|a: int|
            0 <= a < readings.len() ==> #[trigger] readings[a] == start.epoch
                + start.last_timestamp->Some_0,
    ensures
        state_after(start, readings, k + 1).sequence == (k + 1) % (sequence_span() as int),
        state_after(start, readings, k + 1).last_timestamp == start.last_timestamp,
        k + 1 < sequence_span() ==> answer_at(start, readings, k) == Ok::<Outcome, Error>(
            Outcome::Issued(
                pack(start.last_timestamp->Some_0, start.node_id, (k + 1) as nat) as u64,
            ),
        ),
        k + 1 == sequence_span() ==> exhausted_at(start, readings, k),
    decreases k,
{
    lemma_state_after_keeps_configuration(start, readings, k);
    if k > 0 {
        law_millisecond_budget(start, readings, k - 1);
    }
    assert(readings[k] == start.epoch + start.last_timestamp->Some_0);
}

} // verus!
