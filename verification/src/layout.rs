//! The bit layout of an identifier.
//!
//! From the most significant bit down: 42 bits of milliseconds since the
//! generator's epoch, 10 bits of node number, 12 bits of sequence number.

use vstd::prelude::*;

verus! {

/// Width of the node field in bits.
pub const NODE_ID_BITS: u64 = 10;

/// Width of the sequence field in bits.
pub const SEQUENCE_BITS: u64 = 12;

/// Width of the timestamp field in bits.
pub const TIMESTAMP_BITS: u64 = 42;

/// Largest node number that fits its field.
pub const MAX_NODE_ID: u16 = 1023;

/// Largest sequence number that fits its field.
pub const MAX_SEQUENCE: u16 = 4095;

/// Largest timestamp that fits its field.
pub const MAX_TIMESTAMP: u64 = 0x3ff_ffff_ffff;

/// Number of identifiers one node can issue within one millisecond.
pub open spec fn sequence_span() -> nat {
    4096
}

/// Number of distinct node numbers.
pub open spec fn node_span() -> nat {
    1024
}

/// Number of distinct timestamps.
pub open spec fn timestamp_span() -> nat {
    0x400_0000_0000
}

/// The identifier made of the three fields, as a number: the timestamp counts
/// in units of `2^22`, the node in units of `2^12`, the sequence in units.
pub open spec fn pack(timestamp: nat, node_id: nat, sequence: nat) -> nat {
    timestamp * 0x40_0000 + node_id * 0x1000 + sequence
}

/// The timestamp field of an identifier (bits 63 to 22).
pub open spec fn timestamp_field(id: nat) -> nat {
    id / 0x40_0000
}

/// The node field of an identifier (bits 21 to 12).
pub open spec fn node_field(id: nat) -> nat {
    (id / 0x1000) % 1024
}

/// The sequence field of an identifier (bits 11 to 0).
pub open spec fn sequence_field(id: nat) -> nat {
    id % 0x1000
}

/// The three fields fit their widths.
pub open spec fn fields_fit(timestamp: nat, node_id: nat, sequence: nat) -> bool {
    &&& timestamp < timestamp_span()
    &&& node_id < node_span()
    &&& sequence < sequence_span()
}

/// Fields that fit pack into a value of 64 bits, and each field is read back
/// from it unchanged.
pub proof fn lemma_pack_round_trip(timestamp: nat, node_id: nat, sequence: nat)
    requires
        fields_fit(timestamp, node_id, sequence),
    ensures
        pack(timestamp, node_id, sequence) <= u64::MAX,
        timestamp_field(pack(timestamp, node_id, sequence)) == timestamp,
        node_field(pack(timestamp, node_id, sequence)) == node_id,
        sequence_field(pack(timestamp, node_id, sequence)) == sequence,
{
}

/// Packs a timestamp, a node number and a sequence number into an identifier.
pub fn compose(timestamp: u64, node_id: u16, sequence: u16) -> (id: u64)
    requires
        fields_fit(timestamp as nat, node_id as nat, sequence as nat),
    ensures
        id == pack(timestamp as nat, node_id as nat, sequence as nat),
        timestamp_field(id as nat) == timestamp,
        node_field(id as nat) == node_id,
        sequence_field(id as nat) == sequence,
{
    let node: u64 = node_id as u64;
    let seq: u64 = sequence as u64;
    assert((timestamp << 22) | (node << 12) | seq == timestamp * 0x40_0000 + node * 0x1000 + seq)
        by (bit_vector)
        requires
            timestamp < 0x400_0000_0000,
            node < 1024,
            seq < 4096,
    ;
    proof {
        lemma_pack_round_trip(timestamp as nat, node_id as nat, sequence as nat);
    }
    (timestamp << (NODE_ID_BITS + SEQUENCE_BITS)) | (node << SEQUENCE_BITS) | seq
}

/// The milliseconds since the epoch that an identifier carries.
pub fn timestamp_of(id: u64) -> (timestamp: u64)
    ensures
        timestamp == timestamp_field(id as nat),
        timestamp <= MAX_TIMESTAMP,
{
    assert(id >> 22 == id / 0x40_0000) by (bit_vector);
    id >> (NODE_ID_BITS + SEQUENCE_BITS)
}

/// The node number that an identifier carries.
pub fn node_id_of(id: u64) -> (node_id: u16)
    ensures
        node_id == node_field(id as nat),
        node_id <= MAX_NODE_ID,
{
    assert((id >> 12) & 1023 == (id / 0x1000) % 1024) by (bit_vector);
    assert((id >> 12) & 1023 < 1024) by (bit_vector);
    let field: u64 = (id >> SEQUENCE_BITS) & 1023;
    field as u16
}

/// The sequence number that an identifier carries.
pub fn sequence_of(id: u64) -> (sequence: u16)
    ensures
        sequence == sequence_field(id as nat),
        sequence <= MAX_SEQUENCE,
{
    assert(id & 4095 == id % 0x1000) by (bit_vector);
    assert(id & 4095 < 4096) by (bit_vector);
    let field: u64 = id & 4095;
    field as u16
}

} // verus!
