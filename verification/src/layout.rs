//! The record layout: the byte footprint of a record type computed from
//! its field list, and deterministic serialization of records into and
//! out of a fixed-capacity buffer.
//!
//! Persisted shape, bit-exact:
//! `[discriminator][owner identity][payload length prefix, little endian]
//! [payload bytes][counter, little endian, if the type has one]
//! [zero padding up to the reserved capacity]`.

use vstd::bytes::{
    spec_u32_from_le_bytes, spec_u32_to_le_bytes, spec_u64_from_le_bytes, spec_u64_to_le_bytes,
    u32_from_le_bytes, u32_to_le_bytes, u64_from_le_bytes, u64_to_le_bytes,
    lemma_auto_spec_u32_to_from_le_bytes, lemma_auto_spec_u64_to_from_le_bytes,
};
use vstd::prelude::*;
use vstd::slice::{slice_subrange, slice_to_vec};

use crate::errors::RecordError;
use crate::pubkey::{Pubkey, KEY_LEN};

verus! {

/// Width of the discriminator tag that opens every stored record.
pub const DISCRIMINATOR_LEN: usize = 8;

/// Width of the stored owner identity.
pub const OWNER_LEN: usize = 32;

/// Width of the length prefix that precedes a variable-width text field.
pub const LEN_PREFIX_LEN: usize = 4;

/// Width of the stored mutation counter, where the record type has one.
pub const COUNTER_LEN: usize = 8;

/// Upper bound accepted for a declared maximum payload length; keeps all
/// capacity arithmetic far away from machine limits.
pub const MAX_DECLARED_LEN: usize = 0x0100_0000;

/// One typed field of a record layout: either a fixed-width field or a
/// length-prefixed text field bounded by a declared maximum byte count.
pub enum FieldKind {
    Fixed { width: usize },
    Text { max_len: usize },
}

/// The bytes a field contributes to the record's reserved capacity: its
/// exact width if fixed, or prefix plus declared maximum if text.
pub open spec fn spec_field_max_bytes(f: FieldKind) -> int {
    match f {
        FieldKind::Fixed { width } => width as int,
        FieldKind::Text { max_len } => LEN_PREFIX_LEN + max_len,
    }
}

/// Total capacity contribution of a field list, front to back.
pub open spec fn spec_fields_bytes(fields: Seq<FieldKind>) -> int
    decreases fields.len(),
{
    if fields.len() == 0 {
        0
    } else {
        spec_field_max_bytes(fields[0]) + spec_fields_bytes(fields.drop_first())
    }
}

/// The reserved byte capacity of a record type: discriminator plus the
/// maximum bytes of every declared field.
pub open spec fn spec_capacity_bytes(fields: Seq<FieldKind>) -> int {
    DISCRIMINATOR_LEN + spec_fields_bytes(fields)
}

proof fn lemma_fields_bytes_nonneg(fields: Seq<FieldKind>)
    ensures
        spec_fields_bytes(fields) >= 0,
    decreases fields.len(),
{
    if fields.len() > 0 {
        lemma_fields_bytes_nonneg(fields.drop_first());
    }
}

/// The capacity bytes of one field descriptor.
pub fn field_max_bytes(f: &FieldKind) -> (n: usize)
    requires
        spec_field_max_bytes(*f) <= usize::MAX,
    ensures
        n == spec_field_max_bytes(*f),
{
    match f {
        FieldKind::Fixed { width } => *width,
        FieldKind::Text { max_len } => LEN_PREFIX_LEN + *max_len,
    }
}

/// Computes the reserved capacity of a record type from its field list:
/// discriminator bytes plus the sum of every field's maximum bytes.
pub fn capacity_bytes(fields: &Vec<FieldKind>) -> (n: usize)
    requires
        spec_capacity_bytes(fields@) <= usize::MAX,
    ensures
        n == spec_capacity_bytes(fields@),
{
    let mut sum: usize = DISCRIMINATOR_LEN;
    let mut i: usize = 0;
    proof {
        assert(fields@.subrange(0, fields@.len() as int) =~= fields@);
        lemma_fields_bytes_nonneg(fields@);
    }
    while i < fields.len()
        invariant
            i <= fields@.len(),
            spec_capacity_bytes(fields@) <= usize::MAX,
            sum == DISCRIMINATOR_LEN + spec_fields_bytes(fields@)
                - spec_fields_bytes(fields@.subrange(i as int, fields@.len() as int)),
            spec_fields_bytes(fields@.subrange(i as int, fields@.len() as int)) >= 0,
        decreases fields@.len() - i,
    {
        proof {
            let suffix = fields@.subrange(i as int, fields@.len() as int);
            assert(suffix[0] == fields@[i as int]);
            assert(suffix.drop_first() =~= fields@.subrange(i as int + 1, fields@.len() as int));
            lemma_fields_bytes_nonneg(suffix.drop_first());
            lemma_fields_bytes_nonneg(suffix);
        }
        let w = field_max_bytes(&fields[i]);
        sum = sum + w;
        i = i + 1;
    }
    proof {
        assert(fields@.subrange(fields@.len() as int, fields@.len() as int)
            =~= Seq::<FieldKind>::empty());
    }
    sum
}

/// One record type: its discriminator tag, the declared maximum payload
/// length, whether it carries a mutation counter, and whether mutation is
/// gated on the owner identity.
///
/// Injected into every handler rather than baked in, so several record
/// type configurations can coexist in one process.
pub struct RecordConfig {
    /// The fixed tag written at allocation and checked on every access.
    pub discriminator: Vec<u8>,
    /// Declared maximum payload byte count; part of the format contract.
    pub max_payload_len: usize,
    /// Whether the record carries a monotone mutation counter.
    pub has_counter: bool,
    /// Whether mutation requires the owner identity to sign.
    pub enforce_owner: bool,
}

impl RecordConfig {
    /// A configuration is well formed when its discriminator has the
    /// fixed width and its declared maximum is within bounds.
    pub open spec fn wf(&self) -> bool {
        &&& self.discriminator@.len() == DISCRIMINATOR_LEN
        &&& self.max_payload_len <= MAX_DECLARED_LEN
    }
}

/// The field list a record type declares: owner identity, bounded
/// payload text, and the counter where the type has one.
pub open spec fn spec_record_fields(c: RecordConfig) -> Seq<FieldKind> {
    seq![
        FieldKind::Fixed { width: OWNER_LEN },
        FieldKind::Text { max_len: c.max_payload_len },
    ] + if c.has_counter {
        seq![FieldKind::Fixed { width: COUNTER_LEN }]
    } else {
        Seq::<FieldKind>::empty()
    }
}

/// The reserved capacity of a record type, written out.
pub open spec fn spec_record_capacity(c: RecordConfig) -> int {
    DISCRIMINATOR_LEN + OWNER_LEN + LEN_PREFIX_LEN + c.max_payload_len + if c.has_counter {
        COUNTER_LEN as int
    } else {
        0
    }
}

/// Builds the field list of a record type.
pub fn record_fields(c: &RecordConfig) -> (fields: Vec<FieldKind>)
    ensures
        fields@ == spec_record_fields(*c),
{
    let mut fields: Vec<FieldKind> = Vec::new();
    fields.push(FieldKind::Fixed { width: OWNER_LEN });
    fields.push(FieldKind::Text { max_len: c.max_payload_len });
    if c.has_counter {
        fields.push(FieldKind::Fixed { width: COUNTER_LEN });
    }
    proof {
        assert(fields@ =~= spec_record_fields(*c));
    }
    fields
}

/// The reserved capacity of a record type equals the capacity computed
/// from its declared field list.
pub proof fn lemma_record_capacity_from_fields(c: RecordConfig)
    ensures
        spec_capacity_bytes(spec_record_fields(c)) == spec_record_capacity(c),
{
    let fields = spec_record_fields(c);
    let tail = if c.has_counter {
        seq![FieldKind::Fixed { width: COUNTER_LEN }]
    } else {
        Seq::<FieldKind>::empty()
    };
    assert(fields.len() == 2 + tail.len());
    assert(fields[0] == FieldKind::Fixed { width: OWNER_LEN });
    assert(fields[1] == FieldKind::Text { max_len: c.max_payload_len });
    assert(fields.drop_first().drop_first() =~= tail);
    assert(fields.drop_first()[0] == fields[1]);
    assert(spec_fields_bytes(Seq::<FieldKind>::empty()) == 0);
    if c.has_counter {
        assert(tail[0] == FieldKind::Fixed { width: COUNTER_LEN });
        assert(spec_fields_bytes(tail.drop_first()) == 0);
        assert(tail.drop_first() =~= Seq::<FieldKind>::empty());
        assert(spec_fields_bytes(tail) == COUNTER_LEN);
    } else {
        assert(spec_fields_bytes(tail) == 0);
    }
    assert(spec_fields_bytes(fields.drop_first()) == LEN_PREFIX_LEN + c.max_payload_len
        + spec_fields_bytes(tail));
}

/// Computes the reserved capacity of a record type via its field list.
pub fn record_capacity(c: &RecordConfig) -> (n: usize)
    requires
        c.wf(),
    ensures
        n == spec_record_capacity(*c),
{
    let fields = record_fields(c);
    proof {
        lemma_record_capacity_from_fields(*c);
    }
    capacity_bytes(&fields)
}

/// One logical record: the identity that allocated and owns it, its
/// payload bytes, and its mutation counter (held at zero for record
/// types without one).
pub struct RecordValue {
    pub owner: Pubkey,
    pub payload: Vec<u8>,
    pub counter: u64,
}

impl RecordValue {
    /// A record is well formed for a configuration when its owner key
    /// has the fixed width, its payload respects the declared maximum,
    /// and it holds no counter value the layout cannot store.
    pub open spec fn wf(&self, c: RecordConfig) -> bool {
        &&& self.owner.wf()
        &&& self.payload@.len() <= c.max_payload_len
        &&& !c.has_counter ==> self.counter == 0
    }
}

/// The fields a parse recovers from stored bytes, as mathematical values.
pub struct ParsedRecord {
    pub owner: Seq<u8>,
    pub payload: Seq<u8>,
    pub counter: u64,
}

/// `n` zero bytes.
pub open spec fn spec_zero_bytes(n: int) -> Seq<u8> {
    Seq::new(n as nat, |i: int| 0u8)
}

/// The serialized counter field: absent for record types without one.
pub open spec fn spec_counter_bytes(c: RecordConfig, counter: u64) -> Seq<u8> {
    if c.has_counter {
        spec_u64_to_le_bytes(counter)
    } else {
        Seq::<u8>::empty()
    }
}

/// The exact bytes a record serializes to: discriminator, owner,
/// length-prefixed payload, counter where present, then zero padding up
/// to the reserved capacity.
pub open spec fn spec_serialize(
    c: RecordConfig,
    owner: Seq<u8>,
    payload: Seq<u8>,
    counter: u64,
) -> Seq<u8> {
    c.discriminator@ + owner + spec_u32_to_le_bytes(payload.len() as u32) + payload
        + spec_counter_bytes(c, counter) + spec_zero_bytes(c.max_payload_len - payload.len())
}

/// What stored bytes mean: `Some` exactly when the buffer has the
/// reserved capacity, opens with the configured discriminator, and
/// declares a payload length within the declared maximum; `None` is a
/// corrupt record.
pub open spec fn spec_parse(c: RecordConfig, data: Seq<u8>) -> Option<ParsedRecord> {
    let cap = spec_record_capacity(c);
    let owner_end = DISCRIMINATOR_LEN + OWNER_LEN;
    let payload_start = owner_end + LEN_PREFIX_LEN;
    if data.len() != cap {
        None
    } else if data.subrange(0, DISCRIMINATOR_LEN as int) != c.discriminator@ {
        None
    } else {
        let plen = spec_u32_from_le_bytes(
            data.subrange(owner_end as int, payload_start as int),
        ) as int;
        if plen > c.max_payload_len {
            None
        } else {
            Some(ParsedRecord {
                owner: data.subrange(DISCRIMINATOR_LEN as int, owner_end as int),
                payload: data.subrange(payload_start as int, payload_start + plen),
                counter: if c.has_counter {
                    spec_u64_from_le_bytes(
                        data.subrange(payload_start + plen, payload_start + plen + COUNTER_LEN),
                    )
                } else {
                    0
                },
            })
        }
    }
}

/// Appends every byte of `src` to `out`.
pub(crate) fn push_bytes(out: &mut Vec<u8>, src: &Vec<u8>)
    ensures
        final(out)@ == old(out)@ + src@,
{
    let ghost orig: Seq<u8> = out@;
    let mut i: usize = 0;
    while i < src.len()
        invariant
            i <= src@.len(),
            out@ == orig + src@.subrange(0, i as int),
        decreases src@.len() - i,
    {
        out.push(src[i]);
        proof {
            assert(out@ =~= orig + src@.subrange(0, i as int + 1));
        }
        i = i + 1;
    }
    proof {
        assert(out@ =~= orig + src@);
    }
}

/// Whether the bytes of `data` starting at `off` match `pat` exactly.
fn range_matches(data: &Vec<u8>, off: usize, pat: &Vec<u8>) -> (same: bool)
    requires
        off + pat@.len() <= data@.len(),
    ensures
        same == (data@.subrange(off as int, off as int + pat@.len() as int) == pat@),
{
    let data_len: usize = data.len();
    proof {
        assert(data@.len() == data_len);
    }
    let mut i: usize = 0;
    while i < pat.len()
        invariant
            i <= pat@.len(),
            off + pat@.len() <= data@.len(),
            data@.len() <= usize::MAX,
            forall|j: int| 0 <= j < i ==> data@[off + j] == pat@[j],
        decreases pat@.len() - i,
    {
        if data[off + i] != pat[i] {
            proof {
                let sub = data@.subrange(off as int, off as int + pat@.len() as int);
                assert(sub[i as int] != pat@[i as int]);
            }
            return false;
        }
        i = i + 1;
    }
    proof {
        assert(data@.subrange(off as int, off as int + pat@.len() as int) =~= pat@);
    }
    true
}

/// Serializes a record into exactly its reserved capacity: the layout
/// pieces in order, then zero padding.
pub fn serialize_record(c: &RecordConfig, v: &RecordValue) -> (data: Vec<u8>)
    requires
        c.wf(),
        v.wf(*c),
    ensures
        data@ == spec_serialize(*c, v.owner@, v.payload@, v.counter),
        data@.len() == spec_record_capacity(*c),
{
    proof {
        lemma_auto_spec_u32_to_from_le_bytes();
        lemma_auto_spec_u64_to_from_le_bytes();
    }
    let mut data: Vec<u8> = Vec::new();
    push_bytes(&mut data, &c.discriminator);
    push_bytes(&mut data, &v.owner.bytes);
    let len_bytes = u32_to_le_bytes(v.payload.len() as u32);
    push_bytes(&mut data, &len_bytes);
    push_bytes(&mut data, &v.payload);
    if c.has_counter {
        let counter_bytes = u64_to_le_bytes(v.counter);
        push_bytes(&mut data, &counter_bytes);
    }
    let ghost head: Seq<u8> = data@;
    proof {
        assert(head == c.discriminator@ + v.owner@ + spec_u32_to_le_bytes(
            v.payload@.len() as u32,
        ) + v.payload@ + spec_counter_bytes(*c, v.counter)) by {
            if !c.has_counter {
                assert(head =~= c.discriminator@ + v.owner@ + spec_u32_to_le_bytes(
                    v.payload@.len() as u32,
                ) + v.payload@ + spec_counter_bytes(*c, v.counter));
            }
        }
    }
    let cap = record_capacity(c);
    while data.len() < cap
        invariant
            head.len() <= data@.len() <= cap,
            data@ == head + spec_zero_bytes(data@.len() - head.len()),
        decreases cap - data@.len(),
    {
        data.push(0u8);
        proof {
            assert(data@ =~= head + spec_zero_bytes(data@.len() - head.len()));
        }
    }
    proof {
        assert(data@ =~= spec_serialize(*c, v.owner@, v.payload@, v.counter));
    }
    data
}

/// Reads a record back out of stored bytes, rejecting undersized or
/// oversized buffers, a foreign discriminator, and an impossible length
/// prefix as `CorruptRecord`.
pub fn deserialize_record(c: &RecordConfig, data: &Vec<u8>) -> (r: Result<RecordValue, RecordError>)
    requires
        c.wf(),
    ensures
        match r {
            Ok(v) => spec_parse(*c, data@) == Some(ParsedRecord {
                owner: v.owner@,
                payload: v.payload@,
                counter: v.counter,
            }) && v.wf(*c),
            Err(e) => e == RecordError::CorruptRecord && spec_parse(*c, data@) is None,
        },
{
    proof {
        lemma_auto_spec_u32_to_from_le_bytes();
        lemma_auto_spec_u64_to_from_le_bytes();
    }
    let cap = record_capacity(c);
    if data.len() != cap {
        return Err(RecordError::CorruptRecord);
    }
    if !range_matches(data, 0, &c.discriminator) {
        return Err(RecordError::CorruptRecord);
    }
    let owner_end = DISCRIMINATOR_LEN + OWNER_LEN;
    let payload_start = owner_end + LEN_PREFIX_LEN;
    let plen = u32_from_le_bytes(slice_subrange(data.as_slice(), owner_end, payload_start));
    if plen as usize > c.max_payload_len {
        return Err(RecordError::CorruptRecord);
    }
    let owner = Pubkey::new(slice_to_vec(slice_subrange(data.as_slice(), DISCRIMINATOR_LEN, owner_end)));
    let payload = slice_to_vec(slice_subrange(data.as_slice(), payload_start, payload_start + plen as usize));
    let counter: u64 = if c.has_counter {
        let counter_start = payload_start + plen as usize;
        u64_from_le_bytes(slice_subrange(data.as_slice(), counter_start, counter_start + COUNTER_LEN))
    } else {
        0
    };
    Ok(RecordValue { owner, payload, counter })
}

/// Round trip: the serialized form of any well-formed record parses back
/// to exactly the record that was written. Capacity is always exactly
/// filled, so a record's stored size never exceeds what allocation
/// reserved.
pub proof fn lemma_serialize_parse_round_trip(
    c: RecordConfig,
    owner: Seq<u8>,
    payload: Seq<u8>,
    counter: u64,
)
    requires
        c.wf(),
        owner.len() == OWNER_LEN,
        payload.len() <= c.max_payload_len,
        !c.has_counter ==> counter == 0,
    ensures
        spec_serialize(c, owner, payload, counter).len() == spec_record_capacity(c),
        spec_parse(c, spec_serialize(c, owner, payload, counter)) == Some(ParsedRecord {
            owner,
            payload,
            counter,
        }),
{
    lemma_auto_spec_u32_to_from_le_bytes();
    lemma_auto_spec_u64_to_from_le_bytes();
    let s = spec_serialize(c, owner, payload, counter);
    let owner_end = DISCRIMINATOR_LEN + OWNER_LEN;
    let payload_start = owner_end + LEN_PREFIX_LEN;
    let cap = spec_record_capacity(c);
    assert(s.len() == cap);
    assert(s.subrange(0, DISCRIMINATOR_LEN as int) =~= c.discriminator@);
    assert(s.subrange(DISCRIMINATOR_LEN as int, owner_end as int) =~= owner);
    assert(s.subrange(owner_end as int, payload_start as int)
        =~= spec_u32_to_le_bytes(payload.len() as u32));
    assert(spec_u32_from_le_bytes(spec_u32_to_le_bytes(payload.len() as u32))
        == payload.len() as u32);
    assert(s.subrange(payload_start as int, payload_start + payload.len()) =~= payload);
    if c.has_counter {
        assert(s.subrange(
            payload_start + payload.len(),
            payload_start + payload.len() + COUNTER_LEN,
        ) =~= spec_u64_to_le_bytes(counter));
    }
}

} // verus!
