//! The DNA codec: where each named field lives in a version's byte layout, and
//! how a field is read from or written to the bytes.

use vstd::prelude::*;

use crate::avatar::DnaEncoding;

verus! {

/// Number of DNA bytes in every encoding version.
pub const DNA_LEN: usize = 32;

/// First byte of the spec region (V2 and V3).
pub const SPEC_START: usize = 5;

/// Number of bytes in the spec region (V2 and V3).
pub const SPEC_LEN: usize = 16;

/// First byte of the progress array (V2 and V3).
pub const PROGRESS_START: usize = 21;

/// Number of slots in the progress array.
pub const PROGRESS_LEN: usize = 11;

/// Which part of a byte a field occupies.
#[derive(Clone, Copy, Debug, PartialEq, Eq, Structural)]
pub enum ByteType {
    Full,
    High,
    Low,
}

/// The named fields of a DNA layout. `Spec(i)` is the spec region's byte `i`
/// (from 0), `Progress(i)` the progress array's slot `i` (from 0).
#[derive(Clone, Copy, Debug, PartialEq, Eq, Structural)]
pub enum DnaField {
    ItemType,
    ItemSubType,
    ClassType1,
    ClassType2,
    CustomType1,
    RarityTier,
    Quantity,
    CustomType2,
    Spec(u8),
    Progress(u8),
}

/// Why a codec operation was refused.
#[derive(Clone, Copy, Debug, PartialEq, Eq, Structural)]
pub enum EncodingError {
    /// The byte sequence does not have the version's length.
    WrongLength,
    /// The field is not part of the version's layout.
    NoSuchField,
    /// The value does not fit the bits reserved for the field.
    ValueTooLarge,
    /// The avatar's DNA is in another encoding version than the operation reads.
    WrongVersion,
}

pub open spec fn hi(b: u8) -> u8 {
    b / 16
}

pub open spec fn lo(b: u8) -> u8 {
    b % 16
}

/// The value held by one part of a byte.
pub open spec fn read_part(b: u8, part: ByteType) -> u8 {
    match part {
        ByteType::Full => b,
        ByteType::High => hi(b),
        ByteType::Low => lo(b),
    }
}

/// The largest value one part of a byte can hold.
pub open spec fn part_max(part: ByteType) -> u8 {
    match part {
        ByteType::Full => 255,
        _ => 15,
    }
}

/// The byte `b` with one part replaced by `v`, the other part kept.
pub open spec fn write_part(b: u8, part: ByteType, v: u8) -> u8 {
    match part {
        ByteType::Full => v,
        ByteType::High => (v * 16 + lo(b)) as u8,
        ByteType::Low => (hi(b) * 16 + v) as u8,
    }
}

/// The length of a DNA sequence in the given version.
pub open spec fn dna_len_of(enc: DnaEncoding) -> nat {
    DNA_LEN as nat
}

/// Where a field lives in the given version's layout: its byte and the part of
/// that byte, or `None` when the layout has no such field. V1 DNA is a plain
/// sequence of tier/variation bytes without named fields; V3 keeps the V2
/// table.
pub open spec fn slot_of(enc: DnaEncoding, f: DnaField) -> Option<(usize, ByteType)> {
    match enc {
        DnaEncoding::V1 => None,
        _ => match f {
            DnaField::ItemType => Some((0usize, ByteType::High)),
            DnaField::ItemSubType => Some((0usize, ByteType::Low)),
            DnaField::ClassType1 => Some((1usize, ByteType::High)),
            DnaField::ClassType2 => Some((1usize, ByteType::Low)),
            DnaField::CustomType1 => Some((2usize, ByteType::High)),
            DnaField::RarityTier => Some((2usize, ByteType::Low)),
            DnaField::Quantity => Some((3usize, ByteType::Full)),
            DnaField::CustomType2 => Some((4usize, ByteType::Full)),
            DnaField::Spec(i) => if (i as usize) < SPEC_LEN {
                Some(((SPEC_START + i) as usize, ByteType::Full))
            } else {
                None
            },
            DnaField::Progress(i) => if (i as usize) < PROGRESS_LEN {
                Some(((PROGRESS_START + i) as usize, ByteType::Full))
            } else {
                None
            },
        },
    }
}

/// The value of a field in a DNA sequence of the given version.
pub open spec fn decode_spec(dna: Seq<u8>, enc: DnaEncoding, f: DnaField) -> Result<
    u8,
    EncodingError,
> {
    if dna.len() != dna_len_of(enc) {
        Err(EncodingError::WrongLength)
    } else {
        match slot_of(enc, f) {
            None => Err(EncodingError::NoSuchField),
            Some((at, part)) => Ok(read_part(dna[at as int], part)),
        }
    }
}

/// The DNA sequence with one field set to `v`.
pub open spec fn encode_spec(dna: Seq<u8>, enc: DnaEncoding, f: DnaField, v: u8) -> Result<
    Seq<u8>,
    EncodingError,
> {
    if dna.len() != dna_len_of(enc) {
        Err(EncodingError::WrongLength)
    } else {
        match slot_of(enc, f) {
            None => Err(EncodingError::NoSuchField),
            Some((at, part)) => if v > part_max(part) {
                Err(EncodingError::ValueTooLarge)
            } else {
                Ok(dna.update(at as int, write_part(dna[at as int], part, v)))
            },
        }
    }
}

/// The value held by one part of a byte.
pub fn read_at(b: u8, part: ByteType) -> (r: u8)
    ensures
        r == read_part(b, part),
        r <= part_max(part),
{
    match part {
        ByteType::Full => b,
        ByteType::High => b / 16,
        ByteType::Low => b % 16,
    }
}

/// The byte `b` with one part replaced by `v`.
pub fn write_at(b: u8, part: ByteType, v: u8) -> (r: u8)
    requires
        v <= part_max(part),
    ensures
        r == write_part(b, part, v),
{
    match part {
        ByteType::Full => v,
        ByteType::High => v * 16 + b % 16,
        ByteType::Low => (b / 16) * 16 + v,
    }
}

/// Reading back a part just written gives the value written, and the other
/// part of the byte is kept.
pub proof fn lemma_write_read_part(b: u8, part: ByteType, v: u8)
    requires
        v <= part_max(part),
    ensures
        read_part(write_part(b, part, v), part) == v,
        part == ByteType::High ==> lo(write_part(b, part, v)) == lo(b),
        part == ByteType::Low ==> hi(write_part(b, part, v)) == hi(b),
{
}

/// The length of a DNA sequence in the given version.
pub fn dna_len(enc: DnaEncoding) -> (r: usize)
    ensures
        r == dna_len_of(enc),
{
    DNA_LEN
}

/// Where a field lives in the given version's layout.
pub fn field_slot(enc: DnaEncoding, f: DnaField) -> (r: Option<(usize, ByteType)>)
    ensures
        r == slot_of(enc, f),
{
    match enc {
        DnaEncoding::V1 => None,
        _ => match f {
            DnaField::ItemType => Some((0, ByteType::High)),
            DnaField::ItemSubType => Some((0, ByteType::Low)),
            DnaField::ClassType1 => Some((1, ByteType::High)),
            DnaField::ClassType2 => Some((1, ByteType::Low)),
            DnaField::CustomType1 => Some((2, ByteType::High)),
            DnaField::RarityTier => Some((2, ByteType::Low)),
            DnaField::Quantity => Some((3, ByteType::Full)),
            DnaField::CustomType2 => Some((4, ByteType::Full)),
            DnaField::Spec(i) => if (i as usize) < SPEC_LEN {
                Some((SPEC_START + i as usize, ByteType::Full))
            } else {
                None
            },
            DnaField::Progress(i) => if (i as usize) < PROGRESS_LEN {
                Some((PROGRESS_START + i as usize, ByteType::Full))
            } else {
                None
            },
        },
    }
}

/// Reads a field from a DNA sequence of the given version.
pub fn decode_field(dna: &Vec<u8>, enc: DnaEncoding, f: DnaField) -> (r: Result<u8, EncodingError>)
    ensures
        r == decode_spec(dna@, enc, f),
{
    if dna.len() != dna_len(enc) {
        return Err(EncodingError::WrongLength);
    }
    match field_slot(enc, f) {
        None => Err(EncodingError::NoSuchField),
        Some((at, part)) => Ok(read_at(dna[at], part)),
    }
}

/// Writes a field into a DNA sequence of the given version. On an error the
/// sequence is left as it was.
pub fn encode_field(dna: &mut Vec<u8>, enc: DnaEncoding, f: DnaField, v: u8) -> (r: Result<
    (),
    EncodingError,
>)
    ensures
        match encode_spec(old(dna)@, enc, f, v) {
            Ok(s) => r == Ok::<(), EncodingError>(()) && final(dna)@ == s,
            Err(e) => r == Err::<(), EncodingError>(e) && final(dna)@ == old(dna)@,
        },
{
    if dna.len() != dna_len(enc) {
        return Err(EncodingError::WrongLength);
    }
    match field_slot(enc, f) {
        None => Err(EncodingError::NoSuchField),
        Some((at, part)) => {
            if v > part_max_of(part) {
                return Err(EncodingError::ValueTooLarge);
            }
            let b = write_at(dna[at], part, v);
            dna.set(at, b);
            Ok(())
        },
    }
}

/// The largest value one part of a byte can hold.
pub fn part_max_of(part: ByteType) -> (r: u8)
    ensures
        r == part_max(part),
{
    match part {
        ByteType::Full => 255,
        _ => 15,
    }
}

/// Two different fields of one layout never share bits.
pub open spec fn slots_disjoint(a: (usize, ByteType), b: (usize, ByteType)) -> bool {
    a.0 != b.0 || (a.1 == ByteType::High && b.1 == ByteType::Low) || (a.1 == ByteType::Low && b.1
        == ByteType::High)
}

proof fn lemma_distinct_fields_disjoint(enc: DnaEncoding, f: DnaField, g: DnaField)
    requires
        f != g,
        slot_of(enc, f) is Some,
        slot_of(enc, g) is Some,
    ensures
        slots_disjoint(slot_of(enc, f)->0, slot_of(enc, g)->0),
{
}

/// Round trip: after a field is written with a value that fits, reading it
/// gives that value back, and every other field reads as before.
pub proof fn lemma_round_trip(dna: Seq<u8>, enc: DnaEncoding, f: DnaField, v: u8)
    requires
        encode_spec(dna, enc, f, v) is Ok,
    ensures
        decode_spec(encode_spec(dna, enc, f, v)->Ok_0, enc, f) == Ok::<u8, EncodingError>(v),
        forall|g: DnaField|
            g != f ==> #[trigger] decode_spec(encode_spec(dna, enc, f, v)->Ok_0, enc, g)
                == decode_spec(dna, enc, g),
{
    let (at, part) = slot_of(enc, f)->0;
    lemma_write_read_part(dna[at as int], part, v);
    assert forall|g: DnaField| g != f implies #[trigger] decode_spec(
        encode_spec(dna, enc, f, v)->Ok_0,
        enc,
        g,
    ) == decode_spec(dna, enc, g) by {
        if slot_of(enc, g) is Some {
            lemma_distinct_fields_disjoint(enc, f, g);
        }
    }
}

/// The bit of subtype `t` (from 1 to 8) in a subtype bitmask.
pub open spec fn subtype_bit(t: u8) -> u8 {
    (1u8 << ((t - 1) as u8)) as u8
}

/// Whether subtype `t` is set in the bitmask.
pub fn has_subtype(mask: u8, t: u8) -> (r: bool)
    requires
        1 <= t <= 8,
    ensures
        r == (mask & subtype_bit(t) != 0),
{
    mask & (1u8 << (t - 1)) != 0
}

/// The bitmask with subtype `t` set.
pub fn set_subtype(mask: u8, t: u8) -> (r: u8)
    requires
        1 <= t <= 8,
    ensures
        r == mask | subtype_bit(t),
{
    mask | (1u8 << (t - 1))
}

/// The bitmask with subtype `t` cleared.
pub fn clear_subtype(mask: u8, t: u8) -> (r: u8)
    requires
        1 <= t <= 8,
    ensures
        r == mask & !subtype_bit(t),
{
    mask & !(1u8 << (t - 1))
}

/// Setting a subtype makes it present and keeps every other subtype as it was;
/// clearing it makes it absent and keeps every other subtype as it was.
pub proof fn lemma_subtype_set_clear(mask: u8, t: u8, u: u8)
    requires
        1 <= t <= 8,
        1 <= u <= 8,
    ensures
        (mask | subtype_bit(t)) & subtype_bit(t) != 0,
        (mask & !subtype_bit(t)) & subtype_bit(t) == 0,
        u != t ==> ((mask | subtype_bit(t)) & subtype_bit(u) != 0) == (mask & subtype_bit(u) != 0),
        u != t ==> ((mask & !subtype_bit(t)) & subtype_bit(u) != 0) == (mask & subtype_bit(u) != 0),
{
    let a = (t - 1) as u8;
    let b = (u - 1) as u8;
    assert((mask | (1u8 << a)) & (1u8 << a) != 0) by (bit_vector)
        requires
            a < 8,
    ;
    assert((mask & !(1u8 << a)) & (1u8 << a) == 0) by (bit_vector)
        requires
            a < 8,
    ;
    assert(a != b ==> ((mask | (1u8 << a)) & (1u8 << b) != 0) == (mask & (1u8 << b) != 0))
        by (bit_vector)
        requires
            a < 8,
            b < 8,
    ;
    assert(a != b ==> ((mask & !(1u8 << a)) & (1u8 << b) != 0) == (mask & (1u8 << b) != 0))
        by (bit_vector)
        requires
            a < 8,
            b < 8,
    ;
}

/// The subtypes among 1 to `n` that are set in the bitmask, in increasing order.
pub open spec fn subtypes_upto(mask: u8, n: nat) -> Seq<u8>
    decreases n,
{
    if n == 0 {
        seq![]
    } else {
        let s = subtypes_upto(mask, (n - 1) as nat);
        if mask & subtype_bit(n as u8) != 0 {
            s.push(n as u8)
        } else {
            s
        }
    }
}

/// The subtypes set in the bitmask, in increasing order.
pub fn subtypes_of(mask: u8) -> (r: Vec<u8>)
    ensures
        r@ == subtypes_upto(mask, 8),
{
    let mut r: Vec<u8> = Vec::new();
    let mut t: u8 = 1;
    while t <= 8
        invariant
            1 <= t <= 9,
            r@ == subtypes_upto(mask, (t - 1) as nat),
        decreases 9 - t,
    {
        if has_subtype(mask, t) {
            r.push(t);
        }
        t = t + 1;
    }
    r
}

} // verus!
