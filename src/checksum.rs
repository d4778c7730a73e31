use vstd::prelude::*;

use crate::error::ConsoleError;

verus! {

/// CRC-32 (ISO-HDLC: polynomial 0x04C11DB7, reflected, initial and final
/// value 0xFFFFFFFF) of a byte sequence.
pub uninterp spec fn crc32_iso_hdlc(data: Seq<u8>) -> u32;

/// Relies on `crc::Crc::<u32>::new(&crc::CRC_32_ISO_HDLC).checksum`: the
/// checksum of `data` under that algorithm, a function of the bytes alone.
#[verifier::external_body]
fn crc32_checksum(data: &[u8]) -> (r: u32)
    ensures
        r == crc32_iso_hdlc(data@),
{
    crc::Crc::<u32>::new(&crc::CRC_32_ISO_HDLC).checksum(data)
}

/// The byte `+`, which may open a CRC field.
pub const PLUS_SIGN: u8 = 43;

pub open spec fn is_ascii_digit(b: u8) -> bool {
    48u8 <= b <= 57u8
}

/// `d` is a non-empty run of ASCII decimal digits.
pub open spec fn all_digits(d: Seq<u8>) -> bool {
    d.len() > 0 && forall|i: int| 0 <= i < d.len() ==> is_ascii_digit(#[trigger] d[i])
}

/// The number written by the decimal digits `d`, most significant first.
pub open spec fn decimal_value(d: Seq<u8>) -> nat
    decreases d.len(),
{
    if d.len() == 0 {
        0
    } else {
        decimal_value(d.drop_last()) * 10 + (d.last() - 48u8) as nat
    }
}

/// The digits of a CRC field: what follows one optional leading `+`.
pub open spec fn crc_digits(d: Seq<u8>) -> Seq<u8> {
    if d.len() > 0 && d[0] == PLUS_SIGN {
        d.subrange(1, d.len() as int)
    } else {
        d
    }
}

/// What a CRC field parses to, as an unsigned 32-bit decimal number: one
/// optional leading `+`, then a non-empty run of digits whose value fits in
/// 32 bits.
pub open spec fn parsed_crc(d: Seq<u8>) -> Option<u32> {
    let ds = crc_digits(d);
    if all_digits(ds) && decimal_value(ds) <= u32::MAX {
        Some(decimal_value(ds) as u32)
    } else {
        None
    }
}

proof fn lemma_decimal_value_grows(d: Seq<u8>, k: int)
    requires
        0 <= k <= d.len(),
        forall|i: int| 0 <= i < d.len() ==> is_ascii_digit(#[trigger] d[i]),
    ensures
        decimal_value(d.subrange(0, k)) <= decimal_value(d),
    decreases d.len() - k,
{
    if k < d.len() {
        lemma_decimal_value_grows(d, k + 1);
        assert(d.subrange(0, k + 1).drop_last() =~= d.subrange(0, k));
    } else {
        assert(d.subrange(0, k) =~= d);
    }
}

/// Parses a decimal CRC field, as `parsed_crc` states: `Some` exactly when
/// `d` is one optional `+` followed by a non-empty run of ASCII digits whose
/// value fits in 32 bits.
pub fn parse_crc_field(d: &[u8]) -> (r: Option<u32>)
    ensures
        r == parsed_crc(d@),
{
    let start: usize = if d.len() > 0 && d[0] == PLUS_SIGN {
        1
    } else {
        0
    };
    let ghost ds = crc_digits(d@);
    assert(ds =~= d@.subrange(start as int, d@.len() as int));
    if d.len() == start {
        return None;
    }
    let mut v: u64 = 0;
    let mut i: usize = start;
    while i < d.len()
        invariant
            start <= i <= d@.len(),
            ds == crc_digits(d@),
            ds == d@.subrange(start as int, d@.len() as int),
            forall|k: int| 0 <= k < i - start ==> is_ascii_digit(#[trigger] ds[k]),
            v == decimal_value(ds.subrange(0, i - start)),
            v <= u32::MAX,
        decreases d@.len() - i,
    {
        let b = d[i];
        if !(48u8 <= b && b <= 57u8) {
            assert(ds[i - start] == b);
            return None;
        }
        assert(ds.subrange(0, i + 1 - start).drop_last() =~= ds.subrange(0, i - start));
        assert(ds.subrange(0, i + 1 - start).last() == b);
        v = v * 10 + (b - 48u8) as u64;
        i = i + 1;
        if v > u32::MAX as u64 {
            proof {
                if all_digits(ds) {
                    lemma_decimal_value_grows(ds, i - start);
                }
            }
            return None;
        }
    }
    assert(ds.subrange(0, i - start) =~= ds);
    Some(v as u32)
}

/// Whether a CRC field `d` states the checksum `actual`.
pub fn crc_field_matches(d: &[u8], actual: u32) -> (r: bool)
    ensures
        r == (parsed_crc(d@) == Some(actual)),
{
    match parse_crc_field(d) {
        Some(v) => v == actual,
        None => false,
    }
}

/// Checks a response's CRC field against the CRC-32 (ISO-HDLC) of its
/// payload bytes.
pub fn check_console_crc(payload: &[u8], d: &[u8]) -> (r: Result<(), ConsoleError>)
    ensures
        r is Ok <==> parsed_crc(d@) == Some(crc32_iso_hdlc(payload@)),
        r is Err ==> r == Err::<(), ConsoleError>(ConsoleError::CrcMismatch),
{
    let actual = crc32_checksum(payload);
    if crc_field_matches(d, actual) {
        Ok(())
    } else {
        Err(ConsoleError::CrcMismatch)
    }
}

/// The verdict on a CRC field depends on the payload and the field alone:
/// equal inputs give equal verdicts.
pub proof fn lemma_crc_check_deterministic(payload_a: Seq<u8>, field_a: Seq<u8>, payload_b: Seq<u8>, field_b: Seq<u8>)
    requires
        payload_a == payload_b,
        field_a == field_b,
    ensures
        crc32_iso_hdlc(payload_a) == crc32_iso_hdlc(payload_b),
        (parsed_crc(field_a) == Some(crc32_iso_hdlc(payload_a))) == (parsed_crc(field_b) == Some(crc32_iso_hdlc(
            payload_b,
        ))),
{
}

} // verus!
