//! Job identifiers: how they are drawn, and how they are written as sixteen bytes.

use vstd::prelude::*;
use crate::types::JobId;

verus! {

/// The number that a sequence of bytes denotes when the first byte counts most.
pub open spec fn be_value(digits: Seq<u8>) -> nat
    decreases digits.len(),
{
    if digits.len() == 0 {
        0
    } else {
        be_value(digits.drop_last()) * 256 + digits.last() as nat
    }
}

/// Whether an identifier carries the marks of one drawn at random: version four in
/// its thirteenth hex digit, and the two bits `10` at the top of its seventeenth.
pub open spec fn is_random_id(id: JobId) -> bool {
    id & 0x0000_0000_0000_f000_c000_0000_0000_0000u128
        == 0x0000_0000_0000_4000_8000_0000_0000_0000u128
}

/// `Uuid::new_v4`, read as a number by `Uuid::as_u128`: 122 bits from the operating
/// system's random source, and the fixed marks of version and variant. Which
/// identifier comes is open; only the marks are stated.
#[verifier::external_body]
fn random_uuid() -> (id: JobId)
    ensures
        is_random_id(id),
{
    uuid::Uuid::new_v4().as_u128()
}

/// `Uuid::from_slice`, read as a number by `Uuid::as_u128`: it takes exactly sixteen
/// bytes and refuses every other length; the bytes are the identifier, the first
/// byte counting most. A refusal comes as the text that the crate gives for it, of
/// which nothing is stated.
#[verifier::external_body]
fn uuid_from_slice(raw: &[u8]) -> (parsed: Result<JobId, String>)
    ensures
        parsed is Ok <==> raw@.len() == 16,
        parsed matches Ok(id) ==> id == be_value(raw@),
{
    uuid::Uuid::from_slice(raw).map(|id| id.as_u128()).map_err(|error| error.to_string())
}

/// `Uuid::as_bytes`, on the identifier made by `Uuid::from_u128`: sixteen bytes that
/// denote the number, the first byte counting most.
#[verifier::external_body]
fn uuid_as_bytes(id: JobId) -> (raw: Vec<u8>)
    ensures
        raw@.len() == 16,
        be_value(raw@) == id,
{
    uuid::Uuid::from_u128(id).as_bytes().to_vec()
}

/// Bytes that are no job identifier, with the text that says why.
#[derive(Debug)]
pub struct InvalidJobId {
    pub reason: String,
}

/// Draws the identifier for a new job.
pub fn new_job_id() -> (id: JobId)
    ensures
        is_random_id(id),
{
    random_uuid()
}

/// Reads a job identifier from the sixteen bytes in which it travels. Any other
/// number of bytes is refused.
pub fn job_id_from_slice(raw: &[u8]) -> (parsed: Result<JobId, InvalidJobId>)
    ensures
        parsed is Ok <==> raw@.len() == 16,
        parsed matches Ok(id) ==> id == be_value(raw@),
{
    match uuid_from_slice(raw) {
        Ok(id) => Ok(id),
        Err(reason) => Err(InvalidJobId { reason }),
    }
}

/// Writes a job identifier as the sixteen bytes in which it travels.
pub fn job_id_to_bytes(id: JobId) -> (raw: Vec<u8>)
    ensures
        raw@.len() == 16,
        be_value(raw@) == id,
{
    uuid_as_bytes(id)
}

/// Two sequences of bytes of one length that denote the same number are the same.
pub proof fn lemma_be_value_injective(a: Seq<u8>, b: Seq<u8>)
    requires
        a.len() == b.len(),
        be_value(a) == be_value(b),
    ensures
        a == b,
    decreases a.len(),
{
    if a.len() > 0 {
        let x = be_value(a.drop_last());
        let y = be_value(b.drop_last());
        assert(x * 256 + a.last() as nat == y * 256 + b.last() as nat);
        assert(x == y && a.last() == b.last()) by (nonlinear_arith)
            requires
                x * 256 + a.last() as nat == y * 256 + b.last() as nat,
                a.last() < 256,
                b.last() < 256,
        ;
        lemma_be_value_injective(a.drop_last(), b.drop_last());
        assert(a =~= a.drop_last().push(a.last()));
        assert(b =~= b.drop_last().push(b.last()));
    } else {
        assert(a =~= b);
    }
}

/// An identifier that was written as bytes is read back from them unchanged, and
/// the bytes of an identifier that was read are the bytes it was read from.
pub proof fn lemma_job_id_round_trip(id: JobId, raw: Seq<u8>, other: Seq<u8>)
    requires
        raw.len() == 16,
        other.len() == 16,
        be_value(raw) == id,
        be_value(other) == id,
    ensures
        raw == other,
{
    lemma_be_value_injective(raw, other);
}

} // verus!
