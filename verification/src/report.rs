//! Reports and their fixed 61-byte wire format.
//!
//! A report is a single oracle observation. On the wire it is five
//! consecutive big-endian fields: timestamp (4 bytes), observer count
//! (1 byte), observers (32 bytes, of which the first 19 are meaningful and
//! the rest are zero padding), median (16 bytes, two's complement) and
//! fee-conversion rate (8 bytes). `decode_spec` and `encode_spec` state the
//! format once; `unpack` and `pack` are proved against them.

use vstd::prelude::*;

use crate::codec::be_bytes;
use crate::codec::be_val;
use crate::codec::lemma_be_bytes_len;
use crate::codec::lemma_be_bytes_val;
use crate::codec::lemma_be_val_bound;
use crate::codec::lemma_pow256_widths;
use crate::codec::read_be;
use crate::codec::write_be;

verus! {

broadcast use vstd::array::group_array_axioms;

/// Failure of a store operation: the raw buffer is structurally invalid.
#[derive(Clone, Copy, PartialEq, Eq, Structural, Debug)]
pub enum StoreError {
    MalformedInput,
}

/// A single decoded oracle observation.
#[derive(Clone, Copy, PartialEq, Eq, Debug)]
pub struct Report {
    pub median: i128,
    pub observer_count: u8,
    pub observers: [u8; 19],
    pub observations_timestamp: u32,
    pub juels_per_lamport: u64,
}

/// The mathematical model of a report.
#[verifier::ext_equal]
pub struct ReportModel {
    pub median: int,
    pub observer_count: nat,
    pub observers: Seq<u8>,
    pub observations_timestamp: nat,
    pub juels_per_lamport: nat,
}

impl ReportModel {
    /// Field bounds that every representable report satisfies.
    pub open spec fn wf(self) -> bool {
        &&& -0x8000_0000_0000_0000_0000_0000_0000_0000 <= self.median
            < 0x8000_0000_0000_0000_0000_0000_0000_0000
        &&& self.observer_count < 0x100
        &&& self.observers.len() == 19
        &&& self.observations_timestamp < 0x1_0000_0000
        &&& self.juels_per_lamport < 0x1_0000_0000_0000_0000
    }
}

impl View for Report {
    type V = ReportModel;

    open spec fn view(&self) -> ReportModel {
        ReportModel {
            median: self.median as int,
            observer_count: self.observer_count as nat,
            observers: self.observers@,
            observations_timestamp: self.observations_timestamp as nat,
            juels_per_lamport: self.juels_per_lamport as nat,
        }
    }
}

/// The two's-complement bit pattern of a 128-bit signed value, as a number.
pub open spec fn median_bits(m: int) -> nat
    recommends
        -0x8000_0000_0000_0000_0000_0000_0000_0000 <= m
            < 0x8000_0000_0000_0000_0000_0000_0000_0000,
{
    if m < 0 {
        (m + 0x1_0000_0000_0000_0000_0000_0000_0000_0000) as nat
    } else {
        m as nat
    }
}

/// The signed value of a 16-byte big-endian string, two's complement.
pub open spec fn be_ival(s: Seq<u8>) -> int
    recommends
        s.len() == 16,
{
    if be_val(s) >= 0x8000_0000_0000_0000_0000_0000_0000_0000 {
        be_val(s) - 0x1_0000_0000_0000_0000_0000_0000_0000_0000
    } else {
        be_val(s) as int
    }
}

/// The report a buffer of at least 61 bytes denotes. Bytes past offset 60 and
/// the 13 padding bytes after the observers are ignored.
pub open spec fn decode_spec(s: Seq<u8>) -> ReportModel
    recommends
        s.len() >= 61,
{
    ReportModel {
        median: be_ival(s.subrange(37, 53)),
        observer_count: s[4] as nat,
        observers: s.subrange(5, 24),
        observations_timestamp: be_val(s.subrange(0, 4)),
        juels_per_lamport: be_val(s.subrange(53, 61)),
    }
}

/// The 61-byte buffer a report encodes to: five big-endian fields in wire
/// order, with 13 zero bytes of padding after the 19 observer entries.
pub open spec fn encode_spec(r: ReportModel) -> Seq<u8>
    recommends
        r.wf(),
{
    be_bytes(r.observations_timestamp, 4) + seq![r.observer_count as u8] + r.observers
        + Seq::new(13, |i: int| 0u8) + be_bytes(median_bits(r.median), 16) + be_bytes(
        r.juels_per_lamport,
        8,
    )
}

impl Report {
    /// Decodes a raw buffer. Succeeds on every buffer of at least 61 bytes
    /// and rejects shorter ones; no field value is validated beyond its
    /// fixed width, so an observer count above 19 is accepted as is.
    pub fn unpack(raw_report: &[u8]) -> (r: Result<Report, StoreError>)
        ensures
            raw_report@.len() >= 61 ==> (r matches Ok(rep) && rep@ == decode_spec(raw_report@)),
            raw_report@.len() < 61 ==> r == Err::<Report, StoreError>(StoreError::MalformedInput),
    {
        if raw_report.len() < 61 {
            return Err(StoreError::MalformedInput);
        }
        proof {
            lemma_pow256_widths();
            lemma_be_val_bound(raw_report@.subrange(0, 4));
            lemma_be_val_bound(raw_report@.subrange(37, 53));
            lemma_be_val_bound(raw_report@.subrange(53, 61));
        }
        let observations_timestamp = read_be(raw_report, 0, 4) as u32;
        let observer_count = raw_report[4];
        let mut observers: [u8; 19] = [0u8; 19];
        let mut i: usize = 0;
        while i < 19
            invariant
                i <= 19,
                raw_report@.len() >= 61,
                forall|k: int| 0 <= k < i ==> observers@[k] == raw_report@[5 + k],
            decreases 19 - i,
        {
            observers[i] = raw_report[5 + i];
            i = i + 1;
        }
        let median_u = read_be(raw_report, 37, 16);
        let median: i128 = if median_u >= 0x8000_0000_0000_0000_0000_0000_0000_0000u128 {
            ((median_u - 0x8000_0000_0000_0000_0000_0000_0000_0000u128) as i128) + i128::MIN
        } else {
            median_u as i128
        };
        let juels_per_lamport = read_be(raw_report, 53, 8) as u64;
        let rep = Report {
            median,
            observer_count,
            observers,
            observations_timestamp,
            juels_per_lamport,
        };
        proof {
            assert(rep@.observers =~= raw_report@.subrange(5, 24));
            assert(rep@ =~= decode_spec(raw_report@));
        }
        Ok(rep)
    }

    /// Encodes the report as its 61-byte wire form.
    pub fn pack(&self) -> (out: Vec<u8>)
        ensures
            out@ == encode_spec(self@),
            out@.len() == 61,
    {
        proof {
            lemma_pow256_widths();
            lemma_be_bytes_len(self@.observations_timestamp, 4);
            lemma_be_bytes_len(median_bits(self@.median), 16);
            lemma_be_bytes_len(self@.juels_per_lamport, 8);
        }
        let mut out: Vec<u8> = Vec::new();
        write_be(&mut out, self.observations_timestamp as u128, 4);
        out.push(self.observer_count);
        let ghost head = be_bytes(self@.observations_timestamp, 4) + seq![self.observer_count];
        let mut i: usize = 0;
        proof {
            assert(out@ =~= head + self.observers@.subrange(0, 0));
        }
        while i < 19
            invariant
                i <= 19,
                out@ == head + self.observers@.subrange(0, i as int),
            decreases 19 - i,
        {
            out.push(self.observers[i]);
            proof {
                assert(out@ =~= head + self.observers@.subrange(0, i + 1));
            }
            i = i + 1;
        }
        let ghost mid = head + self.observers@;
        let mut j: usize = 0;
        proof {
            assert(self.observers@.subrange(0, 19) =~= self.observers@);
            assert(out@ =~= mid + Seq::new(0, |k: int| 0u8));
        }
        while j < 13
            invariant
                j <= 13,
                out@ == mid + Seq::new(j as nat, |k: int| 0u8),
            decreases 13 - j,
        {
            out.push(0u8);
            proof {
                assert(out@ =~= mid + Seq::new((j + 1) as nat, |k: int| 0u8));
            }
            j = j + 1;
        }
        let median_u: u128 = if self.median >= 0 {
            self.median as u128
        } else {
            ((self.median - i128::MIN) as u128) + 0x8000_0000_0000_0000_0000_0000_0000_0000u128
        };
        proof {
            assert(median_u as nat == median_bits(self@.median));
        }
        write_be(&mut out, median_u, 16);
        write_be(&mut out, self.juels_per_lamport as u128, 8);
        proof {
            assert(out@ =~= encode_spec(self@));
            lemma_be_bytes_len(median_bits(self@.median), 16);
        }
        out
    }
}

/// Law: decoding an encoded report yields the report back, for every
/// representable report whose observer count does not exceed the 19 slots.
pub proof fn lemma_codec_round_trip(r: ReportModel)
    requires
        r.wf(),
        r.observer_count <= 19,
    ensures
        decode_spec(encode_spec(r)) == r,
{
    let e = encode_spec(r);
    lemma_pow256_widths();
    lemma_be_bytes_len(r.observations_timestamp, 4);
    lemma_be_bytes_len(median_bits(r.median), 16);
    lemma_be_bytes_len(r.juels_per_lamport, 8);
    assert(e.subrange(0, 4) =~= be_bytes(r.observations_timestamp, 4));
    assert(e.subrange(5, 24) =~= r.observers);
    assert(e.subrange(37, 53) =~= be_bytes(median_bits(r.median), 16));
    assert(e.subrange(53, 61) =~= be_bytes(r.juels_per_lamport, 8));
    lemma_be_bytes_val(r.observations_timestamp, 4);
    lemma_be_bytes_val(median_bits(r.median), 16);
    lemma_be_bytes_val(r.juels_per_lamport, 8);
    assert(decode_spec(e) =~= r);
}

} // verus!
