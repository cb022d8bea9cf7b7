//! Deterministic derivation of program-owned slot addresses.
//!
//! A record's address is not chosen freely: it is derived from a namespace —
//! an ordered pair of byte strings — together with the program's own identity,
//! by searching a bounded space of disambiguator values for an address that no
//! externally controlled signing key can reach. Identical namespaces always
//! yield the identical address, so independent callers agree on the slot.

use vstd::prelude::*;
use crate::bytes::{eq_bytes, le_bytes, push_le_bytes, sub_vec};

verus! {

/// A 32-byte storage-slot address.
pub struct Address {
    pub bytes: Vec<u8>,
}

impl View for Address {
    type V = Seq<u8>;

    open spec fn view(&self) -> Seq<u8> {
        self.bytes@
    }
}

impl Address {
    /// A well-formed address holds exactly 32 bytes.
    pub open spec fn wf(&self) -> bool {
        self@.len() == 32
    }

    pub fn new(bytes: Vec<u8>) -> (r: Address)
        requires
            bytes@.len() == 32,
        ensures
            r@ == bytes@,
            r.wf(),
    {
        Address { bytes }
    }

    /// An independent copy of the address.
    pub fn dup(&self) -> (r: Address)
        ensures
            r@ == self@,
    {
        let copy = sub_vec(&self.bytes, 0, self.bytes.len());
        proof {
            assert(copy@ =~= self@);
        }
        Address { bytes: copy }
    }

    pub fn eq_addr(&self, other: &Address) -> (r: bool)
        ensures
            r == (self@ == other@),
    {
        eq_bytes(&self.bytes, &other.bytes)
    }
}

/// Whether the bounded disambiguator search finds a program-owned address
/// for the namespace `(seed_a, seed_b)` under `program`.
pub uninterp spec fn pda_found(seed_a: Seq<u8>, seed_b: Seq<u8>, program: Seq<u8>) -> bool;

/// The address and disambiguator that the search yields when it succeeds.
pub uninterp spec fn pda_of(seed_a: Seq<u8>, seed_b: Seq<u8>, program: Seq<u8>) -> (Seq<u8>, u8);

/// Relies on `solana_program::pubkey::Pubkey::try_find_program_address`: its
/// result is a deterministic function of the seeds and the program id alone
/// (a digest-based search downward over disambiguator values), it returns a
/// 32-byte address, and it returns `None` exactly when no disambiguator
/// yields a program-owned (off-curve) address for this namespace.
#[verifier::external_body]
fn find_program_address(seed_a: &Vec<u8>, seed_b: &Vec<u8>, program: &Address) -> (r: Option<
    (Address, u8),
>)
    requires
        program.wf(),
    ensures
        (r is Some) == pda_found(seed_a@, seed_b@, program@),
        r matches Some(p) ==> p.0@ == pda_of(seed_a@, seed_b@, program@).0 && p.1 == pda_of(
            seed_a@,
            seed_b@,
            program@,
        ).1 && p.0@.len() == 32,
{
    let program_id = solana_program::pubkey::Pubkey::try_from(program.bytes.as_slice()).unwrap();
    let found = solana_program::pubkey::Pubkey::try_find_program_address(
        &[seed_a.as_slice(), seed_b.as_slice()],
        &program_id,
    );
    found.map(|p: (solana_program::pubkey::Pubkey, u8)| (
        Address { bytes: p.0.to_bytes().to_vec() },
        p.1,
    ))
}

/// Derives the program-owned address for the namespace `(seed_a, seed_b)`,
/// with its disambiguator; `None` when no disambiguator yields one.
pub fn derive_address(seed_a: &Vec<u8>, seed_b: &Vec<u8>, program: &Address) -> (r: Option<(Address, u8)>)
    requires
        program.wf(),
    ensures
        (r is Some) == pda_found(seed_a@, seed_b@, program@),
        r matches Some(p) ==> p.0@ == pda_of(seed_a@, seed_b@, program@).0 && p.1 == pda_of(
            seed_a@,
            seed_b@,
            program@,
        ).1 && p.0.wf(),
{
    find_program_address(seed_a, seed_b, program)
}

/// Checks a caller-supplied address against the recomputed derivation.
pub fn verify_derived(seed_a: &Vec<u8>, seed_b: &Vec<u8>, program: &Address, candidate: &Address) -> (r:
    bool)
    requires
        program.wf(),
    ensures
        r == (pda_found(seed_a@, seed_b@, program@) && pda_of(seed_a@, seed_b@, program@).0
            == candidate@),
{
    match derive_address(seed_a, seed_b, program) {
        Some(p) => p.0.eq_addr(candidate),
        None => false,
    }
}

/// Law: derivation is deterministic. The derived address and disambiguator
/// are a function of the namespace and program identity alone, so any two
/// results computed over the same namespace agree.
pub proof fn lemma_derive_deterministic(
    seed_a: Seq<u8>,
    seed_b: Seq<u8>,
    program: Seq<u8>,
    r1: (Seq<u8>, u8),
    r2: (Seq<u8>, u8),
)
    requires
        r1 == pda_of(seed_a, seed_b, program),
        r2 == pda_of(seed_a, seed_b, program),
    ensures
        r1 == r2,
{
}

/// The fixed label that extends a review's address into its comment-counter
/// namespace: the bytes of `comment_counter`.
pub open spec fn counter_label() -> Seq<u8> {
    seq![99u8, 111u8, 109u8, 109u8, 101u8, 110u8, 116u8, 95u8, 99u8, 111u8, 117u8, 110u8, 116u8, 101u8, 114u8]
}

pub fn counter_label_bytes() -> (r: Vec<u8>)
    ensures
        r@ == counter_label(),
{
    let mut v: Vec<u8> = Vec::new();
    v.push(99u8);
    v.push(111u8);
    v.push(109u8);
    v.push(109u8);
    v.push(101u8);
    v.push(110u8);
    v.push(116u8);
    v.push(95u8);
    v.push(99u8);
    v.push(111u8);
    v.push(117u8);
    v.push(110u8);
    v.push(116u8);
    v.push(101u8);
    v.push(114u8);
    proof {
        assert(v@ =~= counter_label());
    }
    v
}

/// The big-endian bytes of a comment id, the second namespace part of a
/// comment slot.
pub open spec fn be_bytes8(x: u64) -> Seq<u8> {
    Seq::new(8, |i: int| le_bytes(x as int, 8)[7 - i])
}

pub fn u64_be_bytes(x: u64) -> (r: Vec<u8>)
    ensures
        r@ == be_bytes8(x),
{
    let mut le: Vec<u8> = Vec::new();
    push_le_bytes(&mut le, x, 8);
    proof {
        crate::bytes::lemma_le_bytes_len(x as int, 8);
    }
    let mut out: Vec<u8> = Vec::new();
    let mut i: usize = 0;
    while i < 8
        invariant
            i <= 8,
            le@ == le_bytes(x as int, 8),
            le@.len() == 8,
            out@ == be_bytes8(x).take(i as int),
        decreases 8 - i,
    {
        proof {
            assert(be_bytes8(x).take(i + 1) =~= be_bytes8(x).take(i as int).push(le@[7 - i]));
        }
        out.push(le[7 - i]);
        i = i + 1;
    }
    proof {
        assert(out@ =~= be_bytes8(x));
    }
    out
}

} // verus!
