//! The lifecycle controller: the state machine that creates review records,
//! updates them, and appends comments.
//!
//! Each operation works on explicit slot values — address, recorded owner,
//! allocation state, and raw record bytes — handed in by the surrounding
//! dispatch shim, and is specified as a pure transition over those values.
//! A slot passes through `Unallocated → Allocated-Uninitialized →
//! Initialized`; creation requires the last step not yet taken, update
//! requires it taken.

use vstd::prelude::*;
use vstd::string::StrSliceExecFns;
use crate::addr::{
    be_bytes8, counter_label, counter_label_bytes, derive_address, pda_found, pda_of, u64_be_bytes, Address,
};
use crate::bytes::{eq_bytes, write_prefix, zero_bytes, zero_vec};
use crate::error::ReviewError;
use crate::state::{
    comment_disc, comment_disc_bytes, comment_or_blank, counter_disc, counter_disc_bytes,
    counter_or_blank, decode_comment_or_blank, decode_counter_or_blank, decode_review_or_blank,
    enc_comment, enc_counter, enc_review, encode_comment, encode_counter, encode_review,
    lemma_comment_round_trip, lemma_counter_round_trip, lemma_dec_counter_bounds,
    lemma_dec_review_bounds, lemma_review_round_trip, review_disc, review_disc_bytes,
    review_or_blank, spec_comment_size, spec_review_size, CommentV, CounterV, MovieAccountState,
    MovieComment, MovieCommentCounter, ReviewV, COUNTER_RECORD_SIZE, REVIEW_SLOT_CAPACITY,
};
use vstd::utf8::encode_utf8;

verus! {

// ---------------------------------------------------------------------------
// Slots and principals
// ---------------------------------------------------------------------------

/// Model of a storage slot.
#[verifier::ext_equal]
pub struct SlotV {
    pub address: Seq<u8>,
    pub owner: Seq<u8>,
    pub allocated: bool,
    pub data: Seq<u8>,
}

/// A caller-addressable storage slot: its address, its recorded owner, and
/// the raw bytes of the record it holds.
pub struct Slot {
    pub address: Address,
    pub owner: Address,
    pub allocated: bool,
    pub data: Vec<u8>,
}

impl View for Slot {
    type V = SlotV;

    open spec fn view(&self) -> SlotV {
        SlotV {
            address: self.address@,
            owner: self.owner@,
            allocated: self.allocated,
            data: self.data@,
        }
    }
}

impl Slot {
    pub open spec fn wf(&self) -> bool {
        self.address@.len() == 32 && self.owner@.len() == 32
    }
}

/// Model of a requesting principal.
#[verifier::ext_equal]
pub struct PrincipalV {
    pub address: Seq<u8>,
    pub proved_authorization: bool,
}

/// The identity on whose behalf an operation runs; signature verification
/// happens outside this core and arrives as `proved_authorization`.
pub struct Principal {
    pub address: Address,
    pub proved_authorization: bool,
}

impl View for Principal {
    type V = PrincipalV;

    open spec fn view(&self) -> PrincipalV {
        PrincipalV { address: self.address@, proved_authorization: self.proved_authorization }
    }
}

impl Principal {
    pub open spec fn wf(&self) -> bool {
        self.address@.len() == 32
    }
}

// ---------------------------------------------------------------------------
// The allocation capability, modelled on slot values
// ---------------------------------------------------------------------------

/// What allocation does to a slot value: a fresh slot gets a zeroed buffer
/// of the requested size owned by the program; a slot that is already
/// allocated is left as it stands, so a retried creation can re-attempt the
/// uninitialized remainder.
pub open spec fn alloc_spec(s: SlotV, program: Seq<u8>, size: int) -> SlotV {
    if s.allocated {
        s
    } else {
        SlotV { owner: program, allocated: true, data: zero_bytes(size), ..s }
    }
}

/// A record serialized over the front of a slot buffer, the tail kept.
pub open spec fn written(data: Seq<u8>, rec: Seq<u8>) -> Seq<u8> {
    rec + data.skip(rec.len() as int)
}

/// Allocates a slot. The surrounding shim performs the ledger's own
/// allocation — funding, rent — through the external capability; within this
/// model the slot's owner and zeroed buffer are the whole effect, and an
/// already-allocated slot is left unchanged.
pub fn allocate(slot: &mut Slot, program_id: &Address, size: usize)
    requires
        old(slot).wf(),
        program_id.wf(),
    ensures
        final(slot)@ == alloc_spec(old(slot)@, program_id@, size as int),
        final(slot).wf(),
{
    if !slot.allocated {
        slot.owner = program_id.dup();
        slot.data = zero_vec(size);
        slot.allocated = true;
        proof {
            assert(slot@ =~= alloc_spec(old(slot)@, program_id@, size as int));
        }
    } else {
        proof {
            assert(slot@ =~= alloc_spec(old(slot)@, program_id@, size as int));
        }
    }
}

// ---------------------------------------------------------------------------
// Create-Review
// ---------------------------------------------------------------------------

/// The Create-Review state machine, as a pure transition: the result and
/// the review and counter slots after the operation.
pub open spec fn create_transition(
    program: Seq<u8>,
    p: PrincipalV,
    r0: SlotV,
    c0: SlotV,
    title: Seq<u8>,
    rating: u8,
    description: Seq<u8>,
) -> (Result<(), ReviewError>, SlotV, SlotV) {
    if !p.proved_authorization {
        (Err(ReviewError::Unauthorized), r0, c0)
    } else if !pda_found(p.address, title, program) || pda_of(p.address, title, program).0
        != r0.address {
        (Err(ReviewError::InvalidAddress), r0, c0)
    } else if !pda_found(pda_of(p.address, title, program).0, counter_label(), program) || pda_of(
        pda_of(p.address, title, program).0,
        counter_label(),
        program,
    ).0 != c0.address {
        (Err(ReviewError::InvalidAddress), r0, c0)
    } else if rating < 1 || rating > 5 {
        (Err(ReviewError::InvalidRating), r0, c0)
    } else if spec_review_size(title, description) > 1000 {
        (Err(ReviewError::PayloadTooLarge), r0, c0)
    } else {
        let r1 = alloc_spec(r0, program, 1000);
        if review_or_blank(r1.data).is_initialized {
            (Err(ReviewError::AlreadyInitialized), r1, c0)
        } else {
            let rec = enc_review(
                ReviewV {
                    discriminator: review_disc(),
                    is_initialized: true,
                    title,
                    rating,
                    description,
                },
            );
            if rec.len() > r1.data.len() {
                (Err(ReviewError::PayloadTooLarge), r1, c0)
            } else {
                let r2 = SlotV { data: written(r1.data, rec), ..r1 };
                let c1 = alloc_spec(c0, program, 20);
                if counter_or_blank(c1.data).is_initialized {
                    (Err(ReviewError::AlreadyInitialized), r2, c1)
                } else {
                    let crec = enc_counter(
                        CounterV {
                            discriminator: counter_disc(),
                            is_initialized: true,
                            counter: 0,
                        },
                    );
                    if crec.len() > c1.data.len() {
                        (Err(ReviewError::PayloadTooLarge), r2, c1)
                    } else {
                        (Ok(()), r2, SlotV { data: written(c1.data, crec), ..c1 })
                    }
                }
            }
        }
    }
}

/// Creates a review record and its comment counter.
///
/// The requesting principal must have proven authorization; the two target
/// slots must stand at the addresses derived from `(principal, title)` and
/// `(review address, counter label)`; the rating must lie in `1 ..= 5` and
/// the serialized review within the fixed slot capacity. A slot that
/// already holds an initialized record is refused.
pub fn add_movie_review(
    program_id: &Address,
    initializer: &Principal,
    review_slot: &mut Slot,
    counter_slot: &mut Slot,
    title: String,
    rating: u8,
    description: String,
) -> (r: Result<(), ReviewError>)
    requires
        program_id.wf(),
        initializer.wf(),
        old(review_slot).wf(),
        old(counter_slot).wf(),
    ensures
        ({
            let t = create_transition(
                program_id@,
                initializer@,
                old(review_slot)@,
                old(counter_slot)@,
                encode_utf8(title@),
                rating,
                encode_utf8(description@),
            );
            r == t.0 && final(review_slot)@ == t.1 && final(counter_slot)@ == t.2
        }),
{
    let title_b = title.as_str().as_bytes_vec();
    let description_b = description.as_str().as_bytes_vec();
    if !initializer.proved_authorization {
        return Err(ReviewError::Unauthorized);
    }
    let pda = match derive_address(&initializer.address.bytes, &title_b, program_id) {
        Some(p) => p.0,
        None => {
            return Err(ReviewError::InvalidAddress);
        },
    };
    if !pda.eq_addr(&review_slot.address) {
        return Err(ReviewError::InvalidAddress);
    }
    let label = counter_label_bytes();
    let counter_pda = match derive_address(&pda.bytes, &label, program_id) {
        Some(p) => p.0,
        None => {
            return Err(ReviewError::InvalidAddress);
        },
    };
    if !counter_pda.eq_addr(&counter_slot.address) {
        return Err(ReviewError::InvalidAddress);
    }
    if rating < 1 || rating > 5 {
        return Err(ReviewError::InvalidRating);
    }
    let tlen = title_b.len();
    let dlen = description_b.len();
    if tlen > 1000 || dlen > 1000 || 20 + tlen + dlen > 1000 {
        return Err(ReviewError::PayloadTooLarge);
    }
    allocate(review_slot, program_id, REVIEW_SLOT_CAPACITY);
    let account_data = decode_review_or_blank(&review_slot.data);
    if account_data.is_initialized {
        return Err(ReviewError::AlreadyInitialized);
    }
    let rec = MovieAccountState {
        discriminator: review_disc_bytes(),
        is_initialized: true,
        title: title_b,
        rating,
        description: description_b,
    };
    let rec_bytes = encode_review(&rec);
    if rec_bytes.len() > review_slot.data.len() {
        return Err(ReviewError::PayloadTooLarge);
    }
    write_prefix(&mut review_slot.data, &rec_bytes);
    allocate(counter_slot, program_id, COUNTER_RECORD_SIZE);
    let counter_data = decode_counter_or_blank(&counter_slot.data);
    if counter_data.is_initialized {
        return Err(ReviewError::AlreadyInitialized);
    }
    let crec = MovieCommentCounter {
        discriminator: counter_disc_bytes(),
        is_initialized: true,
        counter: 0,
    };
    let crec_bytes = encode_counter(&crec);
    if crec_bytes.len() > counter_slot.data.len() {
        return Err(ReviewError::PayloadTooLarge);
    }
    write_prefix(&mut counter_slot.data, &crec_bytes);
    Ok(())
}

// ---------------------------------------------------------------------------
// Update-Review
// ---------------------------------------------------------------------------

/// The Update-Review state machine: the result and the review slot after
/// the operation. The stored title is immutable; only rating and
/// description are overwritten.
pub open spec fn update_transition(
    program: Seq<u8>,
    p: PrincipalV,
    r0: SlotV,
    title: Seq<u8>,
    rating: u8,
    description: Seq<u8>,
) -> (Result<(), ReviewError>, SlotV) {
    if r0.owner != program {
        (Err(ReviewError::NotOwned), r0)
    } else if !p.proved_authorization {
        (Err(ReviewError::Unauthorized), r0)
    } else if !pda_found(p.address, title, program) || pda_of(p.address, title, program).0
        != r0.address {
        (Err(ReviewError::InvalidAddress), r0)
    } else if rating < 1 || rating > 5 {
        (Err(ReviewError::InvalidRating), r0)
    } else if spec_review_size(title, description) > 1000 {
        (Err(ReviewError::PayloadTooLarge), r0)
    } else {
        let stored = review_or_blank(r0.data);
        if !stored.is_initialized {
            (Err(ReviewError::NotFound), r0)
        } else if stored.discriminator != review_disc() {
            (Err(ReviewError::InvalidAddress), r0)
        } else {
            let rec = enc_review(
                ReviewV {
                    discriminator: stored.discriminator,
                    is_initialized: true,
                    title: stored.title,
                    rating,
                    description,
                },
            );
            if rec.len() > r0.data.len() {
                (Err(ReviewError::PayloadTooLarge), r0)
            } else {
                (Ok(()), SlotV { data: written(r0.data, rec), ..r0 })
            }
        }
    }
}

/// Updates the rating and description of an existing review record.
///
/// The slot must be owned by this program, the principal authorized, the
/// address derived from `(principal, title)`, and the slot must hold an
/// initialized review record; the title is never overwritten.
pub fn update_movie_review(
    program_id: &Address,
    initializer: &Principal,
    review_slot: &mut Slot,
    title: String,
    rating: u8,
    description: String,
) -> (r: Result<(), ReviewError>)
    requires
        program_id.wf(),
        initializer.wf(),
        old(review_slot).wf(),
    ensures
        ({
            let t = update_transition(
                program_id@,
                initializer@,
                old(review_slot)@,
                encode_utf8(title@),
                rating,
                encode_utf8(description@),
            );
            r == t.0 && final(review_slot)@ == t.1
        }),
{
    let title_b = title.as_str().as_bytes_vec();
    let description_b = description.as_str().as_bytes_vec();
    if !review_slot.owner.eq_addr(program_id) {
        return Err(ReviewError::NotOwned);
    }
    if !initializer.proved_authorization {
        return Err(ReviewError::Unauthorized);
    }
    let pda = match derive_address(&initializer.address.bytes, &title_b, program_id) {
        Some(p) => p.0,
        None => {
            return Err(ReviewError::InvalidAddress);
        },
    };
    if !pda.eq_addr(&review_slot.address) {
        return Err(ReviewError::InvalidAddress);
    }
    if rating < 1 || rating > 5 {
        return Err(ReviewError::InvalidRating);
    }
    let tlen = title_b.len();
    let dlen = description_b.len();
    if tlen > 1000 || dlen > 1000 || 20 + tlen + dlen > 1000 {
        return Err(ReviewError::PayloadTooLarge);
    }
    let stored = decode_review_or_blank(&review_slot.data);
    if !stored.is_initialized {
        return Err(ReviewError::NotFound);
    }
    let rdisc = review_disc_bytes();
    if !eq_bytes(&stored.discriminator, &rdisc) {
        return Err(ReviewError::InvalidAddress);
    }
    proof {
        lemma_dec_review_bounds(review_slot@.data);
    }
    let rec = MovieAccountState {
        discriminator: stored.discriminator,
        is_initialized: true,
        title: stored.title,
        rating,
        description: description_b,
    };
    let rec_bytes = encode_review(&rec);
    if rec_bytes.len() > review_slot.data.len() {
        return Err(ReviewError::PayloadTooLarge);
    }
    write_prefix(&mut review_slot.data, &rec_bytes);
    Ok(())
}

// ---------------------------------------------------------------------------
// Add-Comment
// ---------------------------------------------------------------------------

/// The Add-Comment state machine: the result and the counter and comment
/// slots after the operation.
///
/// The comment id is read from the counter, and the incremented counter is
/// persisted before the comment slot is validated or written: an abort
/// after that point may leave the counter ahead (a gap in ids), never
/// behind (a duplicate id). A counter whose id space is exhausted fails as
/// an allocation failure.
pub open spec fn comment_transition(
    program: Seq<u8>,
    p: PrincipalV,
    review_addr: Seq<u8>,
    cnt0: SlotV,
    cm0: SlotV,
    comment: Seq<u8>,
) -> (Result<(), ReviewError>, SlotV, SlotV) {
    let stored = counter_or_blank(cnt0.data);
    if !stored.is_initialized {
        (Err(ReviewError::NotFound), cnt0, cm0)
    } else if stored.discriminator != counter_disc() {
        (Err(ReviewError::InvalidAddress), cnt0, cm0)
    } else if stored.counter == 0xFFFF_FFFF_FFFF_FFFFu64 {
        (Err(ReviewError::AllocationFailed), cnt0, cm0)
    } else {
        let id = stored.counter;
        let crec = enc_counter(
            CounterV {
                discriminator: stored.discriminator,
                is_initialized: true,
                counter: (id + 1) as u64,
            },
        );
        let cnt1 = SlotV { data: written(cnt0.data, crec), ..cnt0 };
        if !pda_found(review_addr, be_bytes8(id), program) || pda_of(
            review_addr,
            be_bytes8(id),
            program,
        ).0 != cm0.address {
            (Err(ReviewError::InvalidAddress), cnt1, cm0)
        } else if comment.len() >= 0x1_0000_0000 - 88 {
            (Err(ReviewError::PayloadTooLarge), cnt1, cm0)
        } else {
            let cm1 = alloc_spec(cm0, program, spec_comment_size(comment));
            if comment_or_blank(cm1.data).is_initialized {
                (Err(ReviewError::AlreadyInitialized), cnt1, cm1)
            } else {
                let rec = enc_comment(
                    CommentV {
                        discriminator: comment_disc(),
                        is_initialized: true,
                        id,
                        review: review_addr,
                        commenter: p.address,
                        comment,
                    },
                );
                if rec.len() > cm1.data.len() {
                    (Err(ReviewError::PayloadTooLarge), cnt1, cm1)
                } else {
                    (Ok(()), cnt1, SlotV { data: written(cm1.data, rec), ..cm1 })
                }
            }
        }
    }
}

/// Appends a comment to the review at `review_address`, drawing its id from
/// the review's comment counter.
pub fn add_comment(
    program_id: &Address,
    initializer: &Principal,
    review_address: &Address,
    counter_slot: &mut Slot,
    comment_slot: &mut Slot,
    comment: String,
) -> (r: Result<(), ReviewError>)
    requires
        program_id.wf(),
        initializer.wf(),
        review_address.wf(),
        old(counter_slot).wf(),
        old(comment_slot).wf(),
    ensures
        ({
            let t = comment_transition(
                program_id@,
                initializer@,
                review_address@,
                old(counter_slot)@,
                old(comment_slot)@,
                encode_utf8(comment@),
            );
            r == t.0 && final(counter_slot)@ == t.1 && final(comment_slot)@ == t.2
        }),
{
    let comment_b = comment.as_str().as_bytes_vec();
    let counter_data = decode_counter_or_blank(&counter_slot.data);
    if !counter_data.is_initialized {
        return Err(ReviewError::NotFound);
    }
    let cdisc = counter_disc_bytes();
    if !eq_bytes(&counter_data.discriminator, &cdisc) {
        return Err(ReviewError::InvalidAddress);
    }
    if counter_data.counter == 0xFFFF_FFFF_FFFF_FFFFu64 {
        return Err(ReviewError::AllocationFailed);
    }
    let id = counter_data.counter;
    proof {
        lemma_dec_counter_bounds(counter_slot@.data);
        crate::bytes::lemma_le_bytes_len(id as int + 1, 8);
        crate::bytes::lemma_le_bytes_len(counter_data.discriminator@.len() as int, 4);
    }
    let new_counter = MovieCommentCounter {
        discriminator: counter_data.discriminator,
        is_initialized: true,
        counter: id + 1,
    };
    let crec_bytes = encode_counter(&new_counter);
    write_prefix(&mut counter_slot.data, &crec_bytes);
    let id_bytes = u64_be_bytes(id);
    let pda = match derive_address(&review_address.bytes, &id_bytes, program_id) {
        Some(p) => p.0,
        None => {
            return Err(ReviewError::InvalidAddress);
        },
    };
    if !pda.eq_addr(&comment_slot.address) {
        return Err(ReviewError::InvalidAddress);
    }
    if comment_b.len() as u64 >= 0x1_0000_0000u64 - 88 {
        return Err(ReviewError::PayloadTooLarge);
    }
    let size = 88 + comment_b.len();
    allocate(comment_slot, program_id, size);
    let existing = decode_comment_or_blank(&comment_slot.data);
    if existing.is_initialized {
        return Err(ReviewError::AlreadyInitialized);
    }
    let rec = MovieComment {
        discriminator: comment_disc_bytes(),
        is_initialized: true,
        id,
        review: review_address.dup(),
        commenter: initializer.address.dup(),
        comment: comment_b,
    };
    let rec_bytes = encode_comment(&rec);
    if rec_bytes.len() > comment_slot.data.len() {
        return Err(ReviewError::PayloadTooLarge);
    }
    write_prefix(&mut comment_slot.data, &rec_bytes);
    Ok(())
}

// ---------------------------------------------------------------------------
// Laws of the state machine
// ---------------------------------------------------------------------------

/// Law: after a successful Create-Review, the review slot reads back as an
/// initialized review with the given title, description and a rating in
/// `1 ..= 5`, and the counter slot as an initialized counter at zero.
#[verifier::rlimit(100)]
pub proof fn lemma_create_success(
    program: Seq<u8>,
    p: PrincipalV,
    r0: SlotV,
    c0: SlotV,
    title: Seq<u8>,
    rating: u8,
    description: Seq<u8>,
)
    requires
        create_transition(program, p, r0, c0, title, rating, description).0 is Ok,
    ensures
        ({
            let t = create_transition(program, p, r0, c0, title, rating, description);
            &&& 1 <= rating <= 5
            &&& review_or_blank(t.1.data) == (ReviewV {
                discriminator: review_disc(),
                is_initialized: true,
                title,
                rating,
                description,
            })
            &&& counter_or_blank(t.2.data) == (CounterV {
                discriminator: counter_disc(),
                is_initialized: true,
                counter: 0,
            })
            &&& t.1.allocated && t.2.allocated
            &&& t.1.address == r0.address && t.2.address == c0.address
        }),
{
    let t = create_transition(program, p, r0, c0, title, rating, description);
    let r1 = alloc_spec(r0, program, 1000);
    let v = ReviewV { discriminator: review_disc(), is_initialized: true, title, rating, description };
    let rec = enc_review(v);
    lemma_review_round_trip(v, r1.data.skip(rec.len() as int));
    let c1 = alloc_spec(c0, program, 20);
    let cv = CounterV { discriminator: counter_disc(), is_initialized: true, counter: 0 };
    let crec = enc_counter(cv);
    lemma_counter_round_trip(cv, c1.data.skip(crec.len() as int));
}

/// Law: a rating of 0, 6 or anything else outside `1 ..= 5` is rejected
/// with `InvalidRating` and causes no state change, whenever the operation
/// gets as far as the rating check (the principal is authorized and both
/// supplied addresses match their derivations).
pub proof fn lemma_create_rejects_bad_rating(
    program: Seq<u8>,
    p: PrincipalV,
    r0: SlotV,
    c0: SlotV,
    title: Seq<u8>,
    rating: u8,
    description: Seq<u8>,
)
    requires
        rating < 1 || rating > 5,
        p.proved_authorization,
        pda_found(p.address, title, program),
        pda_of(p.address, title, program).0 == r0.address,
        pda_found(pda_of(p.address, title, program).0, counter_label(), program),
        pda_of(pda_of(p.address, title, program).0, counter_label(), program).0 == c0.address,
    ensures
        create_transition(program, p, r0, c0, title, rating, description) == (
            Err::<(), ReviewError>(ReviewError::InvalidRating),
            r0,
            c0,
        ),
{
}

/// Law: as above, for Update-Review.
pub proof fn lemma_update_rejects_bad_rating(
    program: Seq<u8>,
    p: PrincipalV,
    r0: SlotV,
    title: Seq<u8>,
    rating: u8,
    description: Seq<u8>,
)
    requires
        rating < 1 || rating > 5,
        r0.owner == program,
        p.proved_authorization,
        pda_found(p.address, title, program),
        pda_of(p.address, title, program).0 == r0.address,
    ensures
        update_transition(program, p, r0, title, rating, description) == (
            Err::<(), ReviewError>(ReviewError::InvalidRating),
            r0,
        ),
{
}

/// Law: Create-Review is not re-entrant. After a successful creation, the
/// identical operation run again on the resulting slots fails with
/// `AlreadyInitialized` and leaves both slots exactly as the first call
/// left them.
pub proof fn lemma_create_not_reentrant(
    program: Seq<u8>,
    p: PrincipalV,
    r0: SlotV,
    c0: SlotV,
    title: Seq<u8>,
    rating: u8,
    description: Seq<u8>,
)
    requires
        create_transition(program, p, r0, c0, title, rating, description).0 is Ok,
    ensures
        ({
            let t1 = create_transition(program, p, r0, c0, title, rating, description);
            let t2 = create_transition(program, p, t1.1, t1.2, title, rating, description);
            t2.0 == Err::<(), ReviewError>(ReviewError::AlreadyInitialized) && t2.1 == t1.1
                && t2.2 == t1.2
        }),
{
    lemma_create_success(program, p, r0, c0, title, rating, description);
    let t1 = create_transition(program, p, r0, c0, title, rating, description);
    assert(alloc_spec(t1.1, program, 1000) == t1.1);
}

/// Law: after a successful Update-Review the stored review keeps its title
/// and discriminator, stays initialized, and carries the new rating — still
/// in `1 ..= 5` — and the new description.
pub proof fn lemma_update_success(
    program: Seq<u8>,
    p: PrincipalV,
    r0: SlotV,
    title: Seq<u8>,
    rating: u8,
    description: Seq<u8>,
)
    requires
        update_transition(program, p, r0, title, rating, description).0 is Ok,
    ensures
        ({
            let t = update_transition(program, p, r0, title, rating, description);
            &&& 1 <= rating <= 5
            &&& review_or_blank(t.1.data) == (ReviewV {
                discriminator: review_disc(),
                is_initialized: true,
                title: review_or_blank(r0.data).title,
                rating,
                description,
            })
            &&& t.1.address == r0.address && t.1.owner == r0.owner && t.1.allocated
                == r0.allocated
        }),
{
    let stored = review_or_blank(r0.data);
    lemma_dec_review_bounds(r0.data);
    let v = ReviewV {
        discriminator: stored.discriminator,
        is_initialized: true,
        title: stored.title,
        rating,
        description,
    };
    let rec = enc_review(v);
    lemma_review_round_trip(v, r0.data.skip(rec.len() as int));
}

/// Law: Update-Review on a slot that holds no initialized review — in
/// particular one whose buffer is empty or all zeroes, a never-created
/// address — fails with `NotFound` and changes nothing; the update path
/// allocates no slot on any outcome. Stated for requests that pass the
/// owner, authorization, address, rating and size checks in front of the
/// lookup.
pub proof fn lemma_update_not_found(
    program: Seq<u8>,
    p: PrincipalV,
    r0: SlotV,
    title: Seq<u8>,
    rating: u8,
    description: Seq<u8>,
)
    requires
        r0.owner == program,
        p.proved_authorization,
        pda_found(p.address, title, program),
        pda_of(p.address, title, program).0 == r0.address,
        1 <= rating <= 5,
        spec_review_size(title, description) <= 1000,
        !review_or_blank(r0.data).is_initialized,
    ensures
        update_transition(program, p, r0, title, rating, description) == (
            Err::<(), ReviewError>(ReviewError::NotFound),
            r0,
        ),
{
}

/// Law: one successful Add-Comment claims exactly the counter's current
/// value as the comment id and leaves the counter one above it, so the
/// persisted counter is always strictly ahead of every id ever handed out.
#[verifier::rlimit(100)]
pub proof fn lemma_comment_step(
    program: Seq<u8>,
    p: PrincipalV,
    review_addr: Seq<u8>,
    cnt0: SlotV,
    cm0: SlotV,
    comment: Seq<u8>,
)
    requires
        review_addr.len() == 32,
        p.address.len() == 32,
        comment_transition(program, p, review_addr, cnt0, cm0, comment).0 is Ok,
    ensures
        ({
            let t = comment_transition(program, p, review_addr, cnt0, cm0, comment);
            let id = counter_or_blank(cnt0.data).counter;
            &&& id < 0xFFFF_FFFF_FFFF_FFFFu64
            &&& counter_or_blank(t.1.data) == (CounterV {
                discriminator: counter_disc(),
                is_initialized: true,
                counter: (id + 1) as u64,
            })
            &&& comment_or_blank(t.2.data) == (CommentV {
                discriminator: comment_disc(),
                is_initialized: true,
                id,
                review: review_addr,
                commenter: p.address,
                comment,
            })
        }),
{
    let stored = counter_or_blank(cnt0.data);
    let id = stored.counter;
    let cv = CounterV {
        discriminator: stored.discriminator,
        is_initialized: true,
        counter: (id + 1) as u64,
    };
    let crec = enc_counter(cv);
    lemma_counter_round_trip(cv, cnt0.data.skip(crec.len() as int));
    let cnt1 = comment_transition(program, p, review_addr, cnt0, cm0, comment).1;
    let cm1 = alloc_spec(cm0, program, spec_comment_size(comment));
    let v = CommentV {
        discriminator: comment_disc(),
        is_initialized: true,
        id,
        review: review_addr,
        commenter: p.address,
        comment,
    };
    let rec = enc_comment(v);
    lemma_comment_round_trip(v, cm1.data.skip(rec.len() as int));
}

/// Law: within one review, ids assigned by successive successful
/// Add-Comment operations are strictly increasing, hence never repeated:
/// the second of two successful calls through the same counter slot claims
/// exactly the id after the first one's.
pub proof fn lemma_comment_ids_strictly_increase(
    program: Seq<u8>,
    p1: PrincipalV,
    p2: PrincipalV,
    review_addr: Seq<u8>,
    cnt0: SlotV,
    cm0: SlotV,
    cm1: SlotV,
    comment1: Seq<u8>,
    comment2: Seq<u8>,
)
    requires
        review_addr.len() == 32,
        p1.address.len() == 32,
        p2.address.len() == 32,
        comment_transition(program, p1, review_addr, cnt0, cm0, comment1).0 is Ok,
        comment_transition(
            program,
            p2,
            review_addr,
            comment_transition(program, p1, review_addr, cnt0, cm0, comment1).1,
            cm1,
            comment2,
        ).0 is Ok,
    ensures
        ({
            let t1 = comment_transition(program, p1, review_addr, cnt0, cm0, comment1);
            let t2 = comment_transition(program, p2, review_addr, t1.1, cm1, comment2);
            let id1 = comment_or_blank(t1.2.data).id;
            let id2 = comment_or_blank(t2.2.data).id;
            id2 == id1 + 1 && id2 > id1
        }),
{
    lemma_comment_step(program, p1, review_addr, cnt0, cm0, comment1);
    let t1 = comment_transition(program, p1, review_addr, cnt0, cm0, comment1);
    lemma_comment_step(program, p2, review_addr, t1.1, cm1, comment2);
}

/// Law: an Add-Comment against a counter slot that holds no initialized
/// counter — an uninitialized or never-created counter — fails with
/// `NotFound` and changes neither slot.
pub proof fn lemma_comment_uninitialized_counter(
    program: Seq<u8>,
    p: PrincipalV,
    review_addr: Seq<u8>,
    cnt0: SlotV,
    cm0: SlotV,
    comment: Seq<u8>,
)
    requires
        !counter_or_blank(cnt0.data).is_initialized,
    ensures
        comment_transition(program, p, review_addr, cnt0, cm0, comment) == (
            Err::<(), ReviewError>(ReviewError::NotFound),
            cnt0,
            cm0,
        ),
{
}

} // verus!
