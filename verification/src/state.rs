//! The record store: binary layouts, sizing, and serialization of the three
//! record types — Review, Comment-Counter and Comment.
//!
//! Every record starts with a length-prefixed discriminator string naming its
//! type, then an initialization flag; strings are length-prefixed with a
//! 4-byte little-endian count, integers are fixed-width little-endian, and
//! addresses are 32 raw bytes. Deserialization of an all-zero or undersized
//! buffer yields a record whose `is_initialized` is `false` rather than
//! failing, so "allocated but not yet initialized" is a checkable state.

use vstd::prelude::*;
use crate::addr::Address;
use crate::bytes::{
    le_bytes, le_val, lemma_le_bytes_le_val, lemma_le_bytes_len, lemma_le_bytes_zero,
    lemma_le_val_bound, lemma_le_val_le_bytes, lemma_pow256_values, read_le_at, push_le_bytes,
    sub_vec, zero_bytes,
};

verus! {

// ---------------------------------------------------------------------------
// Mathematical record models
// ---------------------------------------------------------------------------

/// Model of a review record.
#[verifier::ext_equal]
pub struct ReviewV {
    pub discriminator: Seq<u8>,
    pub is_initialized: bool,
    pub title: Seq<u8>,
    pub rating: u8,
    pub description: Seq<u8>,
}

/// Model of a comment-counter record.
#[verifier::ext_equal]
pub struct CounterV {
    pub discriminator: Seq<u8>,
    pub is_initialized: bool,
    pub counter: u64,
}

/// Model of a comment record.
#[verifier::ext_equal]
pub struct CommentV {
    pub discriminator: Seq<u8>,
    pub is_initialized: bool,
    pub id: u64,
    pub review: Seq<u8>,
    pub commenter: Seq<u8>,
    pub comment: Seq<u8>,
}

/// The discriminator of review records: the bytes of `review`.
pub open spec fn review_disc() -> Seq<u8> {
    seq![114u8, 101u8, 118u8, 105u8, 101u8, 119u8]
}

/// The discriminator of comment-counter records: the bytes of `counter`.
pub open spec fn counter_disc() -> Seq<u8> {
    seq![99u8, 111u8, 117u8, 110u8, 116u8, 101u8, 114u8]
}

/// The discriminator of comment records: the bytes of `comment`.
pub open spec fn comment_disc() -> Seq<u8> {
    seq![99u8, 111u8, 109u8, 109u8, 101u8, 110u8, 116u8]
}

/// A string field: 4-byte little-endian length, then the bytes.
pub open spec fn str4(s: Seq<u8>) -> Seq<u8> {
    le_bytes(s.len() as int, 4) + s
}

pub open spec fn bool_byte(b: bool) -> u8 {
    if b {
        1u8
    } else {
        0u8
    }
}

/// Serialized form of a review record.
pub open spec fn enc_review(v: ReviewV) -> Seq<u8> {
    str4(v.discriminator) + seq![bool_byte(v.is_initialized)] + str4(v.title) + seq![v.rating]
        + str4(v.description)
}

/// Serialized form of a comment-counter record.
pub open spec fn enc_counter(v: CounterV) -> Seq<u8> {
    str4(v.discriminator) + seq![bool_byte(v.is_initialized)] + le_bytes(v.counter as int, 8)
}

/// Serialized form of a comment record.
pub open spec fn enc_comment(v: CommentV) -> Seq<u8> {
    str4(v.discriminator) + seq![bool_byte(v.is_initialized)] + le_bytes(v.id as int, 8) + v.review
        + v.commenter + str4(v.comment)
}

// ---------------------------------------------------------------------------
// Parsing, as a specification
// ---------------------------------------------------------------------------

/// Reads a length-prefixed string field at offset `i`.
pub open spec fn take_str4(b: Seq<u8>, i: int) -> Option<(Seq<u8>, int)> {
    if 0 <= i && i + 4 <= b.len() {
        let n = le_val(b.subrange(i, i + 4));
        if i + 4 + n <= b.len() {
            Some((b.subrange(i + 4, i + 4 + n), i + 4 + n))
        } else {
            None
        }
    } else {
        None
    }
}

/// Reads a strict boolean byte at offset `i`.
pub open spec fn take_bool(b: Seq<u8>, i: int) -> Option<(bool, int)> {
    if 0 <= i && i + 1 <= b.len() {
        if b[i] == 0 {
            Some((false, i + 1))
        } else if b[i] == 1 {
            Some((true, i + 1))
        } else {
            None
        }
    } else {
        None
    }
}

pub open spec fn take_u8(b: Seq<u8>, i: int) -> Option<(u8, int)> {
    if 0 <= i && i + 1 <= b.len() {
        Some((b[i], i + 1))
    } else {
        None
    }
}

pub open spec fn take_u64(b: Seq<u8>, i: int) -> Option<(u64, int)> {
    if 0 <= i && i + 8 <= b.len() {
        Some((le_val(b.subrange(i, i + 8)) as u64, i + 8))
    } else {
        None
    }
}

pub open spec fn take_bytes32(b: Seq<u8>, i: int) -> Option<(Seq<u8>, int)> {
    if 0 <= i && i + 32 <= b.len() {
        Some((b.subrange(i, i + 32), i + 32))
    } else {
        None
    }
}

/// Parses a review record from the front of `b`, with the count of bytes
/// consumed.
pub open spec fn dec_review(b: Seq<u8>) -> Option<(ReviewV, int)> {
    match take_str4(b, 0) {
        None => None,
        Some((disc, i1)) => match take_bool(b, i1) {
            None => None,
            Some((init, i2)) => match take_str4(b, i2) {
                None => None,
                Some((title, i3)) => match take_u8(b, i3) {
                    None => None,
                    Some((rating, i4)) => match take_str4(b, i4) {
                        None => None,
                        Some((desc, i5)) => Some(
                            (
                                ReviewV {
                                    discriminator: disc,
                                    is_initialized: init,
                                    title,
                                    rating,
                                    description: desc,
                                },
                                i5,
                            ),
                        ),
                    },
                },
            },
        },
    }
}

/// Parses a comment-counter record from the front of `b`.
pub open spec fn dec_counter(b: Seq<u8>) -> Option<(CounterV, int)> {
    match take_str4(b, 0) {
        None => None,
        Some((disc, i1)) => match take_bool(b, i1) {
            None => None,
            Some((init, i2)) => match take_u64(b, i2) {
                None => None,
                Some((counter, i3)) => Some(
                    (CounterV { discriminator: disc, is_initialized: init, counter }, i3),
                ),
            },
        },
    }
}

/// Parses a comment record from the front of `b`.
pub open spec fn dec_comment(b: Seq<u8>) -> Option<(CommentV, int)> {
    match take_str4(b, 0) {
        None => None,
        Some((disc, i1)) => match take_bool(b, i1) {
            None => None,
            Some((init, i2)) => match take_u64(b, i2) {
                None => None,
                Some((id, i3)) => match take_bytes32(b, i3) {
                    None => None,
                    Some((review, i4)) => match take_bytes32(b, i4) {
                        None => None,
                        Some((commenter, i5)) => match take_str4(b, i5) {
                            None => None,
                            Some((comment, i6)) => Some(
                                (
                                    CommentV {
                                        discriminator: disc,
                                        is_initialized: init,
                                        id,
                                        review,
                                        commenter,
                                        comment,
                                    },
                                    i6,
                                ),
                            ),
                        },
                    },
                },
            },
        },
    }
}

/// The record an unparseable buffer stands for: everything empty and, above
/// all, not initialized.
pub open spec fn blank_review() -> ReviewV {
    ReviewV {
        discriminator: Seq::empty(),
        is_initialized: false,
        title: Seq::empty(),
        rating: 0,
        description: Seq::empty(),
    }
}

pub open spec fn blank_counter() -> CounterV {
    CounterV { discriminator: Seq::empty(), is_initialized: false, counter: 0 }
}

pub open spec fn blank_comment() -> CommentV {
    CommentV {
        discriminator: Seq::empty(),
        is_initialized: false,
        id: 0,
        review: Seq::empty(),
        commenter: Seq::empty(),
        comment: Seq::empty(),
    }
}

/// Total deserialization: an unparseable buffer reads as a blank record.
pub open spec fn review_or_blank(b: Seq<u8>) -> ReviewV {
    match dec_review(b) {
        Some(p) => p.0,
        None => blank_review(),
    }
}

pub open spec fn counter_or_blank(b: Seq<u8>) -> CounterV {
    match dec_counter(b) {
        Some(p) => p.0,
        None => blank_counter(),
    }
}

pub open spec fn comment_or_blank(b: Seq<u8>) -> CommentV {
    match dec_comment(b) {
        Some(p) => p.0,
        None => blank_comment(),
    }
}

// ---------------------------------------------------------------------------
// Sizing
// ---------------------------------------------------------------------------

/// Fixed capacity of a review slot.
pub const REVIEW_SLOT_CAPACITY: usize = 1000;

/// Serialized size of a comment-counter record.
pub const COUNTER_RECORD_SIZE: usize = 20;

/// Serialized size of a review record with the given variable-length fields:
/// discriminator (4 + 6), flag (1), title (4 + n), rating (1), description
/// (4 + n).
pub open spec fn spec_review_size(title: Seq<u8>, description: Seq<u8>) -> int {
    20 + title.len() as int + description.len() as int
}

/// Serialized size of a comment record with the given text: discriminator
/// (4 + 7), flag (1), id (8), two addresses (64), comment (4 + n).
pub open spec fn spec_comment_size(comment: Seq<u8>) -> int {
    88 + comment.len() as int
}

// ---------------------------------------------------------------------------
// Executable records
// ---------------------------------------------------------------------------

/// A review record as stored: who-derived title and description bytes, a
/// rating between 1 and 5 once initialized.
pub struct MovieAccountState {
    pub discriminator: Vec<u8>,
    pub is_initialized: bool,
    pub title: Vec<u8>,
    pub rating: u8,
    pub description: Vec<u8>,
}

impl View for MovieAccountState {
    type V = ReviewV;

    open spec fn view(&self) -> ReviewV {
        ReviewV {
            discriminator: self.discriminator@,
            is_initialized: self.is_initialized,
            title: self.title@,
            rating: self.rating,
            description: self.description@,
        }
    }
}

/// The per-review comment sequencer record.
pub struct MovieCommentCounter {
    pub discriminator: Vec<u8>,
    pub is_initialized: bool,
    pub counter: u64,
}

impl View for MovieCommentCounter {
    type V = CounterV;

    open spec fn view(&self) -> CounterV {
        CounterV {
            discriminator: self.discriminator@,
            is_initialized: self.is_initialized,
            counter: self.counter,
        }
    }
}

/// A single comment under a review.
pub struct MovieComment {
    pub discriminator: Vec<u8>,
    pub is_initialized: bool,
    pub id: u64,
    pub review: Address,
    pub commenter: Address,
    pub comment: Vec<u8>,
}

impl View for MovieComment {
    type V = CommentV;

    open spec fn view(&self) -> CommentV {
        CommentV {
            discriminator: self.discriminator@,
            is_initialized: self.is_initialized,
            id: self.id,
            review: self.review@,
            commenter: self.commenter@,
            comment: self.comment@,
        }
    }
}

impl MovieAccountState {
    /// Serialized size of a review record with these variable-length
    /// fields, for cost estimation before allocation.
    pub fn get_account_size(title: &Vec<u8>, description: &Vec<u8>) -> (r: usize)
        requires
            spec_review_size(title@, description@) <= usize::MAX,
        ensures
            r as int == spec_review_size(title@, description@),
    {
        20 + title.len() + description.len()
    }
}

impl MovieComment {
    /// Serialized size of a comment record with this text.
    pub fn get_account_size(comment: &Vec<u8>) -> (r: usize)
        requires
            spec_comment_size(comment@) <= usize::MAX,
        ensures
            r as int == spec_comment_size(comment@),
    {
        88 + comment.len()
    }
}

pub fn review_disc_bytes() -> (r: Vec<u8>)
    ensures
        r@ == review_disc(),
{
    let mut v: Vec<u8> = Vec::new();
    v.push(114u8);
    v.push(101u8);
    v.push(118u8);
    v.push(105u8);
    v.push(101u8);
    v.push(119u8);
    proof {
        assert(v@ =~= review_disc());
    }
    v
}

pub fn counter_disc_bytes() -> (r: Vec<u8>)
    ensures
        r@ == counter_disc(),
{
    let mut v: Vec<u8> = Vec::new();
    v.push(99u8);
    v.push(111u8);
    v.push(117u8);
    v.push(110u8);
    v.push(116u8);
    v.push(101u8);
    v.push(114u8);
    proof {
        assert(v@ =~= counter_disc());
    }
    v
}

pub fn comment_disc_bytes() -> (r: Vec<u8>)
    ensures
        r@ == comment_disc(),
{
    let mut v: Vec<u8> = Vec::new();
    v.push(99u8);
    v.push(111u8);
    v.push(109u8);
    v.push(109u8);
    v.push(101u8);
    v.push(110u8);
    v.push(116u8);
    proof {
        assert(v@ =~= comment_disc());
    }
    v
}

// ---------------------------------------------------------------------------
// Executable serialization
// ---------------------------------------------------------------------------

fn push_str4(out: &mut Vec<u8>, s: &Vec<u8>)
    requires
        s@.len() < 0x1_0000_0000,
    ensures
        final(out)@ == old(out)@ + str4(s@),
{
    let ghost base = out@;
    push_le_bytes(out, s.len() as u64, 4);
    out.extend_from_slice(s.as_slice());
    proof {
        assert(out@ =~= base + str4(s@));
    }
}

pub fn encode_review(rec: &MovieAccountState) -> (r: Vec<u8>)
    requires
        rec.discriminator@.len() < 0x1_0000_0000,
        rec.title@.len() < 0x1_0000_0000,
        rec.description@.len() < 0x1_0000_0000,
    ensures
        r@ == enc_review(rec@),
{
    let mut out: Vec<u8> = Vec::new();
    push_str4(&mut out, &rec.discriminator);
    out.push(if rec.is_initialized { 1u8 } else { 0u8 });
    push_str4(&mut out, &rec.title);
    out.push(rec.rating);
    push_str4(&mut out, &rec.description);
    proof {
        assert(out@ =~= enc_review(rec@));
    }
    out
}

pub fn encode_counter(rec: &MovieCommentCounter) -> (r: Vec<u8>)
    requires
        rec.discriminator@.len() < 0x1_0000_0000,
    ensures
        r@ == enc_counter(rec@),
{
    let mut out: Vec<u8> = Vec::new();
    push_str4(&mut out, &rec.discriminator);
    out.push(if rec.is_initialized { 1u8 } else { 0u8 });
    push_le_bytes(&mut out, rec.counter, 8);
    proof {
        assert(out@ =~= enc_counter(rec@));
    }
    out
}

pub fn encode_comment(rec: &MovieComment) -> (r: Vec<u8>)
    requires
        rec.discriminator@.len() < 0x1_0000_0000,
        rec.comment@.len() < 0x1_0000_0000,
    ensures
        r@ == enc_comment(rec@),
{
    let mut out: Vec<u8> = Vec::new();
    push_str4(&mut out, &rec.discriminator);
    out.push(if rec.is_initialized { 1u8 } else { 0u8 });
    push_le_bytes(&mut out, rec.id, 8);
    out.extend_from_slice(rec.review.bytes.as_slice());
    out.extend_from_slice(rec.commenter.bytes.as_slice());
    push_str4(&mut out, &rec.comment);
    proof {
        assert(out@ =~= enc_comment(rec@));
    }
    out
}

// ---------------------------------------------------------------------------
// Executable deserialization
// ---------------------------------------------------------------------------

pub(crate) fn read_str4(b: &Vec<u8>, i: usize) -> (r: Option<(Vec<u8>, usize)>)
    requires
        i <= b@.len(),
    ensures
        r matches Some(p) ==> take_str4(b@, i as int) == Some((p.0@, p.1 as int)) && i <= p.1
            <= b@.len(),
        r is None ==> take_str4(b@, i as int) is None,
{
    let blen = b.len();
    if blen - i < 4 {
        return None;
    }
    let n64 = read_le_at(b, i, 4);
    proof {
        lemma_le_val_bound(b@.subrange(i as int, i + 4));
        lemma_pow256_values();
    }
    let rest = blen - (i + 4);
    if n64 > rest as u64 {
        return None;
    }
    let n = n64 as usize;
    let s = sub_vec(b, i + 4, i + 4 + n);
    Some((s, i + 4 + n))
}

fn read_bool(b: &Vec<u8>, i: usize) -> (r: Option<(bool, usize)>)
    requires
        i <= b@.len(),
    ensures
        r matches Some(p) ==> take_bool(b@, i as int) == Some((p.0, p.1 as int)) && i <= p.1
            <= b@.len(),
        r is None ==> take_bool(b@, i as int) is None,
{
    if i >= b.len() {
        return None;
    }
    let byte = b[i];
    if byte == 0 {
        Some((false, i + 1))
    } else if byte == 1 {
        Some((true, i + 1))
    } else {
        None
    }
}

pub(crate) fn read_u8(b: &Vec<u8>, i: usize) -> (r: Option<(u8, usize)>)
    requires
        i <= b@.len(),
    ensures
        r matches Some(p) ==> take_u8(b@, i as int) == Some((p.0, p.1 as int)) && i <= p.1
            <= b@.len(),
        r is None ==> take_u8(b@, i as int) is None,
{
    if i >= b.len() {
        return None;
    }
    Some((b[i], i + 1))
}

fn read_u64(b: &Vec<u8>, i: usize) -> (r: Option<(u64, usize)>)
    requires
        i <= b@.len(),
    ensures
        r matches Some(p) ==> take_u64(b@, i as int) == Some((p.0, p.1 as int)) && i <= p.1
            <= b@.len(),
        r is None ==> take_u64(b@, i as int) is None,
{
    let blen = b.len();
    if blen - i < 8 {
        return None;
    }
    let v = read_le_at(b, i, 8);
    proof {
        lemma_le_val_bound(b@.subrange(i as int, i + 8));
        lemma_pow256_values();
    }
    Some((v, i + 8))
}

fn read_bytes32(b: &Vec<u8>, i: usize) -> (r: Option<(Vec<u8>, usize)>)
    requires
        i <= b@.len(),
    ensures
        r matches Some(p) ==> take_bytes32(b@, i as int) == Some((p.0@, p.1 as int)) && i <= p.1
            <= b@.len(),
        r is None ==> take_bytes32(b@, i as int) is None,
{
    let blen = b.len();
    if blen - i < 32 {
        return None;
    }
    Some((sub_vec(b, i, i + 32), i + 32))
}

/// Parses a review record; `None` when the buffer is malformed.
pub fn try_decode_review(b: &Vec<u8>) -> (r: Option<(MovieAccountState, usize)>)
    ensures
        r matches Some(p) ==> dec_review(b@) == Some((p.0@, p.1 as int)),
        r is None ==> dec_review(b@) is None,
{
    let (disc, i1) = match read_str4(b, 0) {
        Some(p) => p,
        None => {
            return None;
        },
    };
    let (init, i2) = match read_bool(b, i1) {
        Some(p) => p,
        None => {
            return None;
        },
    };
    let (title, i3) = match read_str4(b, i2) {
        Some(p) => p,
        None => {
            return None;
        },
    };
    let (rating, i4) = match read_u8(b, i3) {
        Some(p) => p,
        None => {
            return None;
        },
    };
    let (desc, i5) = match read_str4(b, i4) {
        Some(p) => p,
        None => {
            return None;
        },
    };
    Some(
        (
            MovieAccountState {
                discriminator: disc,
                is_initialized: init,
                title,
                rating,
                description: desc,
            },
            i5,
        ),
    )
}

/// Total deserialization of a review slot: an unparseable buffer reads as a
/// blank, uninitialized record.
pub fn decode_review_or_blank(b: &Vec<u8>) -> (r: MovieAccountState)
    ensures
        r@ == review_or_blank(b@),
{
    match try_decode_review(b) {
        Some(p) => p.0,
        None => {
            let r = MovieAccountState {
                discriminator: Vec::new(),
                is_initialized: false,
                title: Vec::new(),
                rating: 0,
                description: Vec::new(),
            };
            proof {
                assert(r@ =~= blank_review());
            }
            r
        },
    }
}

/// Parses a comment-counter record; `None` when the buffer is malformed.
pub fn try_decode_counter(b: &Vec<u8>) -> (r: Option<(MovieCommentCounter, usize)>)
    ensures
        r matches Some(p) ==> dec_counter(b@) == Some((p.0@, p.1 as int)),
        r is None ==> dec_counter(b@) is None,
{
    let (disc, i1) = match read_str4(b, 0) {
        Some(p) => p,
        None => {
            return None;
        },
    };
    let (init, i2) = match read_bool(b, i1) {
        Some(p) => p,
        None => {
            return None;
        },
    };
    let (counter, i3) = match read_u64(b, i2) {
        Some(p) => p,
        None => {
            return None;
        },
    };
    Some((MovieCommentCounter { discriminator: disc, is_initialized: init, counter }, i3))
}

pub fn decode_counter_or_blank(b: &Vec<u8>) -> (r: MovieCommentCounter)
    ensures
        r@ == counter_or_blank(b@),
{
    match try_decode_counter(b) {
        Some(p) => p.0,
        None => {
            let r = MovieCommentCounter {
                discriminator: Vec::new(),
                is_initialized: false,
                counter: 0,
            };
            proof {
                assert(r@ =~= blank_counter());
            }
            r
        },
    }
}

/// Parses a comment record; `None` when the buffer is malformed.
pub fn try_decode_comment(b: &Vec<u8>) -> (r: Option<(MovieComment, usize)>)
    ensures
        r matches Some(p) ==> dec_comment(b@) == Some((p.0@, p.1 as int)),
        r is None ==> dec_comment(b@) is None,
{
    let (disc, i1) = match read_str4(b, 0) {
        Some(p) => p,
        None => {
            return None;
        },
    };
    let (init, i2) = match read_bool(b, i1) {
        Some(p) => p,
        None => {
            return None;
        },
    };
    let (id, i3) = match read_u64(b, i2) {
        Some(p) => p,
        None => {
            return None;
        },
    };
    let (review, i4) = match read_bytes32(b, i3) {
        Some(p) => p,
        None => {
            return None;
        },
    };
    let (commenter, i5) = match read_bytes32(b, i4) {
        Some(p) => p,
        None => {
            return None;
        },
    };
    let (comment, i6) = match read_str4(b, i5) {
        Some(p) => p,
        None => {
            return None;
        },
    };
    Some(
        (
            MovieComment {
                discriminator: disc,
                is_initialized: init,
                id,
                review: Address::new(review),
                commenter: Address::new(commenter),
                comment,
            },
            i6,
        ),
    )
}

pub fn decode_comment_or_blank(b: &Vec<u8>) -> (r: MovieComment)
    ensures
        r@ == comment_or_blank(b@),
{
    match try_decode_comment(b) {
        Some(p) => p.0,
        None => {
            let r = MovieComment {
                discriminator: Vec::new(),
                is_initialized: false,
                id: 0,
                review: Address { bytes: Vec::new() },
                commenter: Address { bytes: Vec::new() },
                comment: Vec::new(),
            };
            proof {
                assert(r@ =~= blank_comment());
            }
            r
        },
    }
}

// ---------------------------------------------------------------------------
// Round-trip laws
// ---------------------------------------------------------------------------

proof fn lemma_take_str4_prefix(pre: Seq<u8>, s: Seq<u8>, suf: Seq<u8>, b: Seq<u8>)
    requires
        s.len() < 0x1_0000_0000,
        b == pre + (str4(s) + suf),
    ensures
        take_str4(b, pre.len() as int) == Some((s, pre.len() as int + 4 + s.len() as int)),
{
    lemma_le_bytes_len(s.len() as int, 4);
    lemma_pow256_values();
    lemma_le_val_le_bytes(s.len() as int, 4);
    let i = pre.len() as int;
    assert(b.subrange(i, i + 4) =~= le_bytes(s.len() as int, 4));
    assert(b.subrange(i + 4, i + 4 + s.len()) =~= s);
}

proof fn lemma_take_bool_prefix(pre: Seq<u8>, v: bool, suf: Seq<u8>, b: Seq<u8>)
    requires
        b == pre + (seq![bool_byte(v)] + suf),
    ensures
        take_bool(b, pre.len() as int) == Some((v, pre.len() as int + 1)),
{
    assert(b[pre.len() as int] == bool_byte(v));
}

proof fn lemma_take_u8_prefix(pre: Seq<u8>, v: u8, suf: Seq<u8>, b: Seq<u8>)
    requires
        b == pre + (seq![v] + suf),
    ensures
        take_u8(b, pre.len() as int) == Some((v, pre.len() as int + 1)),
{
    assert(b[pre.len() as int] == v);
}

proof fn lemma_take_u64_prefix(pre: Seq<u8>, v: u64, suf: Seq<u8>, b: Seq<u8>)
    requires
        b == pre + (le_bytes(v as int, 8) + suf),
    ensures
        take_u64(b, pre.len() as int) == Some((v, pre.len() as int + 8)),
{
    lemma_le_bytes_len(v as int, 8);
    lemma_pow256_values();
    lemma_le_val_le_bytes(v as int, 8);
    let i = pre.len() as int;
    assert(b.subrange(i, i + 8) =~= le_bytes(v as int, 8));
}

proof fn lemma_take_bytes32_prefix(pre: Seq<u8>, s: Seq<u8>, suf: Seq<u8>, b: Seq<u8>)
    requires
        s.len() == 32,
        b == pre + (s + suf),
    ensures
        take_bytes32(b, pre.len() as int) == Some((s, pre.len() as int + 32)),
{
    let i = pre.len() as int;
    assert(b.subrange(i, i + 32) =~= s);
}

/// Law: deserializing a serialized review record — wherever it stands in a
/// larger buffer's front — gives back exactly that record and consumes
/// exactly its serialized size.
pub proof fn lemma_review_round_trip(v: ReviewV, tail: Seq<u8>)
    requires
        v.discriminator.len() < 0x1_0000_0000,
        v.title.len() < 0x1_0000_0000,
        v.description.len() < 0x1_0000_0000,
    ensures
        dec_review(enc_review(v) + tail) == Some((v, enc_review(v).len() as int)),
        enc_review(v).len() == 14 + v.discriminator.len() + v.title.len()
            + v.description.len(),
{
    lemma_le_bytes_len(v.discriminator.len() as int, 4);
    lemma_le_bytes_len(v.title.len() as int, 4);
    lemma_le_bytes_len(v.description.len() as int, 4);
    let b = enc_review(v) + tail;
    let p0: Seq<u8> = Seq::empty();
    let p1 = p0 + str4(v.discriminator);
    let p2 = p1 + seq![bool_byte(v.is_initialized)];
    let p3 = p2 + str4(v.title);
    let p4 = p3 + seq![v.rating];
    let p5 = p4 + str4(v.description);
    assert(b =~= p0 + (str4(v.discriminator) + (seq![bool_byte(v.is_initialized)] + (str4(v.title)
        + (seq![v.rating] + (str4(v.description) + tail))))));
    lemma_take_str4_prefix(
        p0,
        v.discriminator,
        seq![bool_byte(v.is_initialized)] + (str4(v.title) + (seq![v.rating] + (str4(
            v.description,
        ) + tail))),
        b,
    );
    assert(b =~= p1 + (seq![bool_byte(v.is_initialized)] + (str4(v.title) + (seq![v.rating] + (
    str4(v.description) + tail)))));
    lemma_take_bool_prefix(
        p1,
        v.is_initialized,
        str4(v.title) + (seq![v.rating] + (str4(v.description) + tail)),
        b,
    );
    assert(b =~= p2 + (str4(v.title) + (seq![v.rating] + (str4(v.description) + tail))));
    lemma_take_str4_prefix(p2, v.title, seq![v.rating] + (str4(v.description) + tail), b);
    assert(b =~= p3 + (seq![v.rating] + (str4(v.description) + tail)));
    lemma_take_u8_prefix(p3, v.rating, str4(v.description) + tail, b);
    assert(b =~= p4 + (str4(v.description) + tail));
    lemma_take_str4_prefix(p4, v.description, tail, b);
    assert(dec_review(b) == Some((v, p5.len() as int)));
}

/// Law: as above, for comment-counter records.
pub proof fn lemma_counter_round_trip(v: CounterV, tail: Seq<u8>)
    requires
        v.discriminator.len() < 0x1_0000_0000,
    ensures
        dec_counter(enc_counter(v) + tail) == Some((v, enc_counter(v).len() as int)),
        enc_counter(v).len() == 13 + v.discriminator.len(),
{
    lemma_le_bytes_len(v.discriminator.len() as int, 4);
    lemma_le_bytes_len(v.counter as int, 8);
    let b = enc_counter(v) + tail;
    let p0: Seq<u8> = Seq::empty();
    let p1 = p0 + str4(v.discriminator);
    let p2 = p1 + seq![bool_byte(v.is_initialized)];
    let p3 = p2 + le_bytes(v.counter as int, 8);
    assert(b =~= p0 + (str4(v.discriminator) + (seq![bool_byte(v.is_initialized)] + (le_bytes(
        v.counter as int,
        8,
    ) + tail))));
    lemma_take_str4_prefix(
        p0,
        v.discriminator,
        seq![bool_byte(v.is_initialized)] + (le_bytes(v.counter as int, 8) + tail),
        b,
    );
    assert(b =~= p1 + (seq![bool_byte(v.is_initialized)] + (le_bytes(v.counter as int, 8)
        + tail)));
    lemma_take_bool_prefix(p1, v.is_initialized, le_bytes(v.counter as int, 8) + tail, b);
    assert(b =~= p2 + (le_bytes(v.counter as int, 8) + tail));
    lemma_take_u64_prefix(p2, v.counter, tail, b);
    assert(dec_counter(b) == Some((v, p3.len() as int)));
}

/// Law: as above, for comment records.
pub proof fn lemma_comment_round_trip(v: CommentV, tail: Seq<u8>)
    requires
        v.discriminator.len() < 0x1_0000_0000,
        v.comment.len() < 0x1_0000_0000,
        v.review.len() == 32,
        v.commenter.len() == 32,
    ensures
        dec_comment(enc_comment(v) + tail) == Some((v, enc_comment(v).len() as int)),
        enc_comment(v).len() == 81 + v.discriminator.len() + v.comment.len(),
{
    lemma_le_bytes_len(v.discriminator.len() as int, 4);
    lemma_le_bytes_len(v.comment.len() as int, 4);
    lemma_le_bytes_len(v.id as int, 8);
    let b = enc_comment(v) + tail;
    let p0: Seq<u8> = Seq::empty();
    let p1 = p0 + str4(v.discriminator);
    let p2 = p1 + seq![bool_byte(v.is_initialized)];
    let p3 = p2 + le_bytes(v.id as int, 8);
    let p4 = p3 + v.review;
    let p5 = p4 + v.commenter;
    let p6 = p5 + str4(v.comment);
    assert(b =~= p0 + (str4(v.discriminator) + (seq![bool_byte(v.is_initialized)] + (le_bytes(
        v.id as int,
        8,
    ) + (v.review + (v.commenter + (str4(v.comment) + tail)))))));
    lemma_take_str4_prefix(
        p0,
        v.discriminator,
        seq![bool_byte(v.is_initialized)] + (le_bytes(v.id as int, 8) + (v.review + (v.commenter
            + (str4(v.comment) + tail)))),
        b,
    );
    assert(b =~= p1 + (seq![bool_byte(v.is_initialized)] + (le_bytes(v.id as int, 8) + (v.review
        + (v.commenter + (str4(v.comment) + tail))))));
    lemma_take_bool_prefix(
        p1,
        v.is_initialized,
        le_bytes(v.id as int, 8) + (v.review + (v.commenter + (str4(v.comment) + tail))),
        b,
    );
    assert(b =~= p2 + (le_bytes(v.id as int, 8) + (v.review + (v.commenter + (str4(v.comment)
        + tail)))));
    lemma_take_u64_prefix(p2, v.id, v.review + (v.commenter + (str4(v.comment) + tail)), b);
    assert(b =~= p3 + (v.review + (v.commenter + (str4(v.comment) + tail))));
    lemma_take_bytes32_prefix(p3, v.review, v.commenter + (str4(v.comment) + tail), b);
    assert(b =~= p4 + (v.commenter + (str4(v.comment) + tail)));
    lemma_take_bytes32_prefix(p4, v.commenter, str4(v.comment) + tail, b);
    assert(b =~= p5 + (str4(v.comment) + tail));
    lemma_take_str4_prefix(p5, v.comment, tail, b);
    assert(dec_comment(b) == Some((v, p6.len() as int)));
}

/// Law: serializing what a buffer deserialized to reproduces the consumed
/// front of the buffer, for every parseable buffer (the all-zero buffer
/// included).
pub proof fn lemma_review_reserialize(b: Seq<u8>)
    ensures
        dec_review(b) matches Some(p) ==> 0 <= p.1 <= b.len() && enc_review(p.0) == b.take(p.1),
{
    if dec_review(b) is Some {
        let (v, n) = dec_review(b)->Some_0;
        let (disc, i1) = take_str4(b, 0)->Some_0;
        let (init, i2) = take_bool(b, i1)->Some_0;
        let (title, i3) = take_str4(b, i2)->Some_0;
        let (rating, i4) = take_u8(b, i3)->Some_0;
        let (desc, i5) = take_str4(b, i4)->Some_0;
        lemma_le_val_bound(b.subrange(0, 4));
        lemma_le_val_bound(b.subrange(i2, i2 + 4));
        lemma_le_val_bound(b.subrange(i4, i4 + 4));
        lemma_pow256_values();
        lemma_le_bytes_le_val(b.subrange(0, 4));
        lemma_le_bytes_le_val(b.subrange(i2, i2 + 4));
        lemma_le_bytes_le_val(b.subrange(i4, i4 + 4));
        assert(le_bytes(disc.len() as int, 4) == b.subrange(0, 4));
        assert(le_bytes(title.len() as int, 4) == b.subrange(i2, i2 + 4));
        assert(le_bytes(desc.len() as int, 4) == b.subrange(i4, i4 + 4));
        assert(seq![bool_byte(init)] =~= b.subrange(i1, i2));
        assert(seq![rating] =~= b.subrange(i3, i4));
        assert(enc_review(v) =~= b.take(n));
    }
}

/// Law: as above, for comment-counter records.
pub proof fn lemma_counter_reserialize(b: Seq<u8>)
    ensures
        dec_counter(b) matches Some(p) ==> 0 <= p.1 <= b.len() && enc_counter(p.0) == b.take(p.1),
{
    if dec_counter(b) is Some {
        let (v, n) = dec_counter(b)->Some_0;
        let (disc, i1) = take_str4(b, 0)->Some_0;
        let (init, i2) = take_bool(b, i1)->Some_0;
        let (counter, i3) = take_u64(b, i2)->Some_0;
        lemma_le_val_bound(b.subrange(0, 4));
        lemma_le_val_bound(b.subrange(i2, i2 + 8));
        lemma_pow256_values();
        lemma_le_bytes_le_val(b.subrange(0, 4));
        lemma_le_bytes_le_val(b.subrange(i2, i2 + 8));
        assert(le_bytes(disc.len() as int, 4) == b.subrange(0, 4));
        assert(le_bytes(counter as int, 8) == b.subrange(i2, i2 + 8));
        assert(seq![bool_byte(init)] =~= b.subrange(i1, i2));
        assert(enc_counter(v) =~= b.take(n));
    }
}

/// Law: as above, for comment records.
pub proof fn lemma_comment_reserialize(b: Seq<u8>)
    ensures
        dec_comment(b) matches Some(p) ==> 0 <= p.1 <= b.len() && enc_comment(p.0) == b.take(p.1),
{
    if dec_comment(b) is Some {
        let (v, n) = dec_comment(b)->Some_0;
        let (disc, i1) = take_str4(b, 0)->Some_0;
        let (init, i2) = take_bool(b, i1)->Some_0;
        let (id, i3) = take_u64(b, i2)->Some_0;
        let (review, i4) = take_bytes32(b, i3)->Some_0;
        let (commenter, i5) = take_bytes32(b, i4)->Some_0;
        let (comment, i6) = take_str4(b, i5)->Some_0;
        lemma_le_val_bound(b.subrange(0, 4));
        lemma_le_val_bound(b.subrange(i2, i2 + 8));
        lemma_le_val_bound(b.subrange(i5, i5 + 4));
        lemma_pow256_values();
        lemma_le_bytes_le_val(b.subrange(0, 4));
        lemma_le_bytes_le_val(b.subrange(i2, i2 + 8));
        lemma_le_bytes_le_val(b.subrange(i5, i5 + 4));
        assert(le_bytes(disc.len() as int, 4) == b.subrange(0, 4));
        assert(le_bytes(id as int, 8) == b.subrange(i2, i2 + 8));
        assert(le_bytes(comment.len() as int, 4) == b.subrange(i5, i5 + 4));
        assert(seq![bool_byte(init)] =~= b.subrange(i1, i2));
        assert(enc_comment(v) =~= b.take(n));
    }
}

/// Bounds a parsed review record: every variable-length field carries a
/// 4-byte length, and the consumed size is the record's serialized size.
pub proof fn lemma_dec_review_bounds(b: Seq<u8>)
    ensures
        dec_review(b) matches Some(p) ==> p.0.discriminator.len() < 0x1_0000_0000
            && p.0.title.len() < 0x1_0000_0000 && p.0.description.len() < 0x1_0000_0000 && 0 <= p.1
            <= b.len() && p.1 == 14 + p.0.discriminator.len() + p.0.title.len()
            + p.0.description.len(),
{
    if dec_review(b) is Some {
        let (disc, i1) = take_str4(b, 0)->Some_0;
        let (init, i2) = take_bool(b, i1)->Some_0;
        let (title, i3) = take_str4(b, i2)->Some_0;
        let (rating, i4) = take_u8(b, i3)->Some_0;
        let (desc, i5) = take_str4(b, i4)->Some_0;
        lemma_pow256_values();
        lemma_le_val_bound(b.subrange(0, 4));
        lemma_le_val_bound(b.subrange(i2, i2 + 4));
        lemma_le_val_bound(b.subrange(i4, i4 + 4));
    }
}

/// Bounds a parsed comment-counter record.
pub proof fn lemma_dec_counter_bounds(b: Seq<u8>)
    ensures
        dec_counter(b) matches Some(p) ==> p.0.discriminator.len() < 0x1_0000_0000 && 0 <= p.1
            <= b.len() && p.1 == 13 + p.0.discriminator.len(),
{
    if dec_counter(b) is Some {
        let (disc, i1) = take_str4(b, 0)->Some_0;
        lemma_pow256_values();
        lemma_le_val_bound(b.subrange(0, 4));
    }
}

/// Bounds a parsed comment record.
pub proof fn lemma_dec_comment_bounds(b: Seq<u8>)
    ensures
        dec_comment(b) matches Some(p) ==> p.0.discriminator.len() < 0x1_0000_0000
            && p.0.comment.len() < 0x1_0000_0000 && p.0.review.len() == 32 && p.0.commenter.len()
            == 32 && 0 <= p.1 <= b.len() && p.1 == 81 + p.0.discriminator.len()
            + p.0.comment.len(),
{
    if dec_comment(b) is Some {
        let (disc, i1) = take_str4(b, 0)->Some_0;
        let (init, i2) = take_bool(b, i1)->Some_0;
        let (id, i3) = take_u64(b, i2)->Some_0;
        let (review, i4) = take_bytes32(b, i3)->Some_0;
        let (commenter, i5) = take_bytes32(b, i4)->Some_0;
        lemma_pow256_values();
        lemma_le_val_bound(b.subrange(0, 4));
        lemma_le_val_bound(b.subrange(i5, i5 + 4));
    }
}

/// Law: a buffer of zero bytes — whatever its length — never reads as an
/// initialized record, for any of the three record types.
pub proof fn lemma_zero_buffer_uninitialized(n: int)
    ensures
        !review_or_blank(zero_bytes(n)).is_initialized,
        !counter_or_blank(zero_bytes(n)).is_initialized,
        !comment_or_blank(zero_bytes(n)).is_initialized,
{
    let b = zero_bytes(n);
    lemma_le_bytes_zero(4);
    lemma_pow256_values();
    lemma_le_val_le_bytes(0, 4);
    if n >= 4 {
        assert(b.subrange(0, 4) =~= le_bytes(0, 4));
        assert(take_str4(b, 0) == Some((b.subrange(4, 4), 4int)));
        if n >= 5 {
            assert(b[4] == 0);
        }
    }
}

} // verus!
