//! The operation codec: parses an opaque command buffer into one of the
//! three typed operations, rejecting unknown tags and malformed payloads.
//!
//! The first byte is the operation tag; the remaining bytes are the payload,
//! encoded with 4-byte little-endian length-prefixed UTF-8 strings and
//! fixed-width integers, and consumed in full.

use vstd::prelude::*;
use vstd::utf8::{decode_utf8, decode_utf8_encode_utf8, encode_utf8, valid_utf8};
use crate::bytes::sub_vec;
use crate::error::ReviewError;
use crate::state::{read_str4, read_u8, take_str4, take_u8};

verus! {

/// A decoded operation.
#[derive(Debug)]
pub enum MovieInstruction {
    AddMovieReview { title: String, rating: u8, description: String },
    UpdateMovieReview { title: String, rating: u8, description: String },
    AddComment { comment: String },
}

/// Model of an operation, with each text field as its UTF-8 bytes.
pub enum InstructionV {
    AddMovieReview { title: Seq<u8>, rating: u8, description: Seq<u8> },
    UpdateMovieReview { title: Seq<u8>, rating: u8, description: Seq<u8> },
    AddComment { comment: Seq<u8> },
}

impl View for MovieInstruction {
    type V = InstructionV;

    open spec fn view(&self) -> InstructionV {
        match *self {
            MovieInstruction::AddMovieReview { title, rating, description } => InstructionV::AddMovieReview {
                title: encode_utf8(title@),
                rating,
                description: encode_utf8(description@),
            },
            MovieInstruction::UpdateMovieReview { title, rating, description } => InstructionV::UpdateMovieReview {
                title: encode_utf8(title@),
                rating,
                description: encode_utf8(description@),
            },
            MovieInstruction::AddComment { comment } => InstructionV::AddComment {
                comment: encode_utf8(comment@),
            },
        }
    }
}

/// Parses a review payload: title, rating, description, consuming the whole
/// buffer, both strings valid UTF-8.
pub open spec fn dec_review_payload(b: Seq<u8>) -> Option<(Seq<u8>, u8, Seq<u8>)> {
    match take_str4(b, 0) {
        None => None,
        Some((title, i1)) => match take_u8(b, i1) {
            None => None,
            Some((rating, i2)) => match take_str4(b, i2) {
                None => None,
                Some((desc, i3)) => if i3 == b.len() && valid_utf8(title) && valid_utf8(desc) {
                    Some((title, rating, desc))
                } else {
                    None
                },
            },
        },
    }
}

/// Parses a comment payload: one string, consuming the whole buffer.
pub open spec fn dec_comment_payload(b: Seq<u8>) -> Option<Seq<u8>> {
    match take_str4(b, 0) {
        None => None,
        Some((comment, i1)) => if i1 == b.len() && valid_utf8(comment) {
            Some(comment)
        } else {
            None
        },
    }
}

/// Parses a command buffer: tag 0 creates a review, tag 1 updates one,
/// tag 2 adds a comment; anything else is malformed.
pub open spec fn dec_instruction(b: Seq<u8>) -> Option<InstructionV> {
    if b.len() < 1 {
        None
    } else {
        let rest = b.skip(1);
        if b[0] == 0 {
            match dec_review_payload(rest) {
                None => None,
                Some((t, r, d)) => Some(
                    InstructionV::AddMovieReview { title: t, rating: r, description: d },
                ),
            }
        } else if b[0] == 1 {
            match dec_review_payload(rest) {
                None => None,
                Some((t, r, d)) => Some(
                    InstructionV::UpdateMovieReview { title: t, rating: r, description: d },
                ),
            }
        } else if b[0] == 2 {
            match dec_comment_payload(rest) {
                None => None,
                Some(c) => Some(InstructionV::AddComment { comment: c }),
            }
        } else {
            None
        }
    }
}

/// Relies on `String::from_utf8`: it returns the string decoded from the
/// given bytes exactly when they are valid UTF-8, and fails otherwise.
#[verifier::external_body]
fn bytes_to_string(b: Vec<u8>) -> (r: Option<String>)
    ensures
        (r is Some) == valid_utf8(b@),
        r matches Some(s) ==> s@ == decode_utf8(b@),
{
    String::from_utf8(b).ok()
}

fn parse_review_payload(b: &Vec<u8>) -> (r: Option<(String, u8, String)>)
    ensures
        r matches Some(p) ==> dec_review_payload(b@) == Some(
            (encode_utf8(p.0@), p.1, encode_utf8(p.2@)),
        ),
        r is None ==> dec_review_payload(b@) is None,
{
    let (tb, i1) = match read_str4(b, 0) {
        Some(p) => p,
        None => {
            return None;
        },
    };
    let (rating, i2) = match read_u8(b, i1) {
        Some(p) => p,
        None => {
            return None;
        },
    };
    let (db, i3) = match read_str4(b, i2) {
        Some(p) => p,
        None => {
            return None;
        },
    };
    if i3 != b.len() {
        return None;
    }
    let ghost tb_view = tb@;
    let ghost db_view = db@;
    let title = match bytes_to_string(tb) {
        Some(s) => s,
        None => {
            return None;
        },
    };
    let desc = match bytes_to_string(db) {
        Some(s) => s,
        None => {
            return None;
        },
    };
    proof {
        decode_utf8_encode_utf8(tb_view);
        decode_utf8_encode_utf8(db_view);
    }
    Some((title, rating, desc))
}

fn parse_comment_payload(b: &Vec<u8>) -> (r: Option<String>)
    ensures
        r matches Some(s) ==> dec_comment_payload(b@) == Some(encode_utf8(s@)),
        r is None ==> dec_comment_payload(b@) is None,
{
    let (cb, i1) = match read_str4(b, 0) {
        Some(p) => p,
        None => {
            return None;
        },
    };
    if i1 != b.len() {
        return None;
    }
    let ghost cb_view = cb@;
    let comment = match bytes_to_string(cb) {
        Some(s) => s,
        None => {
            return None;
        },
    };
    proof {
        decode_utf8_encode_utf8(cb_view);
    }
    Some(comment)
}

impl MovieInstruction {
    /// Decodes a command buffer, or fails with `MalformedInstruction`
    /// exactly when no operation matches it.
    pub fn unpack(input: &[u8]) -> (r: Result<MovieInstruction, ReviewError>)
        ensures
            r matches Ok(ins) ==> dec_instruction(input@) == Some(ins@),
            r is Err ==> dec_instruction(input@) is None && r == Err::<
                MovieInstruction,
                ReviewError,
            >(ReviewError::MalformedInstruction),
    {
        let v = vstd::slice::slice_to_vec(input);
        if v.len() == 0 {
            return Err(ReviewError::MalformedInstruction);
        }
        let tag = v[0];
        let rest = sub_vec(&v, 1, v.len());
        proof {
            assert(rest@ =~= input@.skip(1));
        }
        if tag == 0 || tag == 1 {
            match parse_review_payload(&rest) {
                Some((title, rating, description)) => {
                    if tag == 0 {
                        Ok(MovieInstruction::AddMovieReview { title, rating, description })
                    } else {
                        Ok(MovieInstruction::UpdateMovieReview { title, rating, description })
                    }
                },
                None => Err(ReviewError::MalformedInstruction),
            }
        } else if tag == 2 {
            match parse_comment_payload(&rest) {
                Some(comment) => Ok(MovieInstruction::AddComment { comment }),
                None => Err(ReviewError::MalformedInstruction),
            }
        } else {
            Err(ReviewError::MalformedInstruction)
        }
    }
}

} // verus!
