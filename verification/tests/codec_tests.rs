use movie_review::instructions::MovieInstruction;
use movie_review::state::{
    encode_comment, encode_counter, encode_review, try_decode_comment, try_decode_counter,
    try_decode_review, MovieAccountState, MovieComment, MovieCommentCounter,
};
use movie_review::addr::Address;
use movie_review::error::ReviewError;

fn review_record(title: &str, rating: u8, description: &str) -> MovieAccountState {
    MovieAccountState {
        discriminator: b"review".to_vec(),
        is_initialized: true,
        title: title.as_bytes().to_vec(),
        rating,
        description: description.as_bytes().to_vec(),
    }
}

#[test]
fn review_encoding_matches_borsh() {
    let rec = review_record("Dune", 5, "great");
    let ours = encode_review(&rec);
    let reference = borsh::to_vec(&(
        "review".to_string(),
        true,
        "Dune".to_string(),
        5u8,
        "great".to_string(),
    ))
    .unwrap();
    assert_eq!(ours, reference);
}

#[test]
fn counter_encoding_matches_borsh() {
    let rec = MovieCommentCounter {
        discriminator: b"counter".to_vec(),
        is_initialized: true,
        counter: 7,
    };
    let ours = encode_counter(&rec);
    let reference = borsh::to_vec(&("counter".to_string(), true, 7u64)).unwrap();
    assert_eq!(ours, reference);
    assert_eq!(ours.len(), 20);
}

#[test]
fn comment_encoding_matches_borsh() {
    let rec = MovieComment {
        discriminator: b"comment".to_vec(),
        is_initialized: true,
        id: 3,
        review: Address { bytes: vec![9u8; 32] },
        commenter: Address { bytes: vec![8u8; 32] },
        comment: b"nice".to_vec(),
    };
    let ours = encode_comment(&rec);
    let reference = borsh::to_vec(&(
        "comment".to_string(),
        true,
        3u64,
        [9u8; 32],
        [8u8; 32],
        "nice".to_string(),
    ))
    .unwrap();
    assert_eq!(ours, reference);
    assert_eq!(ours.len(), 88 + 4);
}

#[test]
fn review_round_trip() {
    let rec = review_record("Dune", 4, "sand");
    let bytes = encode_review(&rec);
    let (back, used) = try_decode_review(&bytes).unwrap();
    assert_eq!(used, bytes.len());
    assert_eq!(back.discriminator, rec.discriminator);
    assert_eq!(back.is_initialized, true);
    assert_eq!(back.title, rec.title);
    assert_eq!(back.rating, 4);
    assert_eq!(back.description, rec.description);
    let again = encode_review(&back);
    assert_eq!(again, bytes);
}

#[test]
fn counter_round_trip() {
    let rec = MovieCommentCounter {
        discriminator: b"counter".to_vec(),
        is_initialized: true,
        counter: u64::MAX,
    };
    let bytes = encode_counter(&rec);
    let (back, used) = try_decode_counter(&bytes).unwrap();
    assert_eq!(used, bytes.len());
    assert_eq!(back.counter, u64::MAX);
    assert_eq!(encode_counter(&back), bytes);
}

#[test]
fn comment_round_trip() {
    let rec = MovieComment {
        discriminator: b"comment".to_vec(),
        is_initialized: true,
        id: 11,
        review: Address { bytes: vec![1u8; 32] },
        commenter: Address { bytes: vec![2u8; 32] },
        comment: b"hello there".to_vec(),
    };
    let bytes = encode_comment(&rec);
    let (back, used) = try_decode_comment(&bytes).unwrap();
    assert_eq!(used, bytes.len());
    assert_eq!(back.id, 11);
    assert_eq!(back.review.bytes, vec![1u8; 32]);
    assert_eq!(back.commenter.bytes, vec![2u8; 32]);
    assert_eq!(back.comment, b"hello there".to_vec());
    assert_eq!(encode_comment(&back), bytes);
}

#[test]
fn zero_buffer_reads_uninitialized() {
    let zeroes = vec![0u8; 1000];
    let (rec, used) = try_decode_review(&zeroes).unwrap();
    assert!(!rec.is_initialized);
    assert_eq!(used, 14);
    let again = encode_review(&rec);
    assert_eq!(again, vec![0u8; 14]);
    let (cnt, cused) = try_decode_counter(&zeroes).unwrap();
    assert!(!cnt.is_initialized);
    assert_eq!(cnt.counter, 0);
    assert_eq!(cused, 13);
    let (cm, mused) = try_decode_comment(&zeroes).unwrap();
    assert!(!cm.is_initialized);
    assert_eq!(mused, 81);
}

#[test]
fn undersized_buffer_reads_uninitialized() {
    assert!(try_decode_review(&vec![0u8; 3]).is_none());
    assert!(try_decode_counter(&vec![0u8; 5]).is_none());
    assert!(try_decode_comment(&vec![]).is_none());
}

#[test]
fn big_endian_id_bytes() {
    for x in [0u64, 1, 256, u64::MAX, 0x0102_0304_0506_0708] {
        assert_eq!(movie_review::addr::u64_be_bytes(x), x.to_be_bytes().to_vec());
    }
}

#[test]
fn unpack_create_review() {
    let mut data = vec![0u8];
    data.extend(
        borsh::to_vec(&("Dune".to_string(), 5u8, "great".to_string())).unwrap(),
    );
    match MovieInstruction::unpack(&data).unwrap() {
        MovieInstruction::AddMovieReview { title, rating, description } => {
            assert_eq!(title, "Dune");
            assert_eq!(rating, 5);
            assert_eq!(description, "great");
        },
        _ => panic!("wrong variant"),
    }
}

#[test]
fn unpack_update_review() {
    let mut data = vec![1u8];
    data.extend(borsh::to_vec(&("Dune".to_string(), 3u8, "ok".to_string())).unwrap());
    match MovieInstruction::unpack(&data).unwrap() {
        MovieInstruction::UpdateMovieReview { title, rating, description } => {
            assert_eq!(title, "Dune");
            assert_eq!(rating, 3);
            assert_eq!(description, "ok");
        },
        _ => panic!("wrong variant"),
    }
}

#[test]
fn unpack_add_comment() {
    let mut data = vec![2u8];
    data.extend(borsh::to_vec(&("loved it".to_string(),)).unwrap());
    match MovieInstruction::unpack(&data).unwrap() {
        MovieInstruction::AddComment { comment } => {
            assert_eq!(comment, "loved it");
        },
        _ => panic!("wrong variant"),
    }
}

#[test]
fn unpack_rejects_malformed() {
    assert_eq!(
        MovieInstruction::unpack(&[]).unwrap_err(),
        ReviewError::MalformedInstruction
    );
    // Unknown tag.
    assert_eq!(
        MovieInstruction::unpack(&[9u8, 0, 0, 0, 0]).unwrap_err(),
        ReviewError::MalformedInstruction
    );
    // Truncated payload.
    assert_eq!(
        MovieInstruction::unpack(&[0u8, 10, 0, 0, 0, 65]).unwrap_err(),
        ReviewError::MalformedInstruction
    );
    // Trailing bytes after a complete payload.
    let mut data = vec![2u8];
    data.extend(borsh::to_vec(&("x".to_string(),)).unwrap());
    data.push(0);
    assert_eq!(
        MovieInstruction::unpack(&data).unwrap_err(),
        ReviewError::MalformedInstruction
    );
    // Invalid UTF-8 in a string field.
    let data = vec![2u8, 1, 0, 0, 0, 0xff];
    assert_eq!(
        MovieInstruction::unpack(&data).unwrap_err(),
        ReviewError::MalformedInstruction
    );
}
