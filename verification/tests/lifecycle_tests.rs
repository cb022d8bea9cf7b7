use movie_review::addr::{counter_label_bytes, derive_address, u64_be_bytes, verify_derived, Address};
use movie_review::error::ReviewError;
use movie_review::processors::{add_comment, add_movie_review, update_movie_review, Principal, Slot};
use movie_review::state::{encode_counter, encode_review, try_decode_comment, try_decode_counter, try_decode_review, MovieAccountState, MovieComment, MovieCommentCounter};

fn addr(byte: u8) -> Address {
    Address { bytes: vec![byte; 32] }
}

fn empty_slot(address: Address) -> Slot {
    Slot { address, owner: addr(0), allocated: false, data: vec![] }
}

fn signer(byte: u8) -> Principal {
    Principal { address: addr(byte), proved_authorization: true }
}

/// Derives the review and counter slots for `(owner, title)` under `program`.
fn fresh_review_slots(owner: &Principal, title: &str, program: &Address) -> (Slot, Slot) {
    let title_b = title.as_bytes().to_vec();
    let (review_pda, _bump) = derive_address(&owner.address.bytes, &title_b, program).unwrap();
    let label = counter_label_bytes();
    let (counter_pda, _cbump) = derive_address(&review_pda.bytes, &label, program).unwrap();
    (empty_slot(review_pda), empty_slot(counter_pda))
}

fn fresh_comment_slot(review: &Slot, id: u64, program: &Address) -> Slot {
    let seed = u64_be_bytes(id);
    let (pda, _bump) = derive_address(&review.address.bytes, &seed, program).unwrap();
    empty_slot(pda)
}

#[test]
fn derive_deterministic() {
    let program = addr(7);
    let owner = addr(2);
    let title = b"Dune".to_vec();
    let first = derive_address(&owner.bytes, &title, &program).unwrap();
    let second = derive_address(&owner.bytes, &title, &program).unwrap();
    assert_eq!(first.0.bytes, second.0.bytes);
    assert_eq!(first.1, second.1);
    // The derivation is no identity on its inputs.
    assert_ne!(first.0.bytes, owner.bytes);
    assert_ne!(first.0.bytes, program.bytes);
    assert!(verify_derived(&owner.bytes, &title, &program, &first.0));
    assert!(!verify_derived(&owner.bytes, &title, &program, &owner));
}

#[test]
fn derive_matches_runtime_derivation() {
    let program = addr(7);
    let owner = addr(2);
    let title = b"Dune".to_vec();
    let (pda, bump) = derive_address(&owner.bytes, &title, &program).unwrap();
    let program_key = solana_program::pubkey::Pubkey::new_from_array([7u8; 32]);
    let (expected, expected_bump) = solana_program::pubkey::Pubkey::try_find_program_address(
        &[&owner.bytes, &title],
        &program_key,
    )
    .unwrap();
    assert_eq!(pda.bytes, expected.to_bytes().to_vec());
    assert_eq!(bump, expected_bump);
}

#[test]
fn create_review_scenario() {
    let program = addr(7);
    let owner = signer(2);
    let (mut review, mut counter) = fresh_review_slots(&owner, "Dune", &program);
    let r = add_movie_review(
        &program,
        &owner,
        &mut review,
        &mut counter,
        "Dune".to_string(),
        5,
        "great".to_string(),
    );
    assert_eq!(r, Ok(()));
    assert!(review.allocated);
    assert_eq!(review.owner.bytes, program.bytes);
    assert_eq!(review.data.len(), 1000);
    let (rec, _) = try_decode_review(&review.data).unwrap();
    assert!(rec.is_initialized);
    assert_eq!(rec.discriminator, b"review".to_vec());
    assert_eq!(rec.title, b"Dune".to_vec());
    assert_eq!(rec.rating, 5);
    assert_eq!(rec.description, b"great".to_vec());
    let (cnt, _) = try_decode_counter(&counter.data).unwrap();
    assert!(cnt.is_initialized);
    assert_eq!(cnt.discriminator, b"counter".to_vec());
    assert_eq!(cnt.counter, 0);

    // Update the same review: rating and description change, title stays.
    let r = update_movie_review(
        &program,
        &owner,
        &mut review,
        "Dune".to_string(),
        3,
        "ok".to_string(),
    );
    assert_eq!(r, Ok(()));
    let (rec, _) = try_decode_review(&review.data).unwrap();
    assert_eq!(rec.rating, 3);
    assert_eq!(rec.description, b"ok".to_vec());
    assert_eq!(rec.title, b"Dune".to_vec());
}

#[test]
fn create_review_rejects_invalid_rating() {
    let program = addr(7);
    let owner = signer(2);
    let (mut review, mut counter) = fresh_review_slots(&owner, "Dune", &program);
    for bad in [0u8, 6, 7] {
        let r = add_movie_review(
            &program,
            &owner,
            &mut review,
            &mut counter,
            "Dune".to_string(),
            bad,
            "great".to_string(),
        );
        assert_eq!(r, Err(ReviewError::InvalidRating));
        // The slot stays unallocated and untouched.
        assert!(!review.allocated);
        assert!(review.data.is_empty());
        assert!(!counter.allocated);
    }
}

#[test]
fn create_review_not_reentrant() {
    let program = addr(7);
    let owner = signer(2);
    let (mut review, mut counter) = fresh_review_slots(&owner, "Dune", &program);
    let args = ("Dune".to_string(), 5u8, "great".to_string());
    let r = add_movie_review(
        &program,
        &owner,
        &mut review,
        &mut counter,
        args.0.clone(),
        args.1,
        args.2.clone(),
    );
    assert_eq!(r, Ok(()));
    let review_bytes = review.data.clone();
    let counter_bytes = counter.data.clone();
    let r = add_movie_review(&program, &owner, &mut review, &mut counter, args.0, args.1, args.2);
    assert_eq!(r, Err(ReviewError::AlreadyInitialized));
    assert_eq!(review.data, review_bytes);
    assert_eq!(counter.data, counter_bytes);
}

#[test]
fn create_review_requires_authorization() {
    let program = addr(7);
    let mut owner = signer(2);
    owner.proved_authorization = false;
    let (mut review, mut counter) = fresh_review_slots(&signer(2), "Dune", &program);
    let r = add_movie_review(
        &program,
        &owner,
        &mut review,
        &mut counter,
        "Dune".to_string(),
        5,
        "great".to_string(),
    );
    assert_eq!(r, Err(ReviewError::Unauthorized));
    assert!(!review.allocated);
}

#[test]
fn create_review_rejects_wrong_address() {
    let program = addr(7);
    let owner = signer(2);
    let (_review, mut counter) = fresh_review_slots(&owner, "Dune", &program);
    let mut wrong = empty_slot(addr(9));
    let r = add_movie_review(
        &program,
        &owner,
        &mut wrong,
        &mut counter,
        "Dune".to_string(),
        5,
        "great".to_string(),
    );
    assert_eq!(r, Err(ReviewError::InvalidAddress));
}

#[test]
fn create_review_rejects_oversized_payload() {
    let program = addr(7);
    let owner = signer(2);
    let big = "x".repeat(990);
    let (mut review, mut counter) = fresh_review_slots(&owner, "Dune", &program);
    let r = add_movie_review(
        &program,
        &owner,
        &mut review,
        &mut counter,
        "Dune".to_string(),
        5,
        big,
    );
    assert_eq!(r, Err(ReviewError::PayloadTooLarge));
    assert!(!review.allocated);
}

#[test]
fn update_review_not_found() {
    let program = addr(7);
    let owner = signer(2);
    let (mut review, _counter) = fresh_review_slots(&owner, "Dune", &program);
    // Never created, but recorded as program-owned: the lookup fails.
    review.owner = Address { bytes: program.bytes.clone() };
    let r = update_movie_review(
        &program,
        &owner,
        &mut review,
        "Dune".to_string(),
        3,
        "ok".to_string(),
    );
    assert_eq!(r, Err(ReviewError::NotFound));
    assert!(!review.allocated);
    assert!(review.data.is_empty());
}

#[test]
fn update_review_rejects_foreign_owner() {
    let program = addr(7);
    let owner = signer(2);
    let (mut review, _counter) = fresh_review_slots(&owner, "Dune", &program);
    review.owner = addr(9);
    let r = update_movie_review(
        &program,
        &owner,
        &mut review,
        "Dune".to_string(),
        3,
        "ok".to_string(),
    );
    assert_eq!(r, Err(ReviewError::NotOwned));
}

#[test]
fn update_review_rejects_wrong_title() {
    let program = addr(7);
    let owner = signer(2);
    let (mut review, mut counter) = fresh_review_slots(&owner, "Dune", &program);
    add_movie_review(
        &program,
        &owner,
        &mut review,
        &mut counter,
        "Dune".to_string(),
        5,
        "great".to_string(),
    )
    .unwrap();
    // Another title derives another address: the slot no longer matches.
    let r = update_movie_review(
        &program,
        &owner,
        &mut review,
        "Tron".to_string(),
        3,
        "ok".to_string(),
    );
    assert_eq!(r, Err(ReviewError::InvalidAddress));
}

#[test]
fn update_review_rejects_oversized_description() {
    let program = addr(7);
    let owner = signer(2);
    let (mut review, mut counter) = fresh_review_slots(&owner, "Dune", &program);
    add_movie_review(
        &program,
        &owner,
        &mut review,
        &mut counter,
        "Dune".to_string(),
        5,
        "great".to_string(),
    )
    .unwrap();
    let r = update_movie_review(
        &program,
        &owner,
        &mut review,
        "Dune".to_string(),
        3,
        "x".repeat(990),
    );
    assert_eq!(r, Err(ReviewError::PayloadTooLarge));
    let (rec, _) = try_decode_review(&review.data).unwrap();
    assert_eq!(rec.description, b"great".to_vec());
}

#[test]
fn multibyte_title_survives_codec_and_creation() {
    let program = addr(7);
    let owner = signer(2);
    let mut data = vec![0u8];
    data.extend(
        borsh::to_vec(&("Amélie".to_string(), 4u8, "charmant".to_string())).unwrap(),
    );
    let (title, rating, description) = match
        movie_review::instructions::MovieInstruction::unpack(&data).unwrap()
    {
        movie_review::instructions::MovieInstruction::AddMovieReview {
            title,
            rating,
            description,
        } => (title, rating, description),
        _ => panic!("wrong variant"),
    };
    assert_eq!(title, "Amélie");
    let (mut review, mut counter) = fresh_review_slots(&owner, "Amélie", &program);
    let r = add_movie_review(&program, &owner, &mut review, &mut counter, title, rating, description);
    assert_eq!(r, Ok(()));
    let (rec, _) = try_decode_review(&review.data).unwrap();
    assert_eq!(rec.title, "Amélie".as_bytes().to_vec());
    assert_eq!(rec.rating, 4);
}

#[test]
fn account_size_formulas() {
    let title = b"Dune".to_vec();
    let description = b"great".to_vec();
    // 4 + 6 discriminator, 1 flag, 4 + 4 title, 1 rating, 4 + 5 description.
    assert_eq!(MovieAccountState::get_account_size(&title, &description), 29);
    let rec = MovieAccountState {
        discriminator: b"review".to_vec(),
        is_initialized: true,
        title,
        rating: 5,
        description,
    };
    assert_eq!(encode_review(&rec).len(), 29);
    // 4 + 7 discriminator, 1 flag, 8 id, 32 + 32 addresses, 4 + 4 text.
    assert_eq!(MovieComment::get_account_size(&b"nice".to_vec()), 92);
}

#[test]
fn comments_get_distinct_increasing_ids() {
    let program = addr(7);
    let owner = signer(2);
    let (mut review, mut counter) = fresh_review_slots(&owner, "Dune", &program);
    let r = add_movie_review(
        &program,
        &owner,
        &mut review,
        &mut counter,
        "Dune".to_string(),
        5,
        "great".to_string(),
    );
    assert_eq!(r, Ok(()));
    let mut ids = Vec::new();
    for (who, text) in [(3u8, "first"), (4, "second"), (3, "third")] {
        let commenter = signer(who);
        let (cnt, _) = try_decode_counter(&counter.data).unwrap();
        let mut comment_slot = fresh_comment_slot(&review, cnt.counter, &program);
        let r = add_comment(
            &program,
            &commenter,
            &review.address,
            &mut counter,
            &mut comment_slot,
            text.to_string(),
        );
        assert_eq!(r, Ok(()));
        let (rec, _) = try_decode_comment(&comment_slot.data).unwrap();
        assert!(rec.is_initialized);
        assert_eq!(rec.discriminator, b"comment".to_vec());
        assert_eq!(rec.review.bytes, review.address.bytes);
        assert_eq!(rec.commenter.bytes, commenter.address.bytes);
        assert_eq!(rec.comment, text.as_bytes().to_vec());
        ids.push(rec.id);
    }
    assert_eq!(ids, vec![0, 1, 2]);
    let (cnt, _) = try_decode_counter(&counter.data).unwrap();
    assert_eq!(cnt.counter, 3);
}

#[test]
fn create_review_retries_over_allocated_uninitialized_slots() {
    let program = addr(7);
    let owner = signer(2);
    let (mut review, mut counter) = fresh_review_slots(&owner, "Dune", &program);
    // An earlier attempt allocated both slots but initialized neither.
    review.allocated = true;
    review.owner = Address { bytes: program.bytes.clone() };
    review.data = vec![0u8; 1000];
    counter.allocated = true;
    counter.owner = Address { bytes: program.bytes.clone() };
    counter.data = vec![0u8; 20];
    let r = add_movie_review(
        &program,
        &owner,
        &mut review,
        &mut counter,
        "Dune".to_string(),
        5,
        "great".to_string(),
    );
    assert_eq!(r, Ok(()));
    let (rec, _) = try_decode_review(&review.data).unwrap();
    assert!(rec.is_initialized);
    assert_eq!(rec.title, b"Dune".to_vec());
    let (cnt, _) = try_decode_counter(&counter.data).unwrap();
    assert!(cnt.is_initialized);
    assert_eq!(cnt.counter, 0);
}

#[test]
fn add_comment_refuses_initialized_comment_slot() {
    let program = addr(7);
    let owner = signer(2);
    let (mut review, mut counter) = fresh_review_slots(&owner, "Dune", &program);
    add_movie_review(
        &program,
        &owner,
        &mut review,
        &mut counter,
        "Dune".to_string(),
        5,
        "great".to_string(),
    )
    .unwrap();
    let mut comment_slot = fresh_comment_slot(&review, 0, &program);
    add_comment(
        &program,
        &owner,
        &review.address,
        &mut counter,
        &mut comment_slot,
        "hello".to_string(),
    )
    .unwrap();
    // A second claim of id 1 against the slot that already holds id 0 is a
    // derivation mismatch; a forged claim of id 1 at the id-0 slot address
    // is likewise rejected, and a re-run against the same initialized slot
    // with a reset counter reports it as already initialized.
    let reset = MovieCommentCounter {
        discriminator: b"counter".to_vec(),
        is_initialized: true,
        counter: 0,
    };
    counter.data = encode_counter(&reset);
    let before = comment_slot.data.clone();
    let r = add_comment(
        &program,
        &owner,
        &review.address,
        &mut counter,
        &mut comment_slot,
        "again".to_string(),
    );
    assert_eq!(r, Err(ReviewError::AlreadyInitialized));
    assert_eq!(comment_slot.data, before);
}

#[test]
fn add_comment_uninitialized_counter_not_found() {
    let program = addr(7);
    let commenter = signer(3);
    let review_address = addr(5);
    let mut counter = empty_slot(addr(6));
    let mut comment_slot = empty_slot(addr(8));
    let r = add_comment(
        &program,
        &commenter,
        &review_address,
        &mut counter,
        &mut comment_slot,
        "hello".to_string(),
    );
    assert_eq!(r, Err(ReviewError::NotFound));
    assert!(!comment_slot.allocated);
    assert!(counter.data.is_empty());
}

#[test]
fn add_comment_exhausted_counter_fails_allocation() {
    let program = addr(7);
    let commenter = signer(3);
    let review_address = addr(5);
    let full = MovieCommentCounter {
        discriminator: b"counter".to_vec(),
        is_initialized: true,
        counter: u64::MAX,
    };
    let mut counter = Slot {
        address: addr(6),
        owner: Address { bytes: program.bytes.clone() },
        allocated: true,
        data: encode_counter(&full),
    };
    let mut comment_slot = empty_slot(addr(8));
    let r = add_comment(
        &program,
        &commenter,
        &review_address,
        &mut counter,
        &mut comment_slot,
        "hello".to_string(),
    );
    assert_eq!(r, Err(ReviewError::AllocationFailed));
    assert_eq!(counter.data, encode_counter(&full));
}

#[test]
fn add_comment_wrong_counter_type_rejected() {
    let program = addr(7);
    let commenter = signer(3);
    let review_address = addr(5);
    // An initialized record of the wrong type where the counter should be.
    let wrong = MovieCommentCounter {
        discriminator: b"review".to_vec(),
        is_initialized: true,
        counter: 0,
    };
    let mut counter = Slot {
        address: addr(6),
        owner: Address { bytes: program.bytes.clone() },
        allocated: true,
        data: encode_counter(&wrong),
    };
    let mut comment_slot = empty_slot(addr(8));
    let r = add_comment(
        &program,
        &commenter,
        &review_address,
        &mut counter,
        &mut comment_slot,
        "hello".to_string(),
    );
    assert_eq!(r, Err(ReviewError::InvalidAddress));
}

#[test]
fn add_comment_wrong_slot_address_leaves_counter_ahead() {
    let program = addr(7);
    let owner = signer(2);
    let (mut review, mut counter) = fresh_review_slots(&owner, "Dune", &program);
    add_movie_review(
        &program,
        &owner,
        &mut review,
        &mut counter,
        "Dune".to_string(),
        5,
        "great".to_string(),
    )
    .unwrap();
    let mut wrong_slot = empty_slot(addr(9));
    let r = add_comment(
        &program,
        &owner,
        &review.address,
        &mut counter,
        &mut wrong_slot,
        "hello".to_string(),
    );
    assert_eq!(r, Err(ReviewError::InvalidAddress));
    // The counter was persisted ahead of the failed claim: a gap, never a
    // duplicate.
    let (cnt, _) = try_decode_counter(&counter.data).unwrap();
    assert_eq!(cnt.counter, 1);
    assert!(!wrong_slot.allocated);
}
