use review_program::address::{derive_address, same_address, Address};
use review_program::error::ReviewError;
use review_program::instruction::{unpack, ReviewInstruction};
use review_program::processor::{
    add_review, update_review, CreateAction, CreateEvent, Invocation, ReviewArgs, Storage,
};
use review_program::record::{decode, encode, ReviewRecord, RECORD_SPACE};

const PROGRAM: Address = [7u8; 32];
const AUTHOR_A: Address = [1u8; 32];
const AUTHOR_B: Address = [2u8; 32];
const SYSTEM: Address = [0u8; 32];

fn args(title: &str, rating: u8, description: &str, location: &str) -> ReviewArgs {
    ReviewArgs {
        title: title.as_bytes().to_vec(),
        rating,
        description: description.as_bytes().to_vec(),
        location: location.as_bytes().to_vec(),
    }
}

fn ctx(author: Address, signed: bool) -> Invocation {
    Invocation { program_id: PROGRAM, author, author_signed: signed }
}

fn derived(author: &Address, title: &str) -> Address {
    derive_address(author, title.as_bytes(), &PROGRAM).unwrap().0
}

fn unallocated(key: Address) -> Storage {
    Storage { key, owner: SYSTEM, data: Vec::new() }
}

/// Runs a whole Create, performing the allocation the way the allocator would.
fn create(c: &Invocation, target: &mut Storage, a: &ReviewArgs) -> Result<(), ReviewError> {
    match add_review(c, target, a, CreateEvent::Requested)? {
        CreateAction::Allocate(req) => {
            assert!(same_address(&req.target, &target.key));
            assert_eq!(req.space, RECORD_SPACE as u64);
            target.owner = req.owner;
            target.data = vec![0u8; req.space as usize];
        }
        CreateAction::Committed => panic!("a request does not commit"),
    }
    match add_review(c, target, a, CreateEvent::Allocated)? {
        CreateAction::Committed => Ok(()),
        CreateAction::Allocate(_) => panic!("an allocated create must commit"),
    }
}

fn stored(target: &Storage) -> ReviewRecord {
    decode(&target.data).unwrap()
}

#[test]
fn derive_is_repeatable() {
    let first = derive_address(&AUTHOR_A, b"Great Trail", &PROGRAM).unwrap();
    let second = derive_address(&AUTHOR_A, b"Great Trail", &PROGRAM).unwrap();
    assert_eq!(first, second);
    assert_ne!(first.0, AUTHOR_A);
    assert_ne!(first.0, PROGRAM);
}

#[test]
fn derive_depends_on_author_and_exact_title() {
    let a = derived(&AUTHOR_A, "Great Trail");
    assert_ne!(a, derived(&AUTHOR_B, "Great Trail"));
    assert_ne!(a, derived(&AUTHOR_A, "great trail"));
    assert_ne!(a, derived(&AUTHOR_A, "Great Trail "));
}

#[test]
fn derive_rejects_overlong_title() {
    let long = [b'x'; 33];
    assert_eq!(derive_address(&AUTHOR_A, &long, &PROGRAM), Err(ReviewError::InvalidAddress));
}

#[test]
fn create_then_update_scenario() {
    let c = ctx(AUTHOR_A, true);
    let mut target = unallocated(derived(&AUTHOR_A, "Great Trail"));
    create(&c, &mut target, &args("Great Trail", 8, "Scenic", "Rockies")).unwrap();
    let rec = stored(&target);
    assert!(rec.is_initialized);
    assert_eq!(rec.title, b"Great Trail".to_vec());
    assert_eq!(rec.rating, 8);
    assert_eq!(rec.description, b"Scenic".to_vec());
    assert_eq!(rec.location, b"Rockies".to_vec());
    assert_eq!(target.data.len(), RECORD_SPACE);

    update_review(&c, &mut target, &args("Great Trail", 5, "Muddy in spring", "Rockies")).unwrap();
    let rec = stored(&target);
    assert!(rec.is_initialized);
    assert_eq!(rec.title, b"Great Trail".to_vec());
    assert_eq!(rec.rating, 5);
    assert_eq!(rec.description, b"Muddy in spring".to_vec());
    assert_eq!(rec.location, b"Rockies".to_vec());

    update_review(&c, &mut target, &args("Great Trail", 5, "", "")).unwrap();
    let rec = stored(&target);
    assert_eq!(rec.description, Vec::<u8>::new());
    assert_eq!(rec.location, Vec::<u8>::new());
    assert_eq!(target.data.len(), RECORD_SPACE);
}

#[test]
fn other_author_cannot_update() {
    let mut target = unallocated(derived(&AUTHOR_A, "Great Trail"));
    create(&ctx(AUTHOR_A, true), &mut target, &args("Great Trail", 8, "Scenic", "Rockies")).unwrap();
    let before = target.data.clone();
    let r = update_review(&ctx(AUTHOR_B, true), &mut target, &args("Great Trail", 1, "Bad", "X"));
    assert_eq!(r, Err(ReviewError::InvalidAddress));
    assert_eq!(target.data, before);
}

#[test]
fn unsigned_update_fails() {
    let mut target = unallocated(derived(&AUTHOR_A, "Great Trail"));
    create(&ctx(AUTHOR_A, true), &mut target, &args("Great Trail", 8, "Scenic", "Rockies")).unwrap();
    let before = target.data.clone();
    let r = update_review(&ctx(AUTHOR_A, false), &mut target, &args("Great Trail", 3, "a", "b"));
    assert_eq!(r, Err(ReviewError::MissingSignature));
    assert_eq!(target.data, before);
}

#[test]
fn update_with_other_title_fails() {
    let mut target = unallocated(derived(&AUTHOR_A, "Great Trail"));
    create(&ctx(AUTHOR_A, true), &mut target, &args("Great Trail", 8, "Scenic", "Rockies")).unwrap();
    let r = update_review(&ctx(AUTHOR_A, true), &mut target, &args("Other Trail", 3, "a", "b"));
    assert_eq!(r, Err(ReviewError::InvalidAddress));
}

#[test]
fn update_of_foreign_storage_fails() {
    let key = derived(&AUTHOR_A, "Great Trail");
    let mut target = Storage { key, owner: SYSTEM, data: vec![0u8; RECORD_SPACE] };
    let r = update_review(&ctx(AUTHOR_A, true), &mut target, &args("Great Trail", 3, "a", "b"));
    assert_eq!(r, Err(ReviewError::IllegalOwner));
}

#[test]
fn update_never_created_fails() {
    let key = derived(&AUTHOR_A, "Great Trail");
    let mut target = Storage { key, owner: PROGRAM, data: vec![0u8; RECORD_SPACE] };
    let r = update_review(&ctx(AUTHOR_A, true), &mut target, &args("Great Trail", 3, "a", "b"));
    assert_eq!(r, Err(ReviewError::UninitializedAccount));
    assert_eq!(target.data, vec![0u8; RECORD_SPACE]);
}

#[test]
fn create_rejects_ratings_out_of_range() {
    for rating in [0u8, 11u8, 255u8] {
        let mut target = unallocated(derived(&AUTHOR_A, "Trail"));
        let r = add_review(&ctx(AUTHOR_A, true), &mut target, &args("Trail", rating, "d", "l"), CreateEvent::Requested);
        assert!(matches!(r, Err(ReviewError::InvalidRating)));
    }
}

#[test]
fn create_accepts_rating_bounds() {
    for rating in [1u8, 10u8] {
        let mut target = unallocated(derived(&AUTHOR_A, "Trail"));
        create(&ctx(AUTHOR_A, true), &mut target, &args("Trail", rating, "d", "l")).unwrap();
        assert_eq!(stored(&target).rating, rating);
    }
}

#[test]
fn update_rating_bounds() {
    let c = ctx(AUTHOR_A, true);
    let mut target = unallocated(derived(&AUTHOR_A, "Trail"));
    create(&c, &mut target, &args("Trail", 5, "d", "l")).unwrap();
    let before = target.data.clone();
    assert_eq!(update_review(&c, &mut target, &args("Trail", 0, "x", "y")), Err(ReviewError::InvalidRating));
    assert_eq!(update_review(&c, &mut target, &args("Trail", 11, "x", "y")), Err(ReviewError::InvalidRating));
    assert_eq!(target.data, before);
    update_review(&c, &mut target, &args("Trail", 1, "x", "y")).unwrap();
    assert_eq!(stored(&target).rating, 1);
    update_review(&c, &mut target, &args("Trail", 10, "x", "y")).unwrap();
    assert_eq!(stored(&target).rating, 10);
}

#[test]
fn create_on_initialized_storage_fails() {
    let c = ctx(AUTHOR_A, true);
    let a = args("Great Trail", 8, "Scenic", "Rockies");
    let mut target = unallocated(derived(&AUTHOR_A, "Great Trail"));
    create(&c, &mut target, &a).unwrap();
    let before = target.data.clone();
    let again = args("Great Trail", 2, "Other", "Elsewhere");
    let r = add_review(&c, &mut target, &again, CreateEvent::Allocated);
    assert!(matches!(r, Err(ReviewError::AlreadyInitialized)));
    assert_eq!(target.data, before);
}

#[test]
fn create_needs_signature() {
    let mut target = unallocated(derived(&AUTHOR_A, "Trail"));
    let r = add_review(&ctx(AUTHOR_A, false), &mut target, &args("Trail", 5, "d", "l"), CreateEvent::Requested);
    assert!(matches!(r, Err(ReviewError::MissingSignature)));
}

#[test]
fn create_at_wrong_address_fails() {
    let mut target = unallocated(derived(&AUTHOR_B, "Trail"));
    let r = add_review(&ctx(AUTHOR_A, true), &mut target, &args("Trail", 5, "d", "l"), CreateEvent::Requested);
    assert!(matches!(r, Err(ReviewError::InvalidAddress)));
}

#[test]
fn create_reports_allocation_failure() {
    let mut target = unallocated(derived(&AUTHOR_A, "Trail"));
    let r = add_review(&ctx(AUTHOR_A, true), &mut target, &args("Trail", 5, "d", "l"), CreateEvent::AllocationFailed);
    assert!(matches!(r, Err(ReviewError::AllocationFailed)));
    assert!(target.data.is_empty());
}

#[test]
fn create_request_carries_nonce() {
    let (key, bump) = derive_address(&AUTHOR_A, b"Trail", &PROGRAM).unwrap();
    let mut target = unallocated(key);
    match add_review(&ctx(AUTHOR_A, true), &mut target, &args("Trail", 5, "d", "l"), CreateEvent::Requested) {
        Ok(CreateAction::Allocate(req)) => {
            assert_eq!(req.bump, bump);
            assert_eq!(req.funder, AUTHOR_A);
            assert_eq!(req.owner, PROGRAM);
            assert_eq!(req.target, key);
        }
        _ => panic!("expected an allocation request"),
    }
    assert!(target.data.is_empty());
}

#[test]
fn create_rejects_oversized_record() {
    let mut target = unallocated(derived(&AUTHOR_A, "Trail"));
    let long = "x".repeat(990);
    let r = add_review(&ctx(AUTHOR_A, true), &mut target, &args("Trail", 5, &long, ""), CreateEvent::Requested);
    assert!(matches!(r, Err(ReviewError::RecordTooLarge)));
    let fits = "x".repeat(1000 - 14 - 5);
    create(&ctx(AUTHOR_A, true), &mut target, &args("Trail", 5, &fits, "")).unwrap();
    assert_eq!(stored(&target).description.len(), 981);
}

#[test]
fn update_rejects_oversized_record() {
    let c = ctx(AUTHOR_A, true);
    let mut target = unallocated(derived(&AUTHOR_A, "Trail"));
    create(&c, &mut target, &args("Trail", 5, "d", "l")).unwrap();
    let before = target.data.clone();
    let long = "y".repeat(982);
    assert_eq!(update_review(&c, &mut target, &args("Trail", 5, &long, "")), Err(ReviewError::RecordTooLarge));
    assert_eq!(target.data, before);
}

#[test]
fn update_reports_corrupt_storage() {
    let key = derived(&AUTHOR_A, "Trail");
    let mut target = Storage { key, owner: PROGRAM, data: vec![1u8, 5u8, 255u8, 0u8, 0u8, 0u8] };
    let r = update_review(&ctx(AUTHOR_A, true), &mut target, &args("Trail", 3, "a", "b"));
    assert_eq!(r, Err(ReviewError::DecodeError));
}

#[test]
fn decode_zeroed_storage_is_empty() {
    let rec = decode(&vec![0u8; RECORD_SPACE]).unwrap();
    assert!(!rec.is_initialized);
    assert_eq!(rec.rating, 0);
    assert!(rec.title.is_empty() && rec.description.is_empty() && rec.location.is_empty());
}

#[test]
fn decode_short_input_fails() {
    assert!(matches!(decode(&[]), Err(ReviewError::DecodeError)));
    assert!(matches!(decode(&[0u8; 13]), Err(ReviewError::DecodeError)));
    assert!(matches!(decode(&[1u8, 3, 2, 0, 0, 0, b'a']), Err(ReviewError::DecodeError)));
}

#[test]
fn encode_layout_is_exact() {
    let rec = ReviewRecord {
        is_initialized: true,
        rating: 8,
        title: b"ab".to_vec(),
        description: b"c".to_vec(),
        location: Vec::new(),
    };
    let bytes = encode(&rec).unwrap();
    assert_eq!(bytes, vec![1, 8, 2, 0, 0, 0, b'a', b'b', 1, 0, 0, 0, b'c', 0, 0, 0, 0]);
    let mut padded = bytes.clone();
    padded.extend_from_slice(&[9u8; 20]);
    let back = decode(&padded).unwrap();
    assert_eq!(back.title, b"ab".to_vec());
    assert_eq!(back.description, b"c".to_vec());
    assert!(back.location.is_empty());
}

#[test]
fn encode_rejects_oversized() {
    let rec = ReviewRecord {
        is_initialized: true,
        rating: 8,
        title: Vec::new(),
        description: vec![0u8; 987],
        location: Vec::new(),
    };
    assert!(matches!(encode(&rec), Err(ReviewError::RecordTooLarge)));
}

fn payload(variant: u8, title: &str, rating: u8, description: &str, location: &str) -> Vec<u8> {
    let mut out = vec![variant];
    for (i, text) in [title, description, location].iter().enumerate() {
        out.extend_from_slice(&(text.len() as u32).to_le_bytes());
        out.extend_from_slice(text.as_bytes());
        if i == 0 {
            out.push(rating);
        }
    }
    out
}

#[test]
fn unpack_create_and_update() {
    match unpack(&payload(0, "Great Trail", 8, "Scenic", "Rockies")).unwrap() {
        ReviewInstruction::AddReview(a) => {
            assert_eq!(a.title, b"Great Trail".to_vec());
            assert_eq!(a.rating, 8);
            assert_eq!(a.description, b"Scenic".to_vec());
            assert_eq!(a.location, b"Rockies".to_vec());
        }
        _ => panic!("expected a create"),
    }
    match unpack(&payload(1, "T", 5, "", "L")).unwrap() {
        ReviewInstruction::UpdateReview(a) => {
            assert_eq!(a.title, b"T".to_vec());
            assert_eq!(a.rating, 5);
            assert!(a.description.is_empty());
            assert_eq!(a.location, b"L".to_vec());
        }
        _ => panic!("expected an update"),
    }
}

#[test]
fn unpack_rejects_bad_input() {
    assert!(matches!(unpack(&[]), Err(ReviewError::InvalidInstruction)));
    assert!(matches!(unpack(&payload(2, "T", 5, "d", "l")), Err(ReviewError::InvalidInstruction)));
    let full = payload(0, "T", 5, "d", "l");
    assert!(matches!(unpack(&full[..full.len() - 1]), Err(ReviewError::InvalidInstruction)));
    let mut longer = full.clone();
    longer.push(0);
    assert!(matches!(unpack(&longer), Err(ReviewError::InvalidInstruction)));
}
