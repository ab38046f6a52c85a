use vstd::prelude::*;

use crate::address::{check_address, is_derived, program_address, Address};
use crate::error::ReviewError;
use crate::record::{
    decode, decode_record, encode, encode_record, encoded_len, lemma_decode_encode, RecordModel,
    ReviewRecord, RECORD_SPACE,
};

verus! {

/// Who invokes an operation, and on behalf of which program.
pub struct Invocation {
    /// The program that owns review records.
    pub program_id: Address,
    /// The author's public key.
    pub author: Address,
    /// Whether the author signed the invocation.
    pub author_signed: bool,
}

/// The storage an operation targets, as the runtime hands it over.
pub struct Storage {
    pub key: Address,
    pub owner: Address,
    pub data: Vec<u8>,
}

/// The fields that Create and Update supply.
pub struct ReviewArgs {
    pub title: Vec<u8>,
    pub rating: u8,
    pub description: Vec<u8>,
    pub location: Vec<u8>,
}

/// What Create asks of the storage allocator: `space` zeroed bytes at `target`,
/// owned by `owner`, funded by `funder`, signed for with the seeds and `bump`.
pub struct Allocation {
    pub funder: Address,
    pub target: Address,
    pub owner: Address,
    pub space: u64,
    pub bump: u8,
}

/// Where a Create stands: before the allocation, or after the allocator answered.
#[derive(Debug, Clone, Copy, PartialEq, Eq, Structural)]
pub enum CreateEvent {
    Requested,
    Allocated,
    AllocationFailed,
}

/// What a Create step asks for next.
pub enum CreateAction {
    /// Perform this allocation, then report it as an event.
    Allocate(Allocation),
    /// The record is written; nothing is left to do.
    Committed,
}

pub open spec fn rating_ok(rating: u8) -> bool {
    1 <= rating <= 10
}

/// The record that Create writes.
pub open spec fn created_record(args: ReviewArgs) -> RecordModel {
    RecordModel {
        is_initialized: true,
        rating: args.rating,
        title: args.title@,
        description: args.description@,
        location: args.location@,
    }
}

/// The record that Update makes of `stored`: title and flag kept, the rest replaced.
pub open spec fn updated_record(stored: RecordModel, args: ReviewArgs) -> RecordModel {
    RecordModel {
        is_initialized: stored.is_initialized,
        rating: args.rating,
        title: stored.title,
        description: args.description@,
        location: args.location@,
    }
}

/// `data` with its first bytes replaced by `enc`.
pub open spec fn overwrite(data: Seq<u8>, enc: Seq<u8>) -> Seq<u8> {
    enc + data.subrange(enc.len() as int, data.len() as int)
}

/// The checks that Create makes before it allocates; `Ok` holds the nonce.
pub open spec fn create_checks(ctx: Invocation, target: Address, args: ReviewArgs) -> Result<
    u8,
    ReviewError,
> {
    if !ctx.author_signed {
        Err(ReviewError::MissingSignature)
    } else if !is_derived(ctx.author@, args.title@, ctx.program_id@, target@) {
        Err(ReviewError::InvalidAddress)
    } else if !rating_ok(args.rating) {
        Err(ReviewError::InvalidRating)
    } else if encoded_len(created_record(args)) > RECORD_SPACE {
        Err(ReviewError::RecordTooLarge)
    } else {
        Ok(program_address(ctx.author@, args.title@, ctx.program_id@).unwrap().1)
    }
}

/// The outcome of a Create step, and the target's data after it.
pub open spec fn create_outcome(
    ctx: Invocation,
    target: Address,
    data: Seq<u8>,
    args: ReviewArgs,
    event: CreateEvent,
) -> (Result<CreateAction, ReviewError>, Seq<u8>) {
    match create_checks(ctx, target, args) {
        Err(e) => (Err(e), data),
        Ok(bump) => match event {
            CreateEvent::Requested => (
                Ok(
                    CreateAction::Allocate(
                        Allocation {
                            funder: ctx.author,
                            target,
                            owner: ctx.program_id,
                            space: RECORD_SPACE as u64,
                            bump,
                        },
                    ),
                ),
                data,
            ),
            CreateEvent::AllocationFailed => (Err(ReviewError::AllocationFailed), data),
            CreateEvent::Allocated => match decode_record(data) {
                None => (Err(ReviewError::DecodeError), data),
                Some(stored) => if stored.is_initialized {
                    (Err(ReviewError::AlreadyInitialized), data)
                } else if encoded_len(created_record(args)) > data.len() {
                    (Err(ReviewError::RecordTooLarge), data)
                } else {
                    (
                        Ok(CreateAction::Committed),
                        overwrite(data, encode_record(created_record(args))),
                    )
                },
            },
        },
    }
}

/// The outcome of an Update, and the target's data after it.
pub open spec fn update_outcome(ctx: Invocation, target: Storage, args: ReviewArgs) -> (Result<
    (),
    ReviewError,
>, Seq<u8>) {
    let data = target.data@;
    if target.owner@ != ctx.program_id@ {
        (Err(ReviewError::IllegalOwner), data)
    } else if !ctx.author_signed {
        (Err(ReviewError::MissingSignature), data)
    } else if !is_derived(ctx.author@, args.title@, ctx.program_id@, target.key@) {
        (Err(ReviewError::InvalidAddress), data)
    } else if !rating_ok(args.rating) {
        (Err(ReviewError::InvalidRating), data)
    } else {
        match decode_record(data) {
            None => (Err(ReviewError::DecodeError), data),
            Some(stored) => if !stored.is_initialized {
                (Err(ReviewError::UninitializedAccount), data)
            } else if encoded_len(updated_record(stored, args)) > RECORD_SPACE || encoded_len(
                updated_record(stored, args),
            ) > data.len() {
                (Err(ReviewError::RecordTooLarge), data)
            } else {
                (Ok(()), overwrite(data, encode_record(updated_record(stored, args))))
            },
        }
    }
}

fn check_rating(rating: u8) -> (r: Result<(), ReviewError>)
    ensures
        rating_ok(rating) ==> r is Ok,
        !rating_ok(rating) ==> r == Err::<(), ReviewError>(ReviewError::InvalidRating),
{
    if rating < 1 || rating > 10 {
        Err(ReviewError::InvalidRating)
    } else {
        Ok(())
    }
}

fn copy_bytes(v: &Vec<u8>) -> (r: Vec<u8>)
    ensures
        r@ == v@,
{
    let mut out: Vec<u8> = Vec::new();
    let mut i: usize = 0;
    while i < v.len()
        invariant
            i <= v@.len(),
            out@ =~= v@.subrange(0, i as int),
        decreases v@.len() - i,
    {
        out.push(v[i]);
        i = i + 1;
    }
    assert(v@.subrange(0, v@.len() as int) =~= v@);
    out
}

/// Writes `enc` over the first bytes of `data`, leaving its length and the rest as they were.
fn write_prefix(data: &mut Vec<u8>, enc: &Vec<u8>)
    requires
        enc@.len() <= old(data)@.len(),
    ensures
        final(data)@ == overwrite(old(data)@, enc@),
{
    let mut i: usize = 0;
    while i < enc.len()
        invariant
            i <= enc@.len() <= data@.len(),
            data@.len() == old(data)@.len(),
            forall|j: int| 0 <= j < i ==> data@[j] == enc@[j],
            forall|j: int| i <= j < data@.len() ==> data@[j] == old(data)@[j],
        decreases enc@.len() - i,
    {
        data.set(i, enc[i]);
        i = i + 1;
    }
    assert(data@ =~= overwrite(old(data)@, enc@));
}

/// Encodes `rec` and writes it at the start of `data`; fails, leaving `data` as it was,
/// where the encoding exceeds `RECORD_SPACE` or the length of `data`.
fn store_record(data: &mut Vec<u8>, rec: &ReviewRecord) -> (r: Result<(), ReviewError>)
    ensures
        encoded_len(rec@) <= RECORD_SPACE && encoded_len(rec@) <= old(data)@.len() ==> (r == Ok::<(), ReviewError>(())
            && final(data)@ == overwrite(old(data)@, encode_record(rec@))),
        !(encoded_len(rec@) <= RECORD_SPACE && encoded_len(rec@) <= old(data)@.len()) ==> (r
            == Err::<(), ReviewError>(ReviewError::RecordTooLarge) && final(data)@ == old(
            data,
        )@),
{
    let enc = encode(rec)?;
    proof {
        lemma_encoded_len(rec@);
    }
    if enc.len() > data.len() {
        return Err(ReviewError::RecordTooLarge);
    }
    write_prefix(data, &enc);
    Ok(())
}

proof fn lemma_encoded_len(m: RecordModel)
    ensures
        encode_record(m).len() == encoded_len(m),
{
}

/// One step of Create. On `Requested` it validates the signer, the target address, the
/// rating and the record's size, and asks for the allocation; on `AllocationFailed` it
/// reports `AllocationFailed`; on `Allocated` it validates again, checks that the fresh
/// storage holds no record, and writes the new record over its first bytes. Every
/// failure leaves the target as it was.
pub fn add_review(ctx: &Invocation, target: &mut Storage, args: &ReviewArgs, event: CreateEvent) -> (r:
    Result<CreateAction, ReviewError>)
    ensures
        (r, final(target).data@) == create_outcome(*ctx, old(target).key, old(target).data@, *args, event),
        final(target).key == old(target).key,
        final(target).owner == old(target).owner,
{
    if !ctx.author_signed {
        return Err(ReviewError::MissingSignature);
    }
    let bump = check_address(&ctx.author, args.title.as_slice(), &ctx.program_id, &target.key)?;
    check_rating(args.rating)?;
    let rec = ReviewRecord {
        is_initialized: true,
        rating: args.rating,
        title: copy_bytes(&args.title),
        description: copy_bytes(&args.description),
        location: copy_bytes(&args.location),
    };
    if crate::record::record_len(&rec) > RECORD_SPACE {
        return Err(ReviewError::RecordTooLarge);
    }
    match event {
        CreateEvent::Requested => Ok(
            CreateAction::Allocate(
                Allocation {
                    funder: ctx.author,
                    target: target.key,
                    owner: ctx.program_id,
                    space: RECORD_SPACE as u64,
                    bump,
                },
            ),
        ),
        CreateEvent::AllocationFailed => Err(ReviewError::AllocationFailed),
        CreateEvent::Allocated => {
            let stored = decode(target.data.as_slice())?;
            if stored.is_initialized {
                return Err(ReviewError::AlreadyInitialized);
            }
            store_record(&mut target.data, &rec)?;
            Ok(CreateAction::Committed)
        },
    }
}

/// Update: checks that the program owns the target, that the author signed, that the
/// target is the address derived from the author and the title, the rating, that a
/// record is stored there, and that the result fits; then rewrites rating, description
/// and location in place. The title and the flag stay. Every failure leaves the target
/// as it was.
pub fn update_review(ctx: &Invocation, target: &mut Storage, args: &ReviewArgs) -> (r: Result<
    (),
    ReviewError,
>)
    ensures
        (r, final(target).data@) == update_outcome(*ctx, *old(target), *args),
        final(target).key == old(target).key,
        final(target).owner == old(target).owner,
{
    if !crate::address::same_address(&target.owner, &ctx.program_id) {
        return Err(ReviewError::IllegalOwner);
    }
    if !ctx.author_signed {
        return Err(ReviewError::MissingSignature);
    }
    check_address(&ctx.author, args.title.as_slice(), &ctx.program_id, &target.key)?;
    check_rating(args.rating)?;
    let stored = decode(target.data.as_slice())?;
    if !stored.is_initialized {
        return Err(ReviewError::UninitializedAccount);
    }
    let rec = ReviewRecord {
        is_initialized: stored.is_initialized,
        rating: args.rating,
        title: stored.title,
        description: copy_bytes(&args.description),
        location: copy_bytes(&args.location),
    };
    store_record(&mut target.data, &rec)
}

/// After a Create step commits, the target's data decodes to an initialized record
/// holding exactly the supplied title, rating, description and location.
pub proof fn lemma_create_then_decode(
    ctx: Invocation,
    target: Address,
    data: Seq<u8>,
    args: ReviewArgs,
    event: CreateEvent,
)
    requires
        create_outcome(ctx, target, data, args, event).0 matches Ok(CreateAction::Committed),
    ensures
        decode_record(create_outcome(ctx, target, data, args, event).1) == Some(
            created_record(args),
        ),
{
    let m = created_record(args);
    lemma_encoded_len(m);
    lemma_decode_encode(m, data.subrange(encode_record(m).len() as int, data.len() as int));
}

/// Create on storage that already holds an initialized record never commits and leaves
/// the data as it was; once the checks before allocation pass and the storage is
/// allocated, it fails with `AlreadyInitialized`.
pub proof fn lemma_create_on_initialized(
    ctx: Invocation,
    target: Address,
    data: Seq<u8>,
    args: ReviewArgs,
    event: CreateEvent,
)
    requires
        decode_record(data) matches Some(m) && m.is_initialized,
    ensures
        create_outcome(ctx, target, data, args, event).1 == data,
        !(create_outcome(ctx, target, data, args, event).0 matches Ok(CreateAction::Committed)),
        event == CreateEvent::Allocated && create_checks(ctx, target, args) is Ok ==> create_outcome(
            ctx,
            target,
            data,
            args,
            event,
        ).0 == Err::<CreateAction, ReviewError>(ReviewError::AlreadyInitialized),
{
}

/// Create with a rating of 0 or 11, by a signing author at the derived address, fails
/// with `InvalidRating` and changes nothing.
pub proof fn lemma_create_rating_rejected(
    ctx: Invocation,
    target: Address,
    data: Seq<u8>,
    args: ReviewArgs,
    event: CreateEvent,
)
    requires
        args.rating == 0 || args.rating == 11,
        ctx.author_signed,
        is_derived(ctx.author@, args.title@, ctx.program_id@, target@),
    ensures
        create_outcome(ctx, target, data, args, event) == (
            Err::<CreateAction, ReviewError>(ReviewError::InvalidRating),
            data,
        ),
{
}

/// Update with a rating of 0 or 11, by a signing author at the derived address that the
/// program owns, fails with `InvalidRating` and changes nothing.
pub proof fn lemma_update_rating_rejected(ctx: Invocation, target: Storage, args: ReviewArgs)
    requires
        args.rating == 0 || args.rating == 11,
        target.owner@ == ctx.program_id@,
        ctx.author_signed,
        is_derived(ctx.author@, args.title@, ctx.program_id@, target.key@),
    ensures
        update_outcome(ctx, target, args) == (
            Err::<(), ReviewError>(ReviewError::InvalidRating),
            target.data@,
        ),
{
}

/// Create with a rating of 1 or 10 commits on freshly allocated storage, when the author
/// signed, the target is the derived address and the record fits.
pub proof fn lemma_create_rating_accepted(
    ctx: Invocation,
    target: Address,
    data: Seq<u8>,
    args: ReviewArgs,
)
    requires
        args.rating == 1 || args.rating == 10,
        ctx.author_signed,
        is_derived(ctx.author@, args.title@, ctx.program_id@, target@),
        encoded_len(created_record(args)) <= RECORD_SPACE,
        encoded_len(created_record(args)) <= data.len(),
        decode_record(data) matches Some(m) && !m.is_initialized,
    ensures
        create_outcome(ctx, target, data, args, CreateEvent::Allocated).0 matches Ok(
            CreateAction::Committed,
        ),
{
}

/// Update with a rating of 1 or 10 succeeds on an initialized record that the program
/// owns, when the author signed, the target is the derived address and the result fits.
pub proof fn lemma_update_rating_accepted(ctx: Invocation, target: Storage, args: ReviewArgs)
    requires
        args.rating == 1 || args.rating == 10,
        target.owner@ == ctx.program_id@,
        ctx.author_signed,
        is_derived(ctx.author@, args.title@, ctx.program_id@, target.key@),
        decode_record(target.data@) matches Some(m) && m.is_initialized && encoded_len(
            updated_record(m, args),
        ) <= RECORD_SPACE && encoded_len(updated_record(m, args)) <= target.data@.len(),
    ensures
        update_outcome(ctx, target, args).0 == Ok::<(), ReviewError>(()),
{
}

/// Update by an author who did not sign, or whose key and title do not derive the
/// target's address, fails with `MissingSignature` or `InvalidAddress` and changes nothing.
pub proof fn lemma_update_unauthorized(ctx: Invocation, target: Storage, args: ReviewArgs)
    requires
        target.owner@ == ctx.program_id@,
        !ctx.author_signed || !is_derived(ctx.author@, args.title@, ctx.program_id@, target.key@),
    ensures
        update_outcome(ctx, target, args).0 == Err::<(), ReviewError>(ReviewError::MissingSignature)
            || update_outcome(ctx, target, args).0 == Err::<(), ReviewError>(
            ReviewError::InvalidAddress,
        ),
        update_outcome(ctx, target, args).1 == target.data@,
{
}

/// Update of storage that holds no record yet, such as zero-filled storage, fails with
/// `UninitializedAccount` once ownership, signature, address and rating are in order.
pub proof fn lemma_update_uninitialized(ctx: Invocation, target: Storage, args: ReviewArgs)
    requires
        target.owner@ == ctx.program_id@,
        ctx.author_signed,
        is_derived(ctx.author@, args.title@, ctx.program_id@, target.key@),
        rating_ok(args.rating),
        decode_record(target.data@) matches Some(m) && !m.is_initialized,
    ensures
        update_outcome(ctx, target, args) == (
            Err::<(), ReviewError>(ReviewError::UninitializedAccount),
            target.data@,
        ),
{
}

} // verus!
