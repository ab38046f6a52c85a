use vstd::prelude::*;

use crate::error::ReviewError;
use crate::processor::ReviewArgs;
use crate::record::{decode_text, read_text};

verus! {

/// An operation requested of the program, with its arguments.
pub enum ReviewInstruction {
    AddReview(ReviewArgs),
    UpdateReview(ReviewArgs),
}

/// The fields of the arguments, in payload order.
pub open spec fn args_fields(a: ReviewArgs) -> (Seq<u8>, u8, Seq<u8>, Seq<u8>) {
    (a.title@, a.rating, a.description@, a.location@)
}

/// The arguments encoded in `b` after the variant byte: title, one rating byte,
/// description, location, ending exactly at the end of `b`.
pub open spec fn payload_fields(b: Seq<u8>) -> Option<(Seq<u8>, u8, Seq<u8>, Seq<u8>)> {
    match decode_text(b, 1) {
        None => None,
        Some((title, p)) => if p < b.len() {
            match decode_text(b, p + 1) {
                None => None,
                Some((description, q)) => match decode_text(b, q) {
                    None => None,
                    Some((location, end)) => if end == b.len() {
                        Some((title, b[p], description, location))
                    } else {
                        None
                    },
                },
            }
        } else {
            None
        },
    }
}

/// Decodes an instruction: variant 0 is Create, 1 is Update. An empty input, another
/// variant, or a malformed payload gives `InvalidInstruction`.
pub fn unpack(input: &[u8]) -> (r: Result<ReviewInstruction, ReviewError>)
    ensures
        input@.len() == 0 || input@[0] > 1 || payload_fields(input@) is None ==> r
            == Err::<ReviewInstruction, ReviewError>(ReviewError::InvalidInstruction),
        input@.len() > 0 && input@[0] == 0 && payload_fields(input@) is Some ==> (r matches Ok(
            ReviewInstruction::AddReview(a),
        ) && Some(args_fields(a)) == payload_fields(input@)),
        input@.len() > 0 && input@[0] == 1 && payload_fields(input@) is Some ==> (r matches Ok(
            ReviewInstruction::UpdateReview(a),
        ) && Some(args_fields(a)) == payload_fields(input@)),
{
    if input.len() == 0 || input[0] > 1 {
        return Err(ReviewError::InvalidInstruction);
    }
    let (title, p) = match read_text(input, 1) {
        None => return Err(ReviewError::InvalidInstruction),
        Some(x) => x,
    };
    if p >= input.len() {
        return Err(ReviewError::InvalidInstruction);
    }
    let rating = input[p];
    let (description, q) = match read_text(input, p + 1) {
        None => return Err(ReviewError::InvalidInstruction),
        Some(x) => x,
    };
    let (location, end) = match read_text(input, q) {
        None => return Err(ReviewError::InvalidInstruction),
        Some(x) => x,
    };
    if end != input.len() {
        return Err(ReviewError::InvalidInstruction);
    }
    let args = ReviewArgs { title, rating, description, location };
    if input[0] == 0 {
        Ok(ReviewInstruction::AddReview(args))
    } else {
        Ok(ReviewInstruction::UpdateReview(args))
    }
}

} // verus!
