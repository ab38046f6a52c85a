use vstd::prelude::*;

use crate::error::ReviewError;

verus! {

/// Bytes reserved for a review record when its storage is allocated; never grows.
pub const RECORD_SPACE: usize = 1000;

/// Bytes of the fixed prefix: the initialized flag, the rating, and three empty texts.
pub const MIN_RECORD_LEN: usize = 14;

/// A review record as it is stored.
pub struct ReviewRecord {
    pub is_initialized: bool,
    pub rating: u8,
    pub title: Vec<u8>,
    pub description: Vec<u8>,
    pub location: Vec<u8>,
}

/// The mathematical value of a review record.
pub struct RecordModel {
    pub is_initialized: bool,
    pub rating: u8,
    pub title: Seq<u8>,
    pub description: Seq<u8>,
    pub location: Seq<u8>,
}

impl View for ReviewRecord {
    type V = RecordModel;

    open spec fn view(&self) -> RecordModel {
        RecordModel {
            is_initialized: self.is_initialized,
            rating: self.rating,
            title: self.title@,
            description: self.description@,
            location: self.location@,
        }
    }
}

/// Four bytes holding `n`, least significant first.
pub open spec fn le_bytes(n: u32) -> Seq<u8> {
    seq![
        (n & 0xff) as u8,
        ((n >> 8u32) & 0xff) as u8,
        ((n >> 16u32) & 0xff) as u8,
        ((n >> 24u32) & 0xff) as u8,
    ]
}

/// The number held by the four bytes of `b` from `at` on, least significant first.
pub open spec fn le_value(b: Seq<u8>, at: int) -> u32 {
    (b[at] as u32) | ((b[at + 1] as u32) << 8u32) | ((b[at + 2] as u32) << 16u32) | ((b[at + 3]
        as u32) << 24u32)
}

/// A text field: its length in four bytes, then its bytes.
pub open spec fn encode_text(t: Seq<u8>) -> Seq<u8> {
    le_bytes(t.len() as u32) + t
}

/// The stored layout of a record: flag, rating, title, description, location.
pub open spec fn encode_record(m: RecordModel) -> Seq<u8> {
    seq![if m.is_initialized { 1u8 } else { 0u8 }, m.rating] + encode_text(m.title) + encode_text(
        m.description,
    ) + encode_text(m.location)
}

/// Every text of the record has a length that its four-byte prefix can hold.
pub open spec fn texts_fit(m: RecordModel) -> bool {
    m.title.len() <= u32::MAX && m.description.len() <= u32::MAX && m.location.len() <= u32::MAX
}

/// The text that starts at `at`, and where the next field starts; `None` where its
/// prefix or its bytes would run past the end of `b`.
pub open spec fn decode_text(b: Seq<u8>, at: int) -> Option<(Seq<u8>, int)> {
    if 0 <= at && at + 4 <= b.len() && at + 4 + le_value(b, at) <= b.len() {
        let end = at + 4 + le_value(b, at);
        Some((b.subrange(at + 4, end), end))
    } else {
        None
    }
}

/// The record that `b` begins with; bytes after it are ignored.
pub open spec fn decode_record(b: Seq<u8>) -> Option<RecordModel> {
    if b.len() < 2 {
        None
    } else {
        match decode_text(b, 2) {
            None => None,
            Some((title, p)) => match decode_text(b, p) {
                None => None,
                Some((description, q)) => match decode_text(b, q) {
                    None => None,
                    Some((location, _)) => Some(
                        RecordModel {
                            is_initialized: b[0] != 0,
                            rating: b[1],
                            title,
                            description,
                            location,
                        },
                    ),
                },
            },
        }
    }
}

proof fn lemma_le_round_trip(n: u32)
    ensures
        le_value(le_bytes(n), 0) == n,
{
    let b0 = (n & 0xff) as u8;
    let b1 = ((n >> 8u32) & 0xff) as u8;
    let b2 = ((n >> 16u32) & 0xff) as u8;
    let b3 = ((n >> 24u32) & 0xff) as u8;
    assert(((b0 as u32) | ((b1 as u32) << 8u32) | ((b2 as u32) << 16u32) | ((b3 as u32)
        << 24u32)) == n) by (bit_vector)
        requires
            b0 == (n & 0xff) as u8,
            b1 == ((n >> 8u32) & 0xff) as u8,
            b2 == ((n >> 16u32) & 0xff) as u8,
            b3 == ((n >> 24u32) & 0xff) as u8,
    ;
}

proof fn lemma_decode_text(t: Seq<u8>, pre: Seq<u8>, rest: Seq<u8>)
    requires
        t.len() <= u32::MAX,
    ensures
        decode_text(pre + encode_text(t) + rest, pre.len() as int) == Some(
            (t, (pre.len() + 4 + t.len()) as int),
        ),
{
    let b = pre + encode_text(t) + rest;
    let at = pre.len() as int;
    lemma_le_round_trip(t.len() as u32);
    assert(b.subrange(at, at + 4) =~= le_bytes(t.len() as u32));
    assert(le_value(b, at) == le_value(le_bytes(t.len() as u32), 0));
    assert(b.subrange(at + 4, at + 4 + t.len()) =~= t);
}

/// Decoding the stored layout of a record, followed by any bytes, gives the record back.
pub proof fn lemma_decode_encode(m: RecordModel, rest: Seq<u8>)
    requires
        texts_fit(m),
    ensures
        decode_record(encode_record(m) + rest) == Some(m),
{
    let head = seq![if m.is_initialized { 1u8 } else { 0u8 }, m.rating];
    let e1 = head + encode_text(m.title);
    let e2 = e1 + encode_text(m.description);
    let e3 = e2 + encode_text(m.location);
    let b = e3 + rest;
    assert(b =~= head + encode_text(m.title) + (encode_text(m.description) + encode_text(m.location)
        + rest));
    lemma_decode_text(m.title, head, encode_text(m.description) + encode_text(m.location) + rest);
    assert(b =~= e1 + encode_text(m.description) + (encode_text(m.location) + rest));
    lemma_decode_text(m.description, e1, encode_text(m.location) + rest);
    assert(b =~= e2 + encode_text(m.location) + rest);
    lemma_decode_text(m.location, e2, rest);
    assert(b[0] == head[0] && b[1] == head[1]);
}

/// The record that zero-filled storage holds: uninitialized, rating 0, empty texts.
pub open spec fn empty_record() -> RecordModel {
    RecordModel {
        is_initialized: false,
        rating: 0,
        title: Seq::empty(),
        description: Seq::empty(),
        location: Seq::empty(),
    }
}

/// Zero-filled storage of at least `MIN_RECORD_LEN` bytes decodes to the empty,
/// uninitialized record.
pub proof fn lemma_zeroed_decodes_empty(n: nat)
    requires
        n >= MIN_RECORD_LEN,
    ensures
        decode_record(Seq::new(n, |_i: int| 0u8)) == Some(empty_record()),
{
    let b = Seq::new(n, |_i: int| 0u8);
    let z = 0u8;
    assert(((z as u32) | ((z as u32) << 8u32) | ((z as u32) << 16u32) | ((z as u32) << 24u32))
        == 0u32) by (bit_vector)
        requires
            z == 0u8,
    ;
    assert(le_value(b, 2) == 0);
    assert(le_value(b, 6) == 0);
    assert(le_value(b, 10) == 0);
    assert(b.subrange(6, 6) =~= Seq::<u8>::empty());
    assert(b.subrange(10, 10) =~= Seq::<u8>::empty());
    assert(b.subrange(14, 14) =~= Seq::<u8>::empty());
}

/// Reads the four-byte length at `at`.
fn read_len(b: &[u8], at: usize) -> (r: u32)
    requires
        at + 4 <= b@.len(),
    ensures
        r == le_value(b@, at as int),
{
    (b[at] as u32) | ((b[at + 1] as u32) << 8u32) | ((b[at + 2] as u32) << 16u32) | ((b[at + 3]
        as u32) << 24u32)
}

/// Reads the text field at `at`: its bytes and where the next field starts.
pub(crate) fn read_text(b: &[u8], at: usize) -> (r: Option<(Vec<u8>, usize)>)
    ensures
        match decode_text(b@, at as int) {
            None => r is None,
            Some((t, end)) => r matches Some((v, e)) && v@ == t && e == end,
        },
{
    if at > b.len() || b.len() - at < 4 {
        return None;
    }
    let n = read_len(b, at);
    if ((b.len() - at - 4) as u64) < (n as u64) {
        return None;
    }
    let end = at + 4 + n as usize;
    let mut v: Vec<u8> = Vec::new();
    let mut i: usize = at + 4;
    while i < end
        invariant
            at + 4 <= i <= end <= b@.len(),
            v@ =~= b@.subrange(at + 4, i as int),
        decreases end - i,
    {
        v.push(b[i]);
        i = i + 1;
    }
    Some((v, end))
}

/// Decodes the record that `bytes` begins with. All-zero bytes decode to an
/// uninitialized record with empty texts; trailing bytes are ignored.
pub fn decode(bytes: &[u8]) -> (r: Result<ReviewRecord, ReviewError>)
    ensures
        match decode_record(bytes@) {
            None => r == Err::<ReviewRecord, ReviewError>(ReviewError::DecodeError),
            Some(m) => r matches Ok(rec) && rec@ == m,
        },
{
    if bytes.len() < 2 {
        return Err(ReviewError::DecodeError);
    }
    let (title, p) = match read_text(bytes, 2) {
        None => return Err(ReviewError::DecodeError),
        Some(x) => x,
    };
    let (description, q) = match read_text(bytes, p) {
        None => return Err(ReviewError::DecodeError),
        Some(x) => x,
    };
    let (location, _) = match read_text(bytes, q) {
        None => return Err(ReviewError::DecodeError),
        Some(x) => x,
    };
    Ok(ReviewRecord { is_initialized: bytes[0] != 0, rating: bytes[1], title, description, location })
}

/// Number of bytes that `encode_record` gives for `m`.
pub open spec fn encoded_len(m: RecordModel) -> int {
    MIN_RECORD_LEN + m.title.len() + m.description.len() + m.location.len()
}

fn push_text(out: &mut Vec<u8>, t: &Vec<u8>)
    requires
        t@.len() <= u32::MAX,
    ensures
        final(out)@ == old(out)@ + encode_text(t@),
{
    let n = t.len() as u32;
    out.push((n & 0xff) as u8);
    out.push(((n >> 8u32) & 0xff) as u8);
    out.push(((n >> 16u32) & 0xff) as u8);
    out.push(((n >> 24u32) & 0xff) as u8);
    let mut i: usize = 0;
    let ghost start = out@;
    while i < t.len()
        invariant
            i <= t@.len(),
            out@ =~= start + t@.subrange(0, i as int),
        decreases t@.len() - i,
    {
        out.push(t[i]);
        i = i + 1;
    }
    assert(start =~= old(out)@ + le_bytes(n));
    assert(t@.subrange(0, t@.len() as int) =~= t@);
}

/// Length of the record's encoding, computed without overflow.
pub fn record_len(rec: &ReviewRecord) -> (r: usize)
    ensures
        r == if encoded_len(rec@) <= RECORD_SPACE { encoded_len(rec@) } else { RECORD_SPACE + 1 },
{
    let fixed = MIN_RECORD_LEN;
    if rec.title.len() > RECORD_SPACE || rec.description.len() > RECORD_SPACE
        || rec.location.len() > RECORD_SPACE {
        return RECORD_SPACE + 1;
    }
    let n = fixed + rec.title.len() + rec.description.len() + rec.location.len();
    if n > RECORD_SPACE {
        RECORD_SPACE + 1
    } else {
        n
    }
}

/// Encodes a record; fails where the encoding would not fit in `RECORD_SPACE` bytes.
pub fn encode(rec: &ReviewRecord) -> (r: Result<Vec<u8>, ReviewError>)
    ensures
        encoded_len(rec@) <= RECORD_SPACE ==> (r matches Ok(b) && b@ == encode_record(rec@)),
        encoded_len(rec@) > RECORD_SPACE ==> r == Err::<Vec<u8>, ReviewError>(
            ReviewError::RecordTooLarge,
        ),
{
    if record_len(rec) > RECORD_SPACE {
        return Err(ReviewError::RecordTooLarge);
    }
    let mut out: Vec<u8> = Vec::new();
    out.push(if rec.is_initialized { 1u8 } else { 0u8 });
    out.push(rec.rating);
    push_text(&mut out, &rec.title);
    push_text(&mut out, &rec.description);
    push_text(&mut out, &rec.location);
    Ok(out)
}

} // verus!
