//! Fixed layouts of the byte buffers that the scheme exchanges.
//!
//! Integers are little-endian. A partial signature is a record of constant
//! width: the payload's length as eight bytes, the payload, and the signer's
//! index as four bytes. Records are concatenated without delimiters.

use crate::error::SchemeError;
use vstd::prelude::*;
use vstd::slice::{slice_subrange, slice_to_vec};

verus! {

/// Width in bytes of the length prefix that precedes a signature payload.
pub const VEC_LENGTH: usize = 8;

/// Width in bytes of a signature, and of a blinded message.
pub const SIGNATURE_LEN: usize = 48;

/// Width in bytes of a signer index.
pub const INDEX_LEN: usize = 4;

/// Width in bytes of one partial signature record: prefix, payload and index.
pub const PARTIAL_SIG_LENGTH: usize = 60;

/// Number of entropy bytes that seed the blinding generator.
pub const SEED_LEN: usize = 32;

/// Width in bytes of a blinding factor.
pub const TOKEN_LEN: usize = 32;

/// Width in bytes of a private key share: the index, then the scalar.
pub const SHARE_LEN: usize = 36;

/// Width in bytes of a public key, and of each coefficient of a public polynomial.
pub const PUBLIC_KEY_LEN: usize = 96;

/// The integer that the first four bytes of `b` spell, least significant first.
pub open spec fn le32(b: Seq<u8>) -> int {
    b[0] + 256 * b[1] + 65536 * b[2] + 16777216 * b[3]
}

/// The integer that the first eight bytes of `b` spell, least significant first.
pub open spec fn le64(b: Seq<u8>) -> int {
    le32(b.subrange(0, 4)) + 4294967296 * le32(b.subrange(4, 8))
}

/// Reads the four bytes at `at` as a little-endian integer.
pub fn read_u32(bytes: &[u8], at: usize) -> (v: u32)
    requires
        at + 4 <= bytes@.len(),
    ensures
        v == le32(bytes@.subrange(at as int, at + 4)),
{
    let b0: u32 = bytes[at] as u32;
    let b1: u32 = bytes[at + 1] as u32;
    let b2: u32 = bytes[at + 2] as u32;
    let b3: u32 = bytes[at + 3] as u32;
    b0 + b1 * 256 + b2 * 65536 + b3 * 16777216
}

/// Reads the eight bytes at `at` as a little-endian integer.
pub fn read_u64(bytes: &[u8], at: usize) -> (v: u64)
    requires
        at + 8 <= bytes@.len(),
    ensures
        v == le64(bytes@.subrange(at as int, at + 8)),
{
    let _len: usize = bytes.len();
    let low: u64 = read_u32(bytes, at) as u64;
    let high: u64 = read_u32(bytes, at + 4) as u64;
    proof {
        let whole = bytes@.subrange(at as int, at + 8);
        assert(whole.subrange(0, 4) =~= bytes@.subrange(at as int, at + 4));
        assert(whole.subrange(4, 8) =~= bytes@.subrange(at + 4, at + 8));
    }
    low + high * 4294967296
}

/// Whether `r` is laid out as one partial signature: the record width, a length
/// prefix that announces a payload of signature width, and a signer index whose
/// evaluation point, the index plus one, is still a 32-bit number.
pub open spec fn is_record(r: Seq<u8>) -> bool {
    &&& r.len() == PARTIAL_SIG_LENGTH
    &&& le64(r.subrange(0, 8)) == SIGNATURE_LEN
    &&& le32(r.subrange(56, 60)) < u32::MAX
}

/// The signer index that a record carries.
pub open spec fn record_index(r: Seq<u8>) -> int {
    le32(r.subrange(56, 60))
}

/// The signature payload that a record carries.
pub open spec fn record_signature(r: Seq<u8>) -> Seq<u8> {
    r.subrange(8, 56)
}

/// The four bytes that spell `x`, least significant first.
pub open spec fn le32_bytes(x: int) -> Seq<u8> {
    seq![
        (x % 256) as u8,
        (x / 256 % 256) as u8,
        (x / 65536 % 256) as u8,
        (x / 16777216 % 256) as u8,
    ]
}

/// The eight bytes that announce a payload of signature width.
pub open spec fn length_prefix() -> Seq<u8> {
    seq![48u8, 0u8, 0u8, 0u8, 0u8, 0u8, 0u8, 0u8]
}

/// The record that carries `signature` for the signer `index`.
pub open spec fn record_of(index: int, signature: Seq<u8>) -> Seq<u8> {
    length_prefix() + signature + le32_bytes(index)
}

/// One partial signature, taken apart.
#[derive(Debug)]
pub struct PartialSignature {
    /// The signer's index.
    pub index: u32,
    /// The signature payload.
    pub signature: Vec<u8>,
}

/// Writes `x` as four bytes, least significant first.
pub fn write_u32(x: u32) -> (bytes: Vec<u8>)
    ensures
        bytes@ == le32_bytes(x as int),
        le32(bytes@) == x,
{
    let mut bytes: Vec<u8> = Vec::new();
    bytes.push((x % 256) as u8);
    bytes.push((x / 256 % 256) as u8);
    bytes.push((x / 65536 % 256) as u8);
    bytes.push((x / 16777216 % 256) as u8);
    proof {
        assert(bytes@ =~= le32_bytes(x as int));
    }
    bytes
}

/// Lays out a partial signature as a record. A payload that has not signature
/// width, or an index without successor in 32 bits, cannot be laid out.
pub fn encode_partial(index: u32, signature: &[u8]) -> (r: Result<Vec<u8>, SchemeError>)
    ensures
        signature@.len() == SIGNATURE_LEN && index < u32::MAX ==> (r matches Ok(record)
            && record@ == record_of(index as int, signature@) && is_record(record@)),
        !(signature@.len() == SIGNATURE_LEN && index < u32::MAX) ==> r matches Err(
            SchemeError::Decode,
        ),
{
    if signature.len() != SIGNATURE_LEN || index == u32::MAX {
        return Err(SchemeError::Decode);
    }
    let mut record: Vec<u8> = Vec::new();
    record.push(48);
    let mut i: usize = 1;
    while i < VEC_LENGTH
        invariant
            1 <= i <= 8,
            record@.len() == i,
            record@[0] == 48,
            forall|k: int| 1 <= k < i ==> #[trigger] record@[k] == 0,
        decreases 8 - i,
    {
        record.push(0);
        i = i + 1;
    }
    assert(record@ =~= length_prefix());
    let mut payload: Vec<u8> = slice_to_vec(signature);
    record.append(&mut payload);
    let mut tail: Vec<u8> = write_u32(index);
    record.append(&mut tail);
    proof {
        lemma_record_of_is_record(index as int, signature@);
    }
    Ok(record)
}

/// Takes a record apart into its signer index and its payload.
pub fn decode_partial(record: &[u8]) -> (r: Result<PartialSignature, SchemeError>)
    ensures
        is_record(record@) ==> (r matches Ok(partial) && partial.index == record_index(record@)
            && partial.signature@ == record_signature(record@)),
        !is_record(record@) ==> r matches Err(SchemeError::Decode),
{
    match record_index_of(record) {
        Ok(index) => Ok(
            PartialSignature {
                index,
                signature: slice_to_vec(
                    slice_subrange(record, VEC_LENGTH, VEC_LENGTH + SIGNATURE_LEN),
                ),
            },
        ),
        Err(e) => Err(e),
    }
}

/// The record laid out for an index and a payload is a record, and carries both.
pub proof fn lemma_record_of_is_record(index: int, signature: Seq<u8>)
    requires
        signature.len() == 48,
        0 <= index < u32::MAX,
    ensures
        is_record(record_of(index, signature)),
        record_index(record_of(index, signature)) == index,
        record_signature(record_of(index, signature)) == signature,
{
    let r = record_of(index, signature);
    assert(r.len() == 60);
    assert(r.subrange(0, 8) =~= length_prefix());
    assert(r.subrange(56, 60) =~= le32_bytes(index));
    assert(r.subrange(8, 56) =~= signature);
    assert(length_prefix().subrange(0, 4) =~= seq![48u8, 0u8, 0u8, 0u8]);
    assert(length_prefix().subrange(4, 8) =~= seq![0u8, 0u8, 0u8, 0u8]);
}

/// Four bytes are the spelling of the integer that they spell.
pub proof fn lemma_le32_bytes_of_le32(b: Seq<u8>)
    requires
        b.len() == 4,
    ensures
        le32_bytes(le32(b)) == b,
{
    let b0 = b[0] as int;
    let b1 = b[1] as int;
    let b2 = b[2] as int;
    let b3 = b[3] as int;
    let x = b0 + 256 * b1 + 65536 * b2 + 16777216 * b3;
    assert(x == le32(b));
    assert(x % 256 == b0);
    assert(x / 256 == b1 + 256 * b2 + 65536 * b3);
    assert(x / 256 % 256 == b1);
    assert(x / 65536 == b2 + 256 * b3);
    assert(x / 65536 % 256 == b2);
    assert(x / 16777216 == b3);
    assert(le32_bytes(x) =~= b);
}

/// Eight bytes that spell the signature width are the length prefix.
pub proof fn lemma_prefix_of_signature_width(head: Seq<u8>)
    requires
        head.len() == 8,
        le64(head) == 48,
    ensures
        head == length_prefix(),
{
    let low = head.subrange(0, 4);
    let high = head.subrange(4, 8);
    assert(low[0] == head[0] && low[1] == head[1] && low[2] == head[2] && low[3] == head[3]);
    assert(high[0] == head[4] && high[1] == head[5] && high[2] == head[6] && high[3] == head[7]);
    assert(le32(low) >= 0 && le32(high) >= 0);
    assert(le32(high) == 0);
    assert(le32(low) == 48);
    assert(head =~= length_prefix());
}

/// A record is the layout of the index and the payload that it carries: taking
/// a record apart and laying the parts out again gives the same bytes.
pub proof fn lemma_record_is_its_layout(r: Seq<u8>)
    requires
        is_record(r),
    ensures
        record_of(record_index(r), record_signature(r)) == r,
{
    lemma_prefix_of_signature_width(r.subrange(0, 8));
    lemma_le32_bytes_of_le32(r.subrange(56, 60));
    assert(record_of(record_index(r), record_signature(r)) =~= r.subrange(0, 8) + r.subrange(
        8,
        56,
    ) + r.subrange(56, 60));
    assert(r.subrange(0, 8) + r.subrange(8, 56) + r.subrange(56, 60) =~= r);
}

/// Checks the layout of one record and reads its signer index.
pub fn record_index_of(record: &[u8]) -> (r: Result<u32, SchemeError>)
    ensures
        is_record(record@) ==> r == Ok::<u32, SchemeError>(record_index(record@) as u32),
        !is_record(record@) ==> r == Err::<u32, SchemeError>(SchemeError::Decode),
{
    if record.len() != PARTIAL_SIG_LENGTH {
        return Err(SchemeError::Decode);
    }
    let announced: u64 = read_u64(record, 0);
    let index: u32 = read_u32(record, 56);
    if announced != 48 || index == u32::MAX {
        return Err(SchemeError::Decode);
    }
    Ok(index)
}

/// The records of a stream whose length is a multiple of the record width, in order.
pub open spec fn chunks(stream: Seq<u8>) -> Seq<Seq<u8>> {
    Seq::new((stream.len() / 60) as nat, |i: int| stream.subrange(i * 60, i * 60 + 60))
}

/// The contents of a list of buffers.
pub open spec fn views(buffers: Seq<Vec<u8>>) -> Seq<Seq<u8>> {
    Seq::new(buffers.len(), |i: int| buffers[i]@)
}

/// Whether every entry is laid out as a partial signature.
pub open spec fn all_records(rs: Seq<Seq<u8>>) -> bool {
    forall|i: int| 0 <= i < rs.len() ==> is_record(#[trigger] rs[i])
}

/// The signer indices of a list of records, in order.
pub open spec fn indices_of(rs: Seq<Seq<u8>>) -> Seq<int> {
    Seq::new(rs.len(), |i: int| record_index(rs[i]))
}

/// Whether no two records of the list carry the same signer index.
pub open spec fn distinct_indices(rs: Seq<Seq<u8>>) -> bool {
    indices_of(rs).no_duplicates()
}

/// Why a stream of partial signatures cannot be combined under `threshold`, if
/// it cannot: a length that is no multiple of the record width or a record that
/// is not laid out as one is a decoding fault; fewer records than the threshold,
/// or a signer index that occurs twice, leaves too few shares.
pub open spec fn stream_fault(threshold: int, stream: Seq<u8>) -> Option<SchemeError> {
    if stream.len() % 60 != 0 {
        Some(SchemeError::Decode)
    } else if !all_records(chunks(stream)) {
        Some(SchemeError::Decode)
    } else if chunks(stream).len() < threshold {
        Some(SchemeError::InsufficientShares)
    } else if !distinct_indices(chunks(stream)) {
        Some(SchemeError::InsufficientShares)
    } else {
        None
    }
}

/// Cuts a stream into records by fixed stride. A truncated tail is an error.
pub fn split_records(stream: &[u8]) -> (r: Result<Vec<Vec<u8>>, SchemeError>)
    ensures
        stream@.len() % 60 != 0 ==> (r matches Err(e) && e == SchemeError::Decode),
        stream@.len() % 60 == 0 ==> (r matches Ok(v) && views(v@) == chunks(stream@)),
{
    let total: usize = stream.len();
    if total % PARTIAL_SIG_LENGTH != 0 {
        return Err(SchemeError::Decode);
    }
    let count: usize = total / PARTIAL_SIG_LENGTH;
    let mut out: Vec<Vec<u8>> = Vec::new();
    let mut i: usize = 0;
    while i < count
        invariant
            total == stream@.len(),
            total % 60 == 0,
            count == total / 60,
            i <= count,
            out@.len() == i,
            forall|k: int|
                0 <= k < i ==> (#[trigger] out@[k])@ == stream@.subrange(k * 60, k * 60 + 60),
        decreases count - i,
    {
        let start: usize = i * PARTIAL_SIG_LENGTH;
        let piece: Vec<u8> = slice_to_vec(slice_subrange(stream, start, start + PARTIAL_SIG_LENGTH));
        out.push(piece);
        i = i + 1;
    }
    proof {
        assert(views(out@) =~= chunks(stream@));
    }
    Ok(out)
}

/// The stream that holds the given buffers one after another.
pub open spec fn joined(rs: Seq<Seq<u8>>) -> Seq<u8>
    decreases rs.len(),
{
    if rs.len() == 0 {
        Seq::<u8>::empty()
    } else {
        joined(rs.drop_last()) + rs.last()
    }
}

/// Whether every entry has the record width.
pub open spec fn all_of_record_width(rs: Seq<Seq<u8>>) -> bool {
    forall|i: int| 0 <= i < rs.len() ==> (#[trigger] rs[i]).len() == 60
}

/// Concatenates buffers into one stream, without delimiters.
pub fn join_records(records: &Vec<Vec<u8>>) -> (stream: Vec<u8>)
    ensures
        stream@ == joined(views(records@)),
{
    let n: usize = records.len();
    let mut stream: Vec<u8> = Vec::new();
    let mut i: usize = 0;
    while i < n
        invariant
            n == records@.len(),
            i <= n,
            stream@ == joined(views(records@).subrange(0, i as int)),
        decreases n - i,
    {
        proof {
            let next = views(records@).subrange(0, i + 1);
            assert(next.drop_last() =~= views(records@).subrange(0, i as int));
            assert(next.last() == records@[i as int]@);
        }
        stream.extend_from_slice(records[i].as_slice());
        i = i + 1;
    }
    proof {
        assert(views(records@).subrange(0, n as int) =~= views(records@));
    }
    stream
}

/// Cutting a stream joined from buffers of record width gives the buffers back.
pub proof fn lemma_chunks_of_joined(rs: Seq<Seq<u8>>)
    requires
        all_of_record_width(rs),
    ensures
        joined(rs).len() == 60 * rs.len(),
        chunks(joined(rs)) == rs,
    decreases rs.len(),
{
    if rs.len() == 0 {
        assert(chunks(joined(rs)) =~= rs);
    } else {
        let front = rs.drop_last();
        lemma_chunks_of_joined(front);
        let s = joined(rs);
        let a = joined(front);
        assert(s == a + rs.last());
        assert(s.len() == 60 * rs.len());
        assert(chunks(s).len() == rs.len());
        assert forall|i: int| 0 <= i < rs.len() implies chunks(s)[i] == rs[i] by {
            if i < rs.len() - 1 {
                assert(s.subrange(i * 60, i * 60 + 60) =~= a.subrange(i * 60, i * 60 + 60));
                assert(chunks(a)[i] == front[i]);
            } else {
                assert(s.subrange(i * 60, i * 60 + 60) =~= rs.last());
            }
        }
        assert(chunks(s) =~= rs);
    }
}

/// Joining the records cut from a stream gives the stream back.
pub proof fn lemma_joined_chunks(stream: Seq<u8>)
    requires
        stream.len() % 60 == 0,
    ensures
        joined(chunks(stream)) == stream,
    decreases stream.len(),
{
    let rs = chunks(stream);
    if stream.len() == 0 {
        assert(joined(rs) =~= stream);
    } else {
        let n = rs.len() as int;
        let front = stream.subrange(0, stream.len() - 60);
        lemma_joined_chunks(front);
        assert(chunks(front).len() == n - 1);
        assert forall|i: int| 0 <= i < n - 1 implies chunks(front)[i] == rs[i] by {
            assert(front.subrange(i * 60, i * 60 + 60) =~= stream.subrange(i * 60, i * 60 + 60));
        }
        assert(chunks(front) =~= rs.drop_last());
        assert(rs.last() =~= stream.subrange(stream.len() - 60, stream.len() as int));
        assert(joined(rs) =~= stream);
    }
}

/// Reads the signer index of every record, or reports the first layout fault.
pub fn record_indices(records: &Vec<Vec<u8>>) -> (r: Result<Vec<u32>, SchemeError>)
    ensures
        all_records(views(records@)) ==> (r matches Ok(ix) && ix@.len() == records@.len()
            && forall|k: int|
            0 <= k < ix@.len() ==> #[trigger] ix@[k] == record_index(records@[k]@)),
        !all_records(views(records@)) ==> (r matches Err(e) && e == SchemeError::Decode),
{
    let n: usize = records.len();
    let mut out: Vec<u32> = Vec::new();
    let mut i: usize = 0;
    while i < n
        invariant
            n == records@.len(),
            i <= n,
            out@.len() == i,
            forall|k: int| 0 <= k < i ==> is_record(#[trigger] views(records@)[k]),
            forall|k: int| 0 <= k < i ==> #[trigger] out@[k] == record_index(records@[k]@),
        decreases n - i,
    {
        match record_index_of(records[i].as_slice()) {
            Ok(index) => {
                out.push(index);
            },
            Err(e) => {
                proof {
                    assert(!is_record(views(records@)[i as int]));
                }
                return Err(e);
            },
        }
        i = i + 1;
    }
    Ok(out)
}

/// Whether some value occurs at two places of the list.
pub fn has_duplicate(indices: &Vec<u32>) -> (found: bool)
    ensures
        found == !indices@.no_duplicates(),
{
    let n: usize = indices.len();
    let mut i: usize = 0;
    while i < n
        invariant
            n == indices@.len(),
            i <= n,
            forall|a: int, b: int| 0 <= a < i && a < b < n ==> indices@[a] != indices@[b],
        decreases n - i,
    {
        let mut j: usize = i + 1;
        while j < n
            invariant
                n == indices@.len(),
                i < n,
                i < j <= n,
                forall|b: int| i < b < j ==> indices@[i as int] != indices@[b],
            decreases n - j,
        {
            if indices[i] == indices[j] {
                return true;
            }
            j = j + 1;
        }
        i = i + 1;
    }
    proof {
        assert forall|a: int, b: int|
            0 <= a < n && 0 <= b < n && a != b implies indices@[a] != indices@[b] by {
            if a < b {
            } else {
                assert(indices@[b] != indices@[a]);
            }
        }
    }
    false
}

/// Cuts a stream into records and admits them for combination under
/// `threshold`: every record laid out as one, at least `threshold` of them, and
/// no signer index twice. A duplicate is refused, never dropped.
pub fn admit_records(threshold: usize, stream: &[u8]) -> (r: Result<Vec<Vec<u8>>, SchemeError>)
    ensures
        match stream_fault(threshold as int, stream@) {
            Some(fault) => r matches Err(e) && e == fault,
            None => r matches Ok(v) && views(v@) == chunks(stream@),
        },
{
    let records: Vec<Vec<u8>> = match split_records(stream) {
        Ok(v) => v,
        Err(e) => {
            return Err(e);
        },
    };
    let indices: Vec<u32> = match record_indices(&records) {
        Ok(ix) => ix,
        Err(e) => {
            return Err(e);
        },
    };
    if records.len() < threshold {
        return Err(SchemeError::InsufficientShares);
    }
    let repeated: bool = has_duplicate(&indices);
    proof {
        let rs = views(records@);
        let ints = indices_of(rs);
        assert forall|k: int| 0 <= k < ints.len() implies ints[k] == indices@[k] by {
            assert(is_record(rs[k]));
        }
        if indices@.no_duplicates() {
            assert forall|a: int, b: int|
                0 <= a < ints.len() && 0 <= b < ints.len() && a != b implies ints[a] != ints[b] by {
                assert(indices@[a] != indices@[b]);
            }
        } else {
            let (a, b) = choose|a: int, b: int|
                0 <= a < indices@.len() && 0 <= b < indices@.len() && a != b && indices@[a]
                    == indices@[b];
            assert(ints[a] == ints[b]);
        }
    }
    if repeated {
        return Err(SchemeError::InsufficientShares);
    }
    Ok(records)
}

/// The first 32 bytes of the caller's entropy, which seed the blinding generator.
pub fn seed_prefix(entropy: &[u8]) -> (r: Result<Vec<u8>, SchemeError>)
    ensures
        entropy@.len() < 32 ==> (r matches Err(e) && e == SchemeError::Seed),
        entropy@.len() >= 32 ==> (r matches Ok(seed) && seed@ == entropy@.subrange(0, 32)),
{
    if entropy.len() < SEED_LEN {
        return Err(SchemeError::Seed);
    }
    Ok(slice_to_vec(slice_subrange(entropy, 0, SEED_LEN)))
}

/// Whether every byte is zero. A blinding factor of zero bytes is the zero scalar.
pub open spec fn is_zero(bytes: Seq<u8>) -> bool {
    forall|i: int| 0 <= i < bytes.len() ==> #[trigger] bytes[i] == 0
}

/// Tests whether every byte of the buffer is zero.
pub fn all_zero(bytes: &[u8]) -> (zero: bool)
    ensures
        zero == is_zero(bytes@),
{
    let n: usize = bytes.len();
    let mut i: usize = 0;
    while i < n
        invariant
            n == bytes@.len(),
            i <= n,
            forall|k: int| 0 <= k < i ==> #[trigger] bytes@[k] == 0,
        decreases n - i,
    {
        if bytes[i] != 0 {
            return false;
        }
        i = i + 1;
    }
    true
}

/// Whether `p` is laid out as a public polynomial: the number of coefficients
/// as eight bytes, at least one, then that many coefficients of public key width.
pub open spec fn is_polynomial(p: Seq<u8>) -> bool {
    &&& p.len() >= 8
    &&& le64(p.subrange(0, 8)) >= 1
    &&& p.len() - 8 == 96 * le64(p.subrange(0, 8))
}

/// Checks the layout of a public polynomial.
pub fn polynomial_framed(p: &[u8]) -> (ok: bool)
    ensures
        ok == is_polynomial(p@),
{
    if p.len() < VEC_LENGTH {
        return false;
    }
    let announced: u64 = read_u64(p, 0);
    let rest: usize = p.len() - VEC_LENGTH;
    announced >= 1 && rest % PUBLIC_KEY_LEN == 0 && (rest / PUBLIC_KEY_LEN) as u64 == announced
}

/// The signer index that a private key share carries in its first four bytes.
pub open spec fn share_index(share: Seq<u8>) -> int {
    le32(share.subrange(0, 4))
}

/// Checks the width of a private key share and reads its signer index.
pub fn share_index_of(share: &[u8]) -> (r: Result<u32, SchemeError>)
    ensures
        share@.len() == SHARE_LEN ==> r == Ok::<u32, SchemeError>(share_index(share@) as u32),
        share@.len() != SHARE_LEN ==> r == Err::<u32, SchemeError>(SchemeError::Decode),
{
    if share.len() != SHARE_LEN {
        return Err(SchemeError::Decode);
    }
    Ok(read_u32(share, 0))
}

/// The number of coefficients that a public polynomial announces: the threshold.
pub open spec fn polynomial_len(p: Seq<u8>) -> int {
    le64(p.subrange(0, 8))
}

/// The constant term of a public polynomial, which is the group's public key.
pub open spec fn constant_term(p: Seq<u8>) -> Seq<u8> {
    p.subrange(8, 104)
}

/// Reads the threshold of a public polynomial: the number of its coefficients.
pub fn polynomial_threshold(p: &[u8]) -> (r: Result<u64, SchemeError>)
    ensures
        is_polynomial(p@) ==> r == Ok::<u64, SchemeError>(polynomial_len(p@) as u64),
        !is_polynomial(p@) ==> r == Err::<u64, SchemeError>(SchemeError::Decode),
        r matches Ok(t) ==> t >= 1 && p@.len() == 8 + 96 * t,
{
    if !polynomial_framed(p) {
        return Err(SchemeError::Decode);
    }
    Ok(read_u64(p, 0))
}

/// Reads the group's public key off a public polynomial.
pub fn polynomial_public_key(p: &[u8]) -> (r: Result<Vec<u8>, SchemeError>)
    ensures
        is_polynomial(p@) ==> (r matches Ok(key) && key@ == constant_term(p@) && key@.len()
            == PUBLIC_KEY_LEN),
        !is_polynomial(p@) ==> r matches Err(SchemeError::Decode),
{
    if !polynomial_framed(p) {
        return Err(SchemeError::Decode);
    }
    Ok(slice_to_vec(slice_subrange(p, VEC_LENGTH, VEC_LENGTH + PUBLIC_KEY_LEN)))
}

} // verus!
