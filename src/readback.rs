use vstd::prelude::*;

use crate::bits::{is_finite_bits, spec_is_finite};
use crate::driver::SolveError;

verus! {

/// The 32-bit word whose little-endian bytes are `b0, b1, b2, b3`.
pub open spec fn le_word(b0: u8, b1: u8, b2: u8, b3: u8) -> u32 {
    (b0 as nat + 0x100 * (b1 as nat) + 0x1_0000 * (b2 as nat) + 0x100_0000 * (b3 as nat)) as u32
}

/// Byte `k` (0 is the least significant) of `w`.
pub open spec fn byte_of(w: u32, k: nat) -> u8 {
    if k == 0 {
        (w % 0x100) as u8
    } else if k == 1 {
        ((w / 0x100) % 0x100) as u8
    } else if k == 2 {
        ((w / 0x1_0000) % 0x100) as u8
    } else {
        (w / 0x100_0000) as u8
    }
}

/// The words read from `bs` four bytes at a time, least significant byte first.
pub open spec fn words_of(bs: Seq<u8>) -> Seq<u32> {
    Seq::new(
        bs.len() / 4,
        |i: int| le_word(bs[4 * i], bs[4 * i + 1], bs[4 * i + 2], bs[4 * i + 3]),
    )
}

/// The little-endian byte image of `ws`, four bytes per word.
pub open spec fn le_bytes_of(ws: Seq<u32>) -> Seq<u8> {
    Seq::new(4 * ws.len(), |i: int| byte_of(ws[i / 4], (i % 4) as nat))
}

/// Why a read-back byte range could not be decoded.
#[derive(Clone, Copy, Debug, PartialEq, Eq, Structural)]
pub enum DecodeError {
    /// The range does not split into whole 32-bit words.
    TrailingBytes,
}

proof fn lemma_word_bytes(w: u32)
    ensures
        le_word(byte_of(w, 0), byte_of(w, 1), byte_of(w, 2), byte_of(w, 3)) == w,
{
    assert((w % 0x100) + 0x100 * ((w / 0x100) % 0x100) + 0x1_0000 * ((w / 0x1_0000) % 0x100)
        + 0x100_0000 * (w / 0x100_0000) == w) by (bit_vector);
}

/// Decoding the little-endian image of any word sequence gives that sequence
/// back: a staging buffer filled with known words reads back as exactly those
/// words.
pub proof fn lemma_decode_encode_round_trip(ws: Seq<u32>)
    ensures
        words_of(le_bytes_of(ws)) == ws,
{
    let bs = le_bytes_of(ws);
    assert forall|i: int| 0 <= i < ws.len() implies #[trigger] words_of(bs)[i] == ws[i] by {
        assert((4 * i) / 4 == i && (4 * i) % 4 == 0) by (nonlinear_arith);
        assert((4 * i + 1) / 4 == i && (4 * i + 1) % 4 == 1) by (nonlinear_arith);
        assert((4 * i + 2) / 4 == i && (4 * i + 2) % 4 == 2) by (nonlinear_arith);
        assert((4 * i + 3) / 4 == i && (4 * i + 3) % 4 == 3) by (nonlinear_arith);
        assert(4 * i + 3 < 4 * ws.len()) by (nonlinear_arith)
            requires
                i < ws.len(),
        ;
        lemma_word_bytes(ws[i]);
    }
    assert(words_of(bs) =~= ws);
}

/// Decodes a read-back byte range into 32-bit words, four bytes each, least
/// significant byte first, in buffer order.
pub fn decode_le_words(bytes: &[u8]) -> (r: Result<Vec<u32>, DecodeError>)
    ensures
        bytes@.len() % 4 == 0 <==> r is Ok,
        r is Ok ==> r.unwrap()@ == words_of(bytes@),
        r is Err ==> r == Err::<Vec<u32>, DecodeError>(DecodeError::TrailingBytes),
{
    if bytes.len() % 4 != 0 {
        return Err(DecodeError::TrailingBytes);
    }
    let len = bytes.len();
    let count = len / 4;
    let mut out: Vec<u32> = Vec::with_capacity(count);
    let mut i: usize = 0;
    while i < count
        invariant
            len == bytes@.len(),
            count == len / 4,
            len % 4 == 0,
            i <= count,
            out@ =~= words_of(bytes@).take(i as int),
        decreases count - i,
    {
        assert(4 * i + 3 < len) by (nonlinear_arith)
            requires
                i < count,
                count == len / 4,
                len % 4 == 0,
        ;
        let base = 4 * i;
        let w: u32 = bytes[base] as u32 + (bytes[base + 1] as u32) * 0x100
            + (bytes[base + 2] as u32) * 0x1_0000 + (bytes[base + 3] as u32) * 0x100_0000;
        out.push(w);
        i += 1;
    }
    assert(out@ =~= words_of(bytes@));
    Ok(out)
}

/// What reading back `n` unknowns from the mapped `bytes` gives: the decoded
/// words when the range holds exactly `n` of them and all are finite.
pub open spec fn solution_outcome(n: nat, bytes: Seq<u8>) -> Result<Seq<u32>, SolveError> {
    if bytes.len() != 4 * n {
        Err(SolveError::MalformedReadBack)
    } else if exists|i: int| 0 <= i < n && !spec_is_finite(#[trigger] words_of(bytes)[i]) {
        Err(SolveError::NonFiniteResult)
    } else {
        Ok(words_of(bytes))
    }
}

/// Decodes the mapped solution range of `n` unknowns into their bit patterns,
/// refusing a range of the wrong length and any infinity or NaN.
pub fn decode_solution(n: usize, bytes: &[u8]) -> (r: Result<Vec<u32>, SolveError>)
    ensures
        match r {
            Ok(v) => solution_outcome(n as nat, bytes@) == Ok::<Seq<u32>, SolveError>(v@),
            Err(e) => solution_outcome(n as nat, bytes@) == Err::<Seq<u32>, SolveError>(e),
        },
{
    if bytes.len() / 4 != n || bytes.len() % 4 != 0 {
        return Err(SolveError::MalformedReadBack);
    }
    let words = match decode_le_words(bytes) {
        Ok(w) => w,
        Err(_) => {
            return Err(SolveError::MalformedReadBack);
        },
    };
    let mut i: usize = 0;
    while i < n
        invariant
            words@ == words_of(bytes@),
            words@.len() == n,
            bytes@.len() == 4 * n,
            i <= n,
            forall|k: int| 0 <= k < i ==> spec_is_finite(#[trigger] words_of(bytes@)[k]),
        decreases n - i,
    {
        if !is_finite_bits(words[i]) {
            return Err(SolveError::NonFiniteResult);
        }
        i += 1;
    }
    Ok(words)
}

/// Reading back a staging buffer whose bytes are the little-endian image of
/// `n` finite words yields exactly those words.
pub proof fn lemma_read_back_known_words(ws: Seq<u32>)
    requires
        forall|i: int| 0 <= i < ws.len() ==> spec_is_finite(#[trigger] ws[i]),
    ensures
        solution_outcome(ws.len(), le_bytes_of(ws)) == Ok::<Seq<u32>, SolveError>(ws),
{
    lemma_decode_encode_round_trip(ws);
}

/// A successful read-back never carries an infinity or a NaN, such as the
/// ones a zero pivot met during elimination leaves behind.
pub proof fn lemma_success_is_finite(n: nat, bytes: Seq<u8>)
    requires
        solution_outcome(n, bytes) is Ok,
    ensures
        solution_outcome(n, bytes)->Ok_0.len() == n,
        forall|i: int|
            0 <= i < n ==> spec_is_finite(#[trigger] solution_outcome(n, bytes)->Ok_0[i]),
{
}

} // verus!
