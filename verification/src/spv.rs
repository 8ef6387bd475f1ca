//! Decoding compiled SPIR-V shader code from bytes into 32-bit words.
//!
//! A SPIR-V module is a sequence of 32-bit words whose first word is a
//! fixed magic number; the byte order of the whole module is whatever
//! order makes the magic number come out right. Decoding validates the
//! length and the magic number and returns the words; everything after
//! (compiling the words into a GPU shader module) is driver work that
//! stays outside this crate.

use vstd::prelude::*;

verus! {

/// The first word of every well-formed SPIR-V module.
pub const SPV_MAGIC: u32 = 0x0723_0203;

/// Why a byte slice is not a SPIR-V module.
#[derive(Debug)]
pub enum SpvError {
    /// The input length is not a multiple of the word size.
    LengthNotWordSized,
    /// The input is empty or does not start with the magic number in
    /// either byte order.
    MissingMagic,
}

/// Word `k` of the bytes read least-significant byte first.
pub open spec fn le_word(b: Seq<u8>, k: int) -> u32 {
    (b[4 * k] + b[4 * k + 1] * 0x100 + b[4 * k + 2] * 0x1_0000 + b[4 * k + 3]
        * 0x100_0000) as u32
}

/// Word `k` of the bytes read most-significant byte first.
pub open spec fn be_word(b: Seq<u8>, k: int) -> u32 {
    (b[4 * k + 3] + b[4 * k + 2] * 0x100 + b[4 * k + 1] * 0x1_0000 + b[4 * k]
        * 0x100_0000) as u32
}

/// All words of the bytes, least-significant byte first.
pub open spec fn le_words(b: Seq<u8>) -> Seq<u32> {
    Seq::new(b.len() / 4, |k: int| le_word(b, k))
}

/// All words of the bytes, most-significant byte first.
pub open spec fn be_words(b: Seq<u8>) -> Seq<u32> {
    Seq::new(b.len() / 4, |k: int| be_word(b, k))
}

/// Decode compiled SPIR-V code into its words. The byte order is read
/// off the magic number; the returned words always start with the
/// magic in natural order.
#[verifier::loop_isolation(false)]
pub fn read_spv_words(bytes: &[u8]) -> (r: Result<Vec<u32>, SpvError>)
    ensures
        match r {
            Ok(ws) => {
                &&& bytes@.len() % 4 == 0
                &&& bytes@.len() > 0
                &&& ws@[0] == SPV_MAGIC
                &&& (ws@ == le_words(bytes@) || ws@ == be_words(bytes@))
                &&& le_words(bytes@)[0] == SPV_MAGIC ==> ws@ == le_words(bytes@)
                &&& le_words(bytes@)[0] != SPV_MAGIC ==> ws@ == be_words(bytes@)
            },
            Err(SpvError::LengthNotWordSized) => bytes@.len() % 4 != 0,
            Err(SpvError::MissingMagic) => bytes@.len() % 4 == 0 && (bytes@.len() == 0 || (
            le_words(bytes@)[0] != SPV_MAGIC && be_words(bytes@)[0] != SPV_MAGIC)),
        },
{
    let n = bytes.len();
    if n % 4 != 0 {
        return Err(SpvError::LengthNotWordSized);
    }
    if n == 0 {
        return Err(SpvError::MissingMagic);
    }
    let w0_le = word_le_at(bytes, 0);
    if w0_le == SPV_MAGIC {
        let ws = decode_le(bytes);
        Ok(ws)
    } else {
        let w0_be = word_be_at(bytes, 0);
        if w0_be == SPV_MAGIC {
            let ws = decode_be(bytes);
            Ok(ws)
        } else {
            Err(SpvError::MissingMagic)
        }
    }
}

/// Read word `k` least-significant byte first.
fn word_le_at(bytes: &[u8], k: usize) -> (r: u32)
    requires
        4 * k + 4 <= bytes@.len(),
    ensures
        r == le_word(bytes@, k as int),
{
    let len = bytes.len();
    proof {
        assert(4 * k + 4 <= len);
    }
    let b0 = bytes[4 * k] as u32;
    let b1 = bytes[4 * k + 1] as u32;
    let b2 = bytes[4 * k + 2] as u32;
    let b3 = bytes[4 * k + 3] as u32;
    b0 + b1 * 0x100 + b2 * 0x1_0000 + b3 * 0x100_0000
}

/// Read word `k` most-significant byte first.
fn word_be_at(bytes: &[u8], k: usize) -> (r: u32)
    requires
        4 * k + 4 <= bytes@.len(),
    ensures
        r == be_word(bytes@, k as int),
{
    let len = bytes.len();
    proof {
        assert(4 * k + 4 <= len);
    }
    let b0 = bytes[4 * k] as u32;
    let b1 = bytes[4 * k + 1] as u32;
    let b2 = bytes[4 * k + 2] as u32;
    let b3 = bytes[4 * k + 3] as u32;
    b3 + b2 * 0x100 + b1 * 0x1_0000 + b0 * 0x100_0000
}

/// Decode every word least-significant byte first.
#[verifier::loop_isolation(false)]
fn decode_le(bytes: &[u8]) -> (r: Vec<u32>)
    requires
        bytes@.len() % 4 == 0,
    ensures
        r@ == le_words(bytes@),
{
    let n = bytes.len() / 4;
    let mut out: Vec<u32> = Vec::new();
    let mut k: usize = 0;
    while k < n
        invariant
            k <= n,
            n == bytes@.len() / 4,
            out@.len() == k,
            forall|q: int| 0 <= q < k ==> out@[q] == le_word(bytes@, q),
        decreases n - k,
    {
        out.push(word_le_at(bytes, k));
        k += 1;
    }
    proof {
        assert(out@ =~= le_words(bytes@));
    }
    out
}

/// Decode every word most-significant byte first.
#[verifier::loop_isolation(false)]
fn decode_be(bytes: &[u8]) -> (r: Vec<u32>)
    requires
        bytes@.len() % 4 == 0,
    ensures
        r@ == be_words(bytes@),
{
    let n = bytes.len() / 4;
    let mut out: Vec<u32> = Vec::new();
    let mut k: usize = 0;
    while k < n
        invariant
            k <= n,
            n == bytes@.len() / 4,
            out@.len() == k,
            forall|q: int| 0 <= q < k ==> out@[q] == be_word(bytes@, q),
        decreases n - k,
    {
        out.push(word_be_at(bytes, k));
        k += 1;
    }
    proof {
        assert(out@ =~= be_words(bytes@));
    }
    out
}

} // verus!
