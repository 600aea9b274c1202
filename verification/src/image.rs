//! Loading a program image: a byte string of even length, each pair one
//! word in little-endian order, placed from address 0; the rest of memory
//! is zero.

use vstd::prelude::*;

use crate::Word;
use crate::types::{MachineModel, MEMORY_WORDS, REGISTER_COUNT};

verus! {

/// Why an image was rejected.
#[derive(Debug, PartialEq, Eq, Clone, Copy)]
pub enum ImageError {
    /// The byte string has odd length, so its last word is cut short.
    OddLength,
    /// The image holds more than 32768 words.
    TooLarge,
}

/// The word encoded by byte pair `k` of a little-endian image.
pub open spec fn word_at(bytes: Seq<u8>, k: int) -> Word
    recommends 0 <= k, 2 * k + 1 < bytes.len(),
{
    (bytes[2 * k] + 256 * bytes[2 * k + 1]) as Word
}

/// The machine a valid image loads to: about to run at address 0, registers
/// zero, stack empty, the image's words at the bottom of memory and zeros
/// above them.
pub open spec fn spec_load(bytes: Seq<u8>) -> MachineModel
    recommends bytes.len() % 2 == 0, bytes.len() / 2 <= MEMORY_WORDS,
{
    MachineModel {
        ip: Some(0u16),
        regs: Seq::new(REGISTER_COUNT as nat, |i: int| 0u16),
        mem: Seq::new(
            MEMORY_WORDS as nat,
            |i: int| if i < bytes.len() / 2 { word_at(bytes, i) } else { 0u16 },
        ),
        stack: Seq::empty(),
    }
}

/// Relies on byteorder's `LittleEndian::read_u16`: the two bytes at `i`,
/// low byte first.  It panics only when fewer than two bytes remain, which
/// the precondition rules out.
#[verifier::external_body]
fn read_u16_le(bytes: &[u8], i: usize) -> (r: Word)
    requires
        i + 2 <= bytes@.len(),
    ensures
        r == bytes@[i as int] + 256 * bytes@[i as int + 1],
{
    <byteorder::LittleEndian as byteorder::ByteOrder>::read_u16(&bytes[i..i + 2])
}

/// Decode a little-endian byte image into its words; an odd length is
/// rejected.
pub fn to_u16(bytes: &[u8]) -> (r: Result<Vec<Word>, ImageError>)
    ensures
        bytes@.len() % 2 == 0 ==> (r matches Ok(words) && words@.len() == bytes@.len() / 2
            && forall|k: int| 0 <= k < words@.len() ==> words@[k] == word_at(bytes@, k)),
        bytes@.len() % 2 != 0 ==> r == Err::<Vec<Word>, ImageError>(ImageError::OddLength),
{
    if bytes.len() % 2 != 0 {
        return Err(ImageError::OddLength);
    }
    let n = bytes.len() / 2;
    let mut words: Vec<Word> = Vec::new();
    let mut k: usize = 0;
    while k < n
        invariant
            n == bytes@.len() / 2,
            bytes@.len() <= usize::MAX,
            bytes@.len() % 2 == 0,
            k <= n,
            words@.len() == k,
            forall|j: int| 0 <= j < k ==> words@[j] == word_at(bytes@, j),
        decreases n - k,
    {
        let w = read_u16_le(bytes, 2 * k);
        proof {
            assert(w == word_at(bytes@, k as int));
        }
        words.push(w);
        k += 1;
    }
    Ok(words)
}

} // verus!
