//! Strings as Java's `DataOutput` writes them: a length of two bytes, then
//! that many bytes of modified UTF-8.
use crate::error::Fault;
use vstd::prelude::*;

verus! {

/// The text that a run of modified UTF-8 stands for, if it stands for any.
pub uninterp spec fn mutf8_text(bytes: Seq<u8>) -> Option<Seq<char>>;

/// `simd_cesu8::mutf8::decode`: the string it returns is the text that the
/// bytes stand for, and it fails exactly where they stand for none.
#[verifier::external_body]
fn decode_mutf8(bytes: &[u8]) -> (text: Option<String>)
    ensures
        match text {
            Some(s) => mutf8_text(bytes@) == Some(s@),
            None => mutf8_text(bytes@) is None,
        },
{
    simd_cesu8::mutf8::decode(bytes).ok().map(|s| s.into_owned())
}

/// The number that two bytes spell, the first being the higher.
pub open spec fn be_u16(hi: u8, lo: u8) -> int {
    hi * 0x100 + lo
}

/// The number that four bytes spell, the first being the highest.
pub open spec fn be_u32(b0: u8, b1: u8, b2: u8, b3: u8) -> int {
    b0 * 0x100_0000 + b1 * 0x1_0000 + b2 * 0x100 + b3
}

/// The string that begins at index `pos` of `data`, and the index behind
/// it.
pub open spec fn utf_at(data: Seq<u8>, pos: int) -> Result<(Seq<char>, int), Fault> {
    if pos + 2 > data.len() {
        Err(Fault::TruncatedPrefix)
    } else {
        let end = pos + 2 + be_u16(data[pos], data[pos + 1]);
        if end > data.len() {
            Err(Fault::TruncatedRecords)
        } else {
            match mutf8_text(data.subrange(pos + 2, end)) {
                Some(text) => Ok((text, end)),
                None => Err(Fault::InvalidText),
            }
        }
    }
}

/// Reads the number that the two bytes at `pos` spell.
pub fn read_u16(data: &[u8], pos: usize) -> (value: u16)
    requires
        pos + 2 <= data@.len(),
    ensures
        value == be_u16(data@[pos as int], data@[pos + 1]),
{
    let hi: u16 = data[pos] as u16;
    let lo: u16 = data[pos + 1] as u16;
    hi * 0x100 + lo
}

/// Reads the number that the four bytes at `pos` spell.
pub fn read_u32(data: &[u8], pos: usize) -> (value: u32)
    requires
        pos + 4 <= data@.len(),
    ensures
        value == be_u32(data@[pos as int], data@[pos + 1], data@[pos + 2], data@[pos + 3]),
{
    let b0: u32 = data[pos] as u32;
    let b1: u32 = data[pos + 1] as u32;
    let b2: u32 = data[pos + 2] as u32;
    let b3: u32 = data[pos + 3] as u32;
    b0 * 0x100_0000 + b1 * 0x1_0000 + b2 * 0x100 + b3
}

/// Reads the string that begins at index `pos` of `data`, and gives the
/// index behind it.
#[allow(non_snake_case)]
pub fn readUTF(data: &[u8], pos: usize) -> (r: Result<(String, usize), Fault>)
    requires
        pos <= data@.len(),
    ensures
        match r {
            Ok((text, next)) => utf_at(data@, pos as int) == Ok::<(Seq<char>, int), Fault>(
                (text@, next as int),
            ) && pos + 2 <= next <= data@.len(),
            Err(fault) => utf_at(data@, pos as int) == Err::<(Seq<char>, int), Fault>(fault),
        },
{
    if data.len() - pos < 2 {
        return Err(Fault::TruncatedPrefix);
    }
    let len = read_u16(data, pos) as usize;
    if data.len() - pos - 2 < len {
        return Err(Fault::TruncatedRecords);
    }
    let end = pos + 2 + len;
    match decode_mutf8(&data[pos + 2..end]) {
        Some(text) => Ok((text, end)),
        None => Err(Fault::InvalidText),
    }
}

} // verus!
