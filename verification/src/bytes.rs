use vstd::prelude::*;

verus! {

/// The 32-bit value whose big-endian encoding is the four bytes of `s` at `pos`.
pub open spec fn be32(s: Seq<u8>, pos: int) -> u32 {
    (s[pos] as int * 0x100_0000 + s[pos + 1] as int * 0x1_0000 + s[pos + 2] as int * 0x100
        + s[pos + 3] as int) as u32
}

/// Reads the big-endian 32-bit word at byte offset `pos`; `None` when it does not fit.
pub fn read_be32(buf: &[u8], pos: u64) -> (r: Option<u32>)
    ensures
        r == (if pos + 4 <= buf@.len() {
            Some(be32(buf@, pos as int))
        } else {
            None::<u32>
        }),
{
    let len: u64 = buf.len() as u64;
    if pos > len || len - pos < 4 {
        return None;
    }
    let p: usize = pos as usize;
    let b0: u32 = buf[p] as u32;
    let b1: u32 = buf[p + 1] as u32;
    let b2: u32 = buf[p + 2] as u32;
    let b3: u32 = buf[p + 3] as u32;
    Some(b0 * 0x100_0000 + b1 * 0x1_0000 + b2 * 0x100 + b3)
}

/// The 16-bit value with its two bytes exchanged.
pub open spec fn swap16(x: u16) -> u16 {
    ((x % 0x100) * 0x100 + x / 0x100) as u16
}

/// The two bytes of `x` as the machine stores them, low byte first.
pub open spec fn le16(x: u16) -> Seq<u8> {
    seq![(x % 0x100) as u8, (x / 0x100) as u8]
}

/// The two bytes of `x` in network order, high byte first.
pub open spec fn be16(x: u16) -> Seq<u8> {
    seq![(x / 0x100) as u8, (x % 0x100) as u8]
}

/// Converts a 16-bit value from host order to big-endian. The kernel runs on a
/// little-endian machine, where this exchanges the two bytes.
pub fn to_be16(x: u16) -> (r: u16)
    ensures
        r == swap16(x),
{
    (x % 0x100) * 0x100 + x / 0x100
}

/// Converts a 16-bit value from big-endian to host order (little-endian here).
pub fn from_be16(x: u16) -> (r: u16)
    ensures
        r == swap16(x),
{
    (x % 0x100) * 0x100 + x / 0x100
}

/// Converting to big-endian and back gives the value back, and a converted value is
/// stored in network order.
pub proof fn lemma_swap16_roundtrip(x: u16)
    ensures
        swap16(swap16(x)) == x,
        le16(swap16(x)) == be16(x),
{
    assert(le16(swap16(x)) =~= be16(x));
}

} // verus!
