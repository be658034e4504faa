use vstd::prelude::*;

verus! {

/// The tokens of a flattened device tree's structure block.
#[derive(PartialEq, Eq, Structural, Clone, Copy, Debug)]
pub enum FdtToken {
    BeginNode,
    EndNode,
    Prop,
    Nop,
    End,
}

impl FdtToken {
    /// The 32-bit value that stands for this token in the structure block.
    pub open spec fn spec_code(self) -> u32 {
        match self {
            FdtToken::BeginNode => 0x0000_0001,
            FdtToken::EndNode => 0x0000_0002,
            FdtToken::Prop => 0x0000_0003,
            FdtToken::Nop => 0x0000_0004,
            FdtToken::End => 0x0000_0009,
        }
    }

    /// The 32-bit value that stands for this token in the structure block.
    pub fn code(&self) -> (r: u32)
        ensures
            r == self.spec_code(),
    {
        match self {
            FdtToken::BeginNode => 0x0000_0001,
            FdtToken::EndNode => 0x0000_0002,
            FdtToken::Prop => 0x0000_0003,
            FdtToken::Nop => 0x0000_0004,
            FdtToken::End => 0x0000_0009,
        }
    }
}

/// The token that a raw structure-block word stands for, if any.
pub open spec fn token_of(raw: u32) -> Option<FdtToken> {
    if raw == 1 {
        Some(FdtToken::BeginNode)
    } else if raw == 2 {
        Some(FdtToken::EndNode)
    } else if raw == 3 {
        Some(FdtToken::Prop)
    } else if raw == 4 {
        Some(FdtToken::Nop)
    } else if raw == 9 {
        Some(FdtToken::End)
    } else {
        None
    }
}

/// Decodes a structure-block word (already in host order) into a token.
pub fn parse_token(raw_token: u32) -> (r: Result<FdtToken, &'static str>)
    ensures
        token_of(raw_token) matches Some(t) ==> r == Ok::<FdtToken, &'static str>(t),
        token_of(raw_token) is None ==> (r matches Err(e) && e@ == "Invalid hardware token"@),
{
    match raw_token {
        0x0000_0001 => Ok(FdtToken::BeginNode),
        0x0000_0002 => Ok(FdtToken::EndNode),
        0x0000_0003 => Ok(FdtToken::Prop),
        0x0000_0004 => Ok(FdtToken::Nop),
        0x0000_0009 => Ok(FdtToken::End),
        _ => Err("Invalid hardware token"),
    }
}

/// Decoding the code of a token gives the token back, and only codes decode.
pub proof fn lemma_token_code_roundtrip(t: FdtToken, raw: u32)
    ensures
        token_of(t.spec_code()) == Some(t),
        token_of(raw) == Some(t) ==> raw == t.spec_code(),
{
}

/// The device-tree token codes: 1 opens a node, 2 closes it, 3 is a property, 4 a no-op
/// and 9 ends the structure block; no other word is a token.
pub proof fn lemma_token_codes(raw: u32)
    ensures
        token_of(raw) == (if raw == 1 {
            Some(FdtToken::BeginNode)
        } else if raw == 2 {
            Some(FdtToken::EndNode)
        } else if raw == 3 {
            Some(FdtToken::Prop)
        } else if raw == 4 {
            Some(FdtToken::Nop)
        } else if raw == 9 {
            Some(FdtToken::End)
        } else {
            None
        }),
        FdtToken::BeginNode.spec_code() == 1 && FdtToken::EndNode.spec_code() == 2 && FdtToken::Prop.spec_code() == 3
            && FdtToken::Nop.spec_code() == 4 && FdtToken::End.spec_code() == 9,
{
}

/// The result of comparing `s1` and `s2` from index `i` up to `n`: zero when they agree
/// there, else the difference of the bytes at the first index where they differ.
pub open spec fn compare_from(s1: Seq<u8>, s2: Seq<u8>, i: int, n: int) -> int
    decreases n - i,
{
    if i >= n {
        0
    } else if s1[i] != s2[i] {
        s1[i] as int - s2[i] as int
    } else {
        compare_from(s1, s2, i + 1, n)
    }
}

/// `compare_from` on the index range of a buffer loop.
pub open spec fn compare_range(s1: Seq<u8>, s2: Seq<u8>, i: usize, n: usize) -> int {
    compare_from(s1, s2, i as int, n as int)
}

/// The signed difference of two bytes.
pub fn byte_difference(a: u8, b: u8) -> (r: i32)
    ensures
        r == a as int - b as int,
{
    a as i32 - b as i32
}

/// Both buffers hold their first `n` bytes, or at least reach a byte where they differ
/// before `n`: all that a comparison of `n` bytes reads.
pub open spec fn reaches_difference(s1: Seq<u8>, s2: Seq<u8>, n: usize) -> bool {
    ||| n <= s1.len() && n <= s2.len()
    ||| exists|j: int| 0 <= j < n && j < s1.len() && j < s2.len() && s1[j] != s2[j]
}

/// Compares the first `n` bytes of two buffers, as C's `memcmp` does; it reads no byte
/// past the first one where they differ.
pub fn memcmp(s1: &[u8], s2: &[u8], n: usize) -> (r: i32)
    requires
        reaches_difference(s1@, s2@, n),
    ensures
        r == compare_range(s1@, s2@, 0, n),
{
    let mut i: usize = 0;
    while i < n
        invariant
            i <= n,
            reaches_difference(s1@, s2@, n),
            forall|k: int| 0 <= k < i ==> s1@[k] == s2@[k],
            compare_range(s1@, s2@, 0, n) == compare_range(s1@, s2@, i, n),
        decreases n - i,
    {
        proof {
            if !(n <= s1@.len() && n <= s2@.len()) {
                let j = choose|j: int| 0 <= j < n && j < s1@.len() && j < s2@.len() && s1@[j] != s2@[j];
                assert(j >= i);
            }
        }
        let byte1 = s1[i];
        let byte2 = s2[i];
        if byte1 != byte2 {
            return byte_difference(byte1, byte2);
        }
        i += 1;
    }
    0
}

/// `memcmp` is zero exactly when the prefixes agree, and otherwise the difference
/// of the first differing bytes.
pub proof fn lemma_compare_from_meaning(s1: Seq<u8>, s2: Seq<u8>, i: int, n: int)
    requires
        0 <= i <= n,
        n <= s1.len(),
        n <= s2.len(),
    ensures
        (compare_from(s1, s2, i, n) == 0) <==> (forall|k: int| i <= k < n ==> s1[k] == s2[k]),
        forall|k: int|
            i <= k < n && s1[k] != s2[k] && (forall|j: int| i <= j < k ==> s1[j] == s2[j])
                ==> compare_from(s1, s2, i, n) == s1[k] as int - s2[k] as int,
    decreases n - i,
{
    if i < n {
        lemma_compare_from_meaning(s1, s2, i + 1, n);
        if s1[i] == s2[i] {
            assert forall|k: int|
                i <= k < n && s1[k] != s2[k] && (forall|j: int| i <= j < k ==> s1[j] == s2[j])
                implies compare_from(s1, s2, i, n) == s1[k] as int - s2[k] as int by {
                assert(k != i);
            }
        }
    }
}

/// Swapping the two buffers negates the comparison, and a buffer compares equal to itself.
pub proof fn lemma_compare_antisymmetric(s1: Seq<u8>, s2: Seq<u8>, i: int, n: int)
    ensures
        compare_from(s1, s2, i, n) == -compare_from(s2, s1, i, n),
        compare_from(s1, s1, i, n) == 0,
    decreases n - i,
{
    if i < n {
        lemma_compare_antisymmetric(s1, s2, i + 1, n);
    }
}

/// `len` is the index of the first zero byte of `s`.
pub open spec fn first_nul(s: Seq<u8>, len: int) -> bool {
    0 <= len < s.len() && s[len] == 0 && forall|i: int| 0 <= i < len ==> s[i] != 0
}

/// The length of the zero-terminated string at the start of `s`, or `None` when `s`
/// holds no zero byte.
pub fn terminated_len(s: &[u8]) -> (r: Option<usize>)
    ensures
        r matches Some(len) ==> first_nul(s@, len as int),
        r is None ==> forall|i: int| 0 <= i < s@.len() ==> s@[i] != 0,
{
    let mut len: usize = 0;
    while len < s.len()
        invariant
            len <= s@.len(),
            forall|i: int| 0 <= i < len ==> s@[i] != 0,
        decreases s@.len() - len,
    {
        if s[len] == 0 {
            return Some(len);
        }
        len += 1;
    }
    None
}

/// The length of the zero-terminated string at the start of `s`, as C's `strlen`.
pub fn strlen(s: &[u8]) -> (len: usize)
    requires
        exists|i: int| 0 <= i < s@.len() && s@[i] == 0,
    ensures
        first_nul(s@, len as int),
{
    match terminated_len(s) {
        Some(len) => len,
        None => {
            assert(false);
            0
        },
    }
}

/// `bytes` holds `len` bytes, or at least reaches a byte where it differs from `target`:
/// all that a match of `len` bytes reads.
pub open spec fn reaches_mismatch(bytes: Seq<u8>, len: int, target: Seq<u8>) -> bool {
    ||| len <= bytes.len()
    ||| exists|i: int| 0 <= i < len && i < bytes.len() && i < target.len() && bytes[i] != target[i]
}

/// Whether the `len` bytes at the start of `bytes` are exactly `target`; it reads no
/// byte past the first one that differs.
pub fn is_match(bytes: &[u8], len: usize, target: &[u8]) -> (r: bool)
    requires
        len == target@.len() ==> reaches_mismatch(bytes@, len as int, target@),
    ensures
        r == (len == target@.len() && len <= bytes@.len() && bytes@.subrange(0, len as int) == target@),
{
    if len != target.len() {
        return false;
    }
    let mut i: usize = 0;
    while i < len
        invariant
            i <= len,
            len == target@.len(),
            reaches_mismatch(bytes@, len as int, target@),
            forall|k: int| 0 <= k < i ==> bytes@[k] == target@[k],
        decreases len - i,
    {
        proof {
            if !(len <= bytes@.len()) {
                let j = choose|j: int| 0 <= j < len && j < bytes@.len() && j < target@.len() && bytes@[j] != target@[j];
                assert(j >= i);
            }
        }
        if bytes[i] != target[i] {
            proof {
                if len <= bytes@.len() {
                    assert(bytes@.subrange(0, len as int)[i as int] != target@[i as int]);
                }
            }
            return false;
        }
        i += 1;
    }
    proof {
        if !(len <= bytes@.len()) {
            let j = choose|j: int| 0 <= j < len && j < bytes@.len() && j < target@.len() && bytes@[j] != target@[j];
            assert(bytes@[j] == target@[j]);
        }
    }
    assert(bytes@.subrange(0, len as int) =~= target@);
    true
}

/// The ASCII character of a hexadecimal digit (lower case).
pub open spec fn hex_char(d: int) -> u8 {
    if d < 10 {
        (0x30 + d) as u8
    } else {
        (0x61 + d - 10) as u8
    }
}

/// A hexadecimal digit is shown as the character of `0123456789abcdef` at its value.
pub proof fn lemma_hex_char_table(d: int)
    requires
        0 <= d < 16,
    ensures
        hex_char(d) == seq![
            0x30u8, 0x31, 0x32, 0x33, 0x34, 0x35, 0x36, 0x37, 0x38, 0x39, 0x61, 0x62, 0x63, 0x64, 0x65, 0x66,
        ][d],
{
}

/// The two hexadecimal characters of a byte, high nibble first, as the console shows it.
pub fn hex_digits(byte: u8) -> (r: [u8; 2])
    ensures
        r@[0] == hex_char(byte as int / 16),
        r@[1] == hex_char(byte as int % 16),
{
    let hi = byte / 16;
    let lo = byte % 16;
    let c_hi: u8 = if hi < 10 { 0x30 + hi } else { 0x61 + hi - 10 };
    let c_lo: u8 = if lo < 10 { 0x30 + lo } else { 0x61 + lo - 10 };
    [c_hi, c_lo]
}

} // verus!
