use vstd::prelude::*;
use crate::bytes::{be32, read_be32};
use crate::fdt::{
    lemma_node_base_step, lemma_node_open_step, lemma_node_says_step, node_base, node_says_uart,
    FdtItem, LexStep, ScanEnd, compatible_name, compatible_name_bytes, lemma_first_nul_unique, matches_at, matches_at_offset,
    name_len_at, pl011_compatible, pl011_compatible_bytes, reg_name, reg_name_bytes, FDT_MAGIC, l0,
};
use crate::access::Access;
use crate::utils::{first_nul, terminated_len, token_of};
pub use crate::utils::FdtToken;

verus! {

/// Where the device tree is found when the boot loader passes none.
pub const DEFAULT_DTB_ADDRESS: u64 = 0x4000_0000;

/// Decodes a structure-block word (already in host order) into a token, if it is one.
pub fn parse_token(raw_token: u32) -> (r: Option<FdtToken>)
    ensures
        r == token_of(raw_token),
{
    match raw_token {
        0x0000_0001 => Some(FdtToken::BeginNode),
        0x0000_0002 => Some(FdtToken::EndNode),
        0x0000_0003 => Some(FdtToken::Prop),
        0x0000_0004 => Some(FdtToken::Nop),
        0x0000_0009 => Some(FdtToken::End),
        _ => None,
    }
}

/// The address the kernel reads the device tree from, given the boot argument.
pub open spec fn dtb_address(arg: u64) -> u64 {
    if arg == 0 || arg % 0x1_0000_0000 < 0x4000_0000 {
        DEFAULT_DTB_ADDRESS
    } else {
        arg
    }
}

/// The boot argument is used as the device tree's address exactly when it is not null
/// and its low 32 bits are at least 0x4000_0000; otherwise the tree is read at 0x4000_0000.
pub proof fn lemma_dtb_address_choice(arg: u64)
    ensures
        dtb_address(arg) == arg || dtb_address(arg) == 0x4000_0000,
        dtb_address(arg) == arg <== (arg != 0 && arg % 0x1_0000_0000 >= 0x4000_0000),
        (arg == 0 || arg % 0x1_0000_0000 < 0x4000_0000) ==> dtb_address(arg) == 0x4000_0000,
{
}

/// Picks the device tree's address: the boot argument, unless it is null or its low
/// 32 bits lie below `0x4000_0000`, in which case the default address.
pub fn select_dtb_address(dtb_arg: u64) -> (r: u64)
    ensures
        r == dtb_address(dtb_arg),
{
    let low: u64 = dtb_arg % 0x1_0000_0000;
    if dtb_arg == 0 || low < 0x4000_0000 {
        DEFAULT_DTB_ADDRESS
    } else {
        dtb_arg
    }
}

/// Where the search for the UART stands, and what it has seen of the current node.
#[derive(PartialEq, Eq, Structural, Clone, Copy, Debug)]
pub struct ProbeState {
    /// Byte offset of the next token.
    pub pos: usize,
    /// The current node said it is compatible with `arm,pl011`.
    pub is_uart: bool,
    /// The address the current node's `reg` property gave, or 0.
    pub reg: u32,
}

/// One step of the search: go on from a new state, or stop with the UART's address, if found.
#[derive(PartialEq, Eq, Structural, Clone, Copy, Debug)]
pub enum ProbeStep {
    Continue(ProbeState),
    Stop(Option<u32>),
}

/// The move of the search to byte offset `np`, or the end of it when `np` lies past the blob.
pub open spec fn probe_advance(len: int, np: int, is_uart: bool, reg: u32) -> ProbeStep {
    if np > len {
        ProbeStep::Stop(None)
    } else {
        ProbeStep::Continue(ProbeState { pos: np as usize, is_uart, reg })
    }
}

/// The item at `pos` as the search reads it, moving to `np`, or a stop when `np` lies
/// past the blob.
pub open spec fn probe_item_then(len: int, x: FdtItem, np: int) -> LexStep {
    if np > len {
        LexStep::Stop(ScanEnd::Truncated)
    } else {
        LexStep::Item(x, np)
    }
}

/// Reads the item at byte offset `pos` as the search for the UART does: a `compatible`
/// property naming `arm,pl011` first, and a `reg` property's address as its second cell
/// when it is at least 8 bytes long, its first when at least 4, and none otherwise.
pub open spec fn probe_lex_step(s: Seq<u8>, strings: int, pos: int) -> LexStep {
    if pos + 4 > s.len() {
        LexStep::Stop(ScanEnd::Truncated)
    } else {
        match token_of(be32(s, pos)) {
            None => LexStep::Stop(ScanEnd::InvalidToken),
            Some(FdtToken::End) => LexStep::Stop(ScanEnd::Completed),
            Some(FdtToken::BeginNode) => match name_len_at(s, pos + 4) {
                None => LexStep::Stop(ScanEnd::Truncated),
                Some(l) => probe_item_then(s.len() as int, FdtItem::Begin, pos + 4 + (l + 4) / 4 * 4),
            },
            Some(FdtToken::EndNode) => LexStep::Item(FdtItem::End, pos + 4),
            Some(FdtToken::Nop) => LexStep::Item(FdtItem::Nop, pos + 4),
            Some(FdtToken::Prop) => if pos + 12 > s.len() {
                LexStep::Stop(ScanEnd::Truncated)
            } else {
                let plen = be32(s, pos + 4);
                let name = strings + be32(s, pos + 8);
                let data = pos + 12;
                let np = pos + 12 + (plen + 3) / 4 * 4;
                let none = FdtItem::Prop { reg: None, pl011: false, virtio: false };
                if matches_at(s, name, compatible_name()) {
                    probe_item_then(
                        s.len() as int,
                        FdtItem::Prop { reg: None, pl011: matches_at(s, data, pl011_compatible()), virtio: false },
                        np,
                    )
                } else if matches_at(s, name, reg_name()) {
                    if plen >= 8 {
                        if data + 8 > s.len() {
                            LexStep::Stop(ScanEnd::Truncated)
                        } else {
                            probe_item_then(s.len() as int, FdtItem::Prop { reg: Some(be32(s, data + 4)), pl011: false, virtio: false }, np)
                        }
                    } else if plen >= 4 {
                        if data + 4 > s.len() {
                            LexStep::Stop(ScanEnd::Truncated)
                        } else {
                            probe_item_then(s.len() as int, FdtItem::Prop { reg: Some(be32(s, data)), pl011: false, virtio: false }, np)
                        }
                    } else {
                        probe_item_then(s.len() as int, none, np)
                    }
                } else {
                    probe_item_then(s.len() as int, none, np)
                }
            },
        }
    }
}

/// What the search knows after item `x`, moving to offset `np`.
pub open spec fn apply_probe_item(p: ProbeState, x: FdtItem, np: int) -> ProbeState {
    match x {
        FdtItem::Begin => ProbeState { pos: np as usize, is_uart: false, reg: 0 },
        FdtItem::Prop { reg, pl011, .. } => ProbeState {
            pos: np as usize,
            is_uart: p.is_uart || pl011,
            reg: match reg {
                Some(b) => b,
                None => p.reg,
            },
        },
        _ => ProbeState { pos: np as usize, ..p },
    }
}

/// One step of the search for the UART over the structure block of `s`, whose strings
/// block starts at byte offset `strings`: read an item, and stop with the address at the
/// end of a node that named `arm,pl011` and gave a nonzero address.
pub open spec fn probe_step(s: Seq<u8>, strings: int, p: ProbeState) -> ProbeStep {
    match probe_lex_step(s, strings, p.pos as int) {
        LexStep::Stop(_) => ProbeStep::Stop(None),
        LexStep::Item(x, np) => if x is End && p.is_uart && p.reg != 0 {
            ProbeStep::Stop(Some(p.reg))
        } else {
            ProbeStep::Continue(apply_probe_item(p, x, np))
        },
    }
}

/// Every item the search reads lies inside the blob, past the previous one.
pub proof fn lemma_probe_lex_step_advances(s: Seq<u8>, strings: int, pos: int)
    requires
        0 <= pos,
    ensures
        probe_lex_step(s, strings, pos) matches LexStep::Item(_, np) ==> pos < np <= s.len(),
{
    if pos + 4 <= s.len() && token_of(be32(s, pos)) == Some(FdtToken::BeginNode) {
        if let Some(l) = name_len_at(s, pos + 4) {
            assert(first_nul(s.subrange(pos + 4, s.len() as int), l));
        }
    }
}

/// How each structure-block item moves the search, as the device-tree format lays items
/// out in 4-byte words: a node's end and a no-op take their token; a node's start takes
/// its token and its name with the terminating zero rounded up to a word; a property
/// takes its 3-word header and its value rounded up to a word. The search stops, with
/// nothing found, at token 9, at any word that is no token, and when an item does not
/// fit in the blob.
pub proof fn lemma_probe_item_sizes(s: Seq<u8>, strings: int, p: ProbeState)
    requires
        s.len() <= usize::MAX,
    ensures
        ({
            let pos = p.pos as int;
            let tok = be32(s, pos);
            let plen = be32(s, pos + 4) as int;
            let r = probe_step(s, strings, p);
            &&& pos + 4 > s.len() ==> r == ProbeStep::Stop(None)
            &&& pos + 4 <= s.len() && !(tok == 1 || tok == 2 || tok == 3 || tok == 4) ==> r == ProbeStep::Stop(None)
            &&& pos + 4 <= s.len() && tok == 4 ==> r == ProbeStep::Continue(ProbeState { pos: (pos + 4) as usize, ..p })
            &&& r matches ProbeStep::Continue(p2) ==> (tok == 2 ==> p2.pos == pos + 4)
            &&& r matches ProbeStep::Continue(p2) ==> (tok == 3 ==> p2.pos == pos + 12 + (plen + 3) / 4 * 4)
            &&& pos + 12 <= s.len() && tok == 3 && pos + 12 + (plen + 3) / 4 * 4 <= s.len()
                && pos + 20 <= s.len() ==> r is Continue
            &&& r matches ProbeStep::Continue(p2) ==> (tok == 1 ==> exists|l: int|
                #[trigger] first_nul(s.subrange(pos + 4, s.len() as int), l) && p2.pos == pos + 4 + (l + 1 + 3) / 4 * 4)
            &&& pos + 4 <= s.len() && tok == 1 && first_nul(s.subrange(pos + 4, s.len() as int), l0(s, pos))
                && pos + 4 + (l0(s, pos) + 1 + 3) / 4 * 4 <= s.len() ==> r is Continue
        }),
{
    let pos = p.pos as int;
    let tok = be32(s, pos);
    if pos + 4 <= s.len() && tok == 1 {
        if let Some(l) = name_len_at(s, pos + 4) {
            assert(first_nul(s.subrange(pos + 4, s.len() as int), l));
        }
        if first_nul(s.subrange(pos + 4, s.len() as int), l0(s, pos)) {
            let sub = s.subrange(pos + 4, s.len() as int);
            let l = choose|l: int| first_nul(sub, l);
            lemma_first_nul_unique(s.subrange(pos + 4, s.len() as int), l, l0(s, pos));
        }
    }
}

/// What the search does with a node's end and with a property: at the end of a node
/// marked a UART with a nonzero address it stops with that address, at any other end it
/// goes on; a node's start forgets what was known; a `compatible` property whose value
/// starts with `arm,pl011` marks the node a UART; a `reg` property sets the address to
/// its second cell when at least 8 bytes long and to its first when at least 4; other
/// properties change nothing.
pub proof fn lemma_probe_meaning(s: Seq<u8>, strings: int, p: ProbeState)
    requires
        s.len() <= usize::MAX,
    ensures
        ({
            let pos = p.pos as int;
            let tok = be32(s, pos);
            let plen = be32(s, pos + 4);
            let name = strings + be32(s, pos + 8);
            let reg = seq![0x72u8, 0x65, 0x67, 0x00];
            let compatible = seq![0x63u8, 0x6f, 0x6d, 0x70, 0x61, 0x74, 0x69, 0x62, 0x6c, 0x65, 0x00];
            let pl011 = seq![0x61u8, 0x72, 0x6d, 0x2c, 0x70, 0x6c, 0x30, 0x31, 0x31, 0x00];
            let r = probe_step(s, strings, p);
            &&& pos + 4 <= s.len() && tok == 2 ==> r == (if p.is_uart && p.reg != 0 {
                ProbeStep::Stop(Some(p.reg))
            } else {
                ProbeStep::Continue(ProbeState { pos: (pos + 4) as usize, ..p })
            })
            &&& r matches ProbeStep::Continue(p2) ==> (tok == 1 ==> !p2.is_uart && p2.reg == 0)
            &&& r matches ProbeStep::Stop(Some(a)) ==> (tok == 2 && p.is_uart && p.reg != 0 && a == p.reg)
            &&& r matches ProbeStep::Continue(p2) ==> (tok == 3 ==> {
                &&& matches_at(s, name, compatible) ==> p2.reg == p.reg
                    && p2.is_uart == (p.is_uart || matches_at(s, pos + 12, pl011))
                &&& !matches_at(s, name, compatible) && matches_at(s, name, reg) ==> p2.is_uart == p.is_uart
                    && p2.reg == (if plen >= 8 { be32(s, pos + 16) } else if plen >= 4 { be32(s, pos + 12) } else { p.reg })
                &&& !matches_at(s, name, compatible) && !matches_at(s, name, reg) ==> p2.is_uart == p.is_uart
                    && p2.reg == p.reg
            })
        }),
{
    assert(reg_name() =~= seq![0x72u8, 0x65, 0x67, 0x00]);
    assert(compatible_name() =~= seq![0x63u8, 0x6f, 0x6d, 0x70, 0x61, 0x74, 0x69, 0x62, 0x6c, 0x65, 0x00]);
    assert(pl011_compatible() =~= seq![0x61u8, 0x72, 0x6d, 0x2c, 0x70, 0x6c, 0x30, 0x31, 0x31, 0x00]);
}

/// Every step of the search that goes on moves forward and stays inside the blob.
pub proof fn lemma_probe_step_advances(s: Seq<u8>, strings: int, p: ProbeState)
    requires
        s.len() <= usize::MAX,
    ensures
        probe_step(s, strings, p) matches ProbeStep::Continue(p2) ==> p.pos < p2.pos <= s.len(),
{
    lemma_probe_lex_step_advances(s, strings, p.pos as int);
}

/// The items the search reads from offset `pos` on.
pub open spec fn probe_items(s: Seq<u8>, strings: int, pos: int) -> Seq<FdtItem>
    decreases s.len() - pos,
{
    if pos < 0 {
        Seq::empty()
    } else {
        match probe_lex_step(s, strings, pos) {
            LexStep::Stop(_) => Seq::empty(),
            LexStep::Item(x, np) => {
                proof {
                    lemma_probe_lex_step_advances(s, strings, pos);
                }
                seq![x] + probe_items(s, strings, np)
            },
        }
    }
}

/// The address at the first end, from item `i` on, after which the properties since the
/// last `Begin` named `arm,pl011` and gave a nonzero address; `None` when there is none.
pub open spec fn declared_uart(items: Seq<FdtItem>, i: int) -> Option<u32>
    decreases items.len() - i,
{
    if i < 0 || i >= items.len() {
        None
    } else if items[i] is End && node_says_uart(items, i) && node_base(items, i) != 0 {
        Some(node_base(items, i))
    } else {
        declared_uart(items, i + 1)
    }
}

/// What the search knows of the current node before item `i` is what items `0..i` declare.
#[verifier::opaque]
pub open spec fn probe_declared(p: ProbeState, items: Seq<FdtItem>, i: int) -> bool {
    &&& p.is_uart == node_says_uart(items, i)
    &&& p.reg == node_base(items, i)
}

/// What the items declare moves from one item to the next as the search updates it.
pub proof fn lemma_probe_declared_step(p: ProbeState, items: Seq<FdtItem>, i: int, np: int)
    requires
        0 <= i < items.len(),
        probe_declared(p, items, i),
    ensures
        probe_declared(apply_probe_item(p, items[i], np), items, i + 1),
        items[i] is End ==> (p.is_uart && p.reg != 0) == (node_says_uart(items, i) && node_base(items, i) != 0)
            && p.reg == node_base(items, i),
{
    reveal(probe_declared);
    lemma_node_open_step(items, i);
    if items[i] is Begin {
        assert(!node_says_uart(items, i + 1));
        assert(node_base(items, i + 1) == 0);
    } else {
        lemma_node_says_step(items, i);
        lemma_node_base_step(items, i);
    }
}

/// One unfolding of `probe_items`.
pub proof fn lemma_probe_items_unfold(s: Seq<u8>, strings: int, pos: int)
    requires
        0 <= pos,
    ensures
        probe_lex_step(s, strings, pos) is Stop ==> probe_items(s, strings, pos) == Seq::<FdtItem>::empty(),
        probe_lex_step(s, strings, pos) matches LexStep::Item(x, np) ==> probe_items(s, strings, pos)
            == seq![x] + probe_items(s, strings, np),
{
}

/// One unfolding of `probe_from`.
pub proof fn lemma_probe_from_unfold(s: Seq<u8>, strings: int, p: ProbeState)
    requires
        s.len() <= usize::MAX,
    ensures
        probe_step(s, strings, p) matches ProbeStep::Stop(r) ==> probe_from(s, strings, p) == r,
        probe_step(s, strings, p) matches ProbeStep::Continue(p2) ==> probe_from(s, strings, p) == probe_from(s, strings, p2),
{
}

/// The search from state `p` finds exactly the UART that the items from `i` on declare,
/// when `p` knows what items `0..i` declared of the current node.
pub proof fn lemma_probe_declared(s: Seq<u8>, strings: int, p: ProbeState, items: Seq<FdtItem>, i: int)
    requires
        s.len() <= usize::MAX,
        0 <= i <= items.len(),
        items.subrange(i, items.len() as int) == probe_items(s, strings, p.pos as int),
        probe_declared(p, items, i),
    ensures
        probe_from(s, strings, p) == declared_uart(items, i),
    decreases s.len() - p.pos,
{
    let pos = p.pos as int;
    lemma_probe_from_unfold(s, strings, p);
    lemma_probe_lex_step_advances(s, strings, pos);
    lemma_probe_items_unfold(s, strings, pos);
    let ls = probe_lex_step(s, strings, pos);
    if let LexStep::Item(x, np) = ls {
        let rest = probe_items(s, strings, np);
        let tail = items.subrange(i, items.len() as int);
        assert(tail == seq![x] + rest);
        assert((seq![x] + rest)[0] == x);
        assert(tail[0] == items[i]);
        lemma_probe_declared_step(p, items, i, np);
        if !(x is End && p.is_uart && p.reg != 0) {
            let p2 = apply_probe_item(p, x, np);
            assert(items.subrange(i + 1, items.len() as int) =~= rest) by {
                assert(items.subrange(i + 1, items.len() as int) =~= tail.subrange(1, tail.len() as int));
                assert(rest =~= (seq![x] + rest).subrange(1, tail.len() as int));
            }
            lemma_probe_declared(s, strings, p2, items, i + 1);
        }
    } else {
        assert(items.subrange(i, items.len() as int).len() == 0);
    }
}

/// The UART address that the search from state `p` on finds, if any.
pub open spec fn probe_from(s: Seq<u8>, strings: int, p: ProbeState) -> Option<u32>
    decreases s.len() - p.pos,
{
    if s.len() > usize::MAX {
        None
    } else {
        match probe_step(s, strings, p) {
            ProbeStep::Stop(r) => r,
            ProbeStep::Continue(p2) => {
                proof {
                    lemma_probe_step_advances(s, strings, p);
                }
                probe_from(s, strings, p2)
            },
        }
    }
}

/// The address of the first node compatible with `arm,pl011` whose `reg` is nonzero,
/// as the search over the device tree `s` finds it.
pub open spec fn uart_probe(s: Seq<u8>) -> Option<u32> {
    if s.len() < 16 || be32(s, 0) != FDT_MAGIC {
        None
    } else {
        probe_from(s, be32(s, 12) as int, ProbeState { pos: be32(s, 8) as usize, is_uart: false, reg: 0 })
    }
}

/// The items the search reads from the structure block of the device tree `s`.
pub open spec fn uart_items(s: Seq<u8>) -> Seq<FdtItem> {
    probe_items(s, be32(s, 12) as int, be32(s, 8) as int)
}

/// The search stops at the first end after which the properties since the last `Begin`
/// named `arm,pl011` and gave a nonzero address, and gives that address.
pub proof fn lemma_uart_probe_declared(s: Seq<u8>)
    requires
        16 <= s.len() <= usize::MAX,
        be32(s, 0) == FDT_MAGIC,
    ensures
        uart_probe(s) == declared_uart(uart_items(s), 0),
{
    let items = uart_items(s);
    let p = ProbeState { pos: be32(s, 8) as usize, is_uart: false, reg: 0 };
    assert(crate::fdt::node_open(items, 0) == -1);
    assert(probe_declared(p, items, 0)) by {
        reveal(probe_declared);
    }
    assert(items.subrange(0, items.len() as int) =~= items);
    lemma_probe_declared(s, be32(s, 12) as int, p, items, 0);
}

/// The move of the search by `step` bytes from `pos`.
fn probe_advance_by(len: usize, pos: usize, step: u128, is_uart: bool, reg: u32) -> (r: ProbeStep)
    requires
        pos <= len,
    ensures
        r == probe_advance(len as int, pos + step, is_uart, reg),
{
    let room: u128 = (len - pos) as u128;
    if step > room {
        ProbeStep::Stop(None)
    } else {
        ProbeStep::Continue(ProbeState { pos: pos + step as usize, is_uart, reg })
    }
}

/// A multiple of four rounded down by masking equals the division's result.
pub proof fn lemma_mask_rounds_down(x: u64)
    ensures
        x & !3u64 == x / 4 * 4,
{
    assert(x & !3u64 == x / 4 * 4) by (bit_vector);
}

/// One step of the search for the UART over the structure block of `blob`.
pub fn next_probe_step(blob: &[u8], strings: u32, p: ProbeState) -> (r: ProbeStep)
    ensures
        r == probe_step(blob@, strings as int, p),
{
    let s = Ghost(blob@);
    let len: usize = blob.len();
    let pos: usize = p.pos;
    let token_raw = match read_be32(blob, pos as u64) {
        None => return ProbeStep::Stop(None),
        Some(t) => t,
    };
    let token = match parse_token(token_raw) {
        Some(t) => t,
        None => return ProbeStep::Stop(None),
    };
    match token {
        FdtToken::BeginNode => {
            let name = &blob[pos + 4..len];
            match terminated_len(name) {
                None => {
                    assert(name@ == s@.subrange(pos + 4, s@.len() as int));
                    ProbeStep::Stop(None)
                },
                Some(name_len) => {
                    proof {
                        assert(name@ == s@.subrange(pos + 4, s@.len() as int));
                        let sub = s@.subrange(pos + 4, s@.len() as int);
                        assert(first_nul(sub, name_len as int));
                        let c = choose|c: int| first_nul(sub, c);
                        lemma_first_nul_unique(name@, name_len as int, c);
                    }
                    let padded: u64 = (name_len as u64 + 1 + 3) & !3u64;
                    proof {
                        lemma_mask_rounds_down((name_len as u64 + 1 + 3) as u64);
                    }
                    probe_advance_by(len, pos, 4 + padded as u128, false, 0)
                },
            }
        },
        FdtToken::EndNode => {
            if p.is_uart && p.reg != 0 {
                ProbeStep::Stop(Some(p.reg))
            } else {
                ProbeStep::Continue(ProbeState { pos: pos + 4, ..p })
            }
        },
        FdtToken::Prop => {
            if len - pos < 12 {
                return ProbeStep::Stop(None);
            }
            let plen = match read_be32(blob, pos as u64 + 4) {
                None => return ProbeStep::Stop(None),
                Some(v) => v,
            };
            let name_off = match read_be32(blob, pos as u64 + 8) {
                None => return ProbeStep::Stop(None),
                Some(v) => v,
            };
            let name: u64 = strings as u64 + name_off as u64;
            let data: u64 = pos as u64 + 12;
            let padded: u64 = (plen as u64 + 3) & !3u64;
            proof {
                lemma_mask_rounds_down((plen as u64 + 3) as u64);
            }
            let step: u128 = 12 + padded as u128;
            let compatible = compatible_name_bytes();
            let reg = reg_name_bytes();
            if matches_at_offset(blob, name, &compatible) {
                let pl011 = pl011_compatible_bytes();
                if matches_at_offset(blob, data, &pl011) {
                    probe_advance_by(len, pos, step, true, p.reg)
                } else {
                    probe_advance_by(len, pos, step, p.is_uart, p.reg)
                }
            } else if matches_at_offset(blob, name, &reg) {
                if plen >= 8 {
                    if len - pos < 20 {
                        return ProbeStep::Stop(None);
                    }
                    match read_be32(blob, data + 4) {
                        None => ProbeStep::Stop(None),
                        Some(v) => probe_advance_by(len, pos, step, p.is_uart, v),
                    }
                } else if plen >= 4 {
                    match read_be32(blob, data) {
                        None => ProbeStep::Stop(None),
                        Some(v) => probe_advance_by(len, pos, step, p.is_uart, v),
                    }
                } else {
                    probe_advance_by(len, pos, step, p.is_uart, p.reg)
                }
            } else {
                probe_advance_by(len, pos, step, p.is_uart, p.reg)
            }
        },
        FdtToken::Nop => ProbeStep::Continue(ProbeState { pos: pos + 4, ..p }),
        FdtToken::End => ProbeStep::Stop(None),
    }
}

/// Searches the device tree `blob` for the first node compatible with `arm,pl011`
/// whose `reg` is nonzero, and gives its address: the kernel greets the console there.
/// `None` when the blob lacks the magic word, or the search meets the end of the
/// tree, an unknown token or the end of the blob first.
pub fn uart_probe_address(blob: &[u8]) -> (r: Option<u32>)
    ensures
        r == uart_probe(blob@),
        blob@.len() >= 16 && be32(blob@, 0) == FDT_MAGIC ==> r == declared_uart(uart_items(blob@), 0),
{
    if blob.len() < 16 {
        return None;
    }
    proof {
        if be32(blob@, 0) == FDT_MAGIC {
            lemma_uart_probe_declared(blob@);
        }
    }
    match read_be32(blob, 0) {
        Some(magic) => {
            if magic != FDT_MAGIC {
                return None;
            }
        },
        None => return None,
    }
    let off_struct = match read_be32(blob, 8) {
        Some(v) => v,
        None => return None,
    };
    let off_strings = match read_be32(blob, 12) {
        Some(v) => v,
        None => return None,
    };
    let ghost s = blob@;
    let ghost strings = off_strings as int;
    let mut p = ProbeState { pos: off_struct as usize, is_uart: false, reg: 0 };
    assert(uart_probe(s) == probe_from(s, strings, p));
    loop
        invariant
            s == blob@,
            s.len() <= usize::MAX,
            strings == off_strings as int,
            uart_probe(s) == probe_from(s, strings, p),
            s.len() >= 16 && be32(s, 0) == FDT_MAGIC ==> uart_probe(s) == declared_uart(uart_items(s), 0),
        decreases s.len() - p.pos,
    {
        let step = next_probe_step(blob, off_strings, p);
        proof {
            lemma_probe_step_advances(s, strings, p);
        }
        match step {
            ProbeStep::Stop(r) => return r,
            ProbeStep::Continue(p2) => {
                p = p2;
            },
        }
    }
}

/// The greeting the kernel sends once it found the UART: the character `H`, stored as a
/// 32-bit word at the UART's address.
pub open spec fn greeting(s: Seq<u8>) -> Option<Access> {
    match uart_probe(s) {
        Some(reg) => Some(Access::Write32(reg as u64, 0x48)),
        None => None,
    }
}

/// The greeting is the single word 0x48 (`H`) stored at the address the search found,
/// and there is none when the search finds nothing.
pub proof fn lemma_greeting_is_h(s: Seq<u8>)
    ensures
        uart_probe(s) matches Some(reg) ==> greeting(s) == Some(Access::Write32(reg as u64, 0x48)),
        uart_probe(s) is None ==> greeting(s) is None,
{
}

/// Finds the UART in the device tree `blob` and greets through it; `None` when no UART
/// is found.
pub fn uart_greeting(blob: &[u8]) -> (r: Option<Access>)
    ensures
        r == greeting(blob@),
{
    match uart_probe_address(blob) {
        Some(reg) => Some(Access::Write32(reg as u64, 0x48)),
        None => None,
    }
}

/// Both kernels skip a node name of `name_len` bytes alike: the first moves by
/// `(name_len >> 2) + 2` words past the token, the second by the name with its zero
/// rounded up to whole words (`(name_len + 1 + 3) & !3`), one word after the token.
pub proof fn lemma_name_skip_agrees(name_len: u64)
    requires
        name_len < 0x1_0000_0000_0000,
    ensures
        4 * ((name_len >> 2) + 2) == 4 + (((name_len + 1 + 3) as u64) & !3u64),
{
    lemma_mask_rounds_down((name_len + 1 + 3) as u64);
    assert(name_len >> 2 == name_len / 4) by (bit_vector);
}

/// Both kernels skip a property of `len` value bytes alike: the first moves by
/// `((len + 3) >> 2) + 3` words, the second by three words and the value rounded up
/// to whole words (`(len + 3) & !3`).
pub proof fn lemma_property_skip_agrees(len: u32)
    ensures
        4 * ((((len as u64 + 3) as u64) >> 2) + 3) == 12 + (((len as u64 + 3) as u64) & !3u64),
{
    let x: u64 = (len as u64 + 3) as u64;
    lemma_mask_rounds_down(x);
    assert(x >> 2 == x / 4) by (bit_vector);
}

} // verus!
