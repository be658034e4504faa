use vstd::prelude::*;
use crate::bytes::{be32, read_be32};
use crate::utils::{first_nul, is_match, parse_token, terminated_len, token_of, FdtToken};

verus! {

/// The value of the magic word that opens a flattened device tree.
pub const FDT_MAGIC: u32 = 0xd00d_feed;

/// Property name `reg`, with its terminating zero.
pub open spec fn reg_name() -> Seq<u8> {
    seq![0x72u8, 0x65, 0x67, 0x00]
}

/// Property name `compatible`, with its terminating zero.
pub open spec fn compatible_name() -> Seq<u8> {
    seq![0x63u8, 0x6f, 0x6d, 0x70, 0x61, 0x74, 0x69, 0x62, 0x6c, 0x65, 0x00]
}

/// Compatible string of a PL011 UART, with its terminating zero.
pub open spec fn pl011_compatible() -> Seq<u8> {
    seq![0x61u8, 0x72, 0x6d, 0x2c, 0x70, 0x6c, 0x30, 0x31, 0x31, 0x00]
}

/// Compatible string of a virtio MMIO device, with its terminating zero.
pub open spec fn virtio_mmio_compatible() -> Seq<u8> {
    seq![0x76u8, 0x69, 0x72, 0x74, 0x69, 0x6f, 0x2c, 0x6d, 0x6d, 0x69, 0x6f, 0x00]
}

/// The bytes of `reg_name`.
pub fn reg_name_bytes() -> (r: [u8; 4])
    ensures
        r@ == reg_name(),
{
    let r: [u8; 4] = [0x72, 0x65, 0x67, 0x00];
    assert(r@ =~= reg_name());
    r
}

/// The bytes of `compatible_name`.
pub fn compatible_name_bytes() -> (r: [u8; 11])
    ensures
        r@ == compatible_name(),
{
    let r: [u8; 11] = [0x63, 0x6f, 0x6d, 0x70, 0x61, 0x74, 0x69, 0x62, 0x6c, 0x65, 0x00];
    assert(r@ =~= compatible_name());
    r
}

/// The bytes of `pl011_compatible`.
pub fn pl011_compatible_bytes() -> (r: [u8; 10])
    ensures
        r@ == pl011_compatible(),
{
    let r: [u8; 10] = [0x61, 0x72, 0x6d, 0x2c, 0x70, 0x6c, 0x30, 0x31, 0x31, 0x00];
    assert(r@ =~= pl011_compatible());
    r
}

/// The bytes of `virtio_mmio_compatible`.
pub fn virtio_mmio_compatible_bytes() -> (r: [u8; 12])
    ensures
        r@ == virtio_mmio_compatible(),
{
    let r: [u8; 12] = [0x76, 0x69, 0x72, 0x74, 0x69, 0x6f, 0x2c, 0x6d, 0x6d, 0x69, 0x6f, 0x00];
    assert(r@ =~= virtio_mmio_compatible());
    r
}

/// Whether `target` lies in `s` at byte offset `start`.
pub open spec fn matches_at(s: Seq<u8>, start: int, target: Seq<u8>) -> bool {
    &&& 0 <= start
    &&& start + target.len() <= s.len()
    &&& s.subrange(start, start + target.len()) == target
}

/// Whether `target` lies in `blob` at byte offset `start`; an offset past the blob never matches.
pub fn matches_at_offset(blob: &[u8], start: u64, target: &[u8]) -> (r: bool)
    ensures
        r == matches_at(blob@, start as int, target@),
{
    let len: u64 = blob.len() as u64;
    let tlen: u64 = target.len() as u64;
    if start > len || len - start < tlen {
        return false;
    }
    let s: usize = start as usize;
    let e: usize = s + target.len();
    let window = &blob[s..e];
    assert(window@.subrange(0, target@.len() as int) =~= blob@.subrange(start as int, start as int + target@.len()));
    is_match(window, target.len(), target)
}

/// The length of the zero-terminated name at offset `start`, if it ends inside `s`.
pub open spec fn name_len_at(s: Seq<u8>, start: int) -> Option<int> {
    if exists|l: int| first_nul(s.subrange(start, s.len() as int), l) {
        Some(choose|l: int| first_nul(s.subrange(start, s.len() as int), l))
    } else {
        None
    }
}

/// A string has at most one first zero byte.
pub proof fn lemma_first_nul_unique(s: Seq<u8>, a: int, b: int)
    requires
        first_nul(s, a),
        first_nul(s, b),
    ensures
        a == b,
{
    if a < b {
        assert(s[a] != 0);
    } else if b < a {
        assert(s[b] != 0);
    }
}

/// The device a completed node of the tree asks the kernel to bring up.
#[derive(PartialEq, Eq, Structural, Clone, Copy, Debug)]
pub enum DeviceInit {
    /// A PL011 UART at this base address.
    Uart(u32),
    /// A virtio MMIO device at this base address.
    Virtio(u32),
}

/// How a walk of the structure block ended.
#[derive(PartialEq, Eq, Structural, Clone, Copy, Debug)]
pub enum ScanEnd {
    /// The `End` token was reached.
    Completed,
    /// A word that is no token was met where a token belongs.
    InvalidToken,
    /// The walk needed bytes past the end of the blob.
    Truncated,
}

/// Where a walk of the structure block stands, and what it has seen of the current node.
#[derive(PartialEq, Eq, Structural, Clone, Copy, Debug)]
pub struct WalkState {
    /// Byte offset of the next token.
    pub pos: usize,
    /// The current node said it is compatible with `arm,pl011`.
    pub found_uart: bool,
    /// The current node said it is compatible with `virtio,mmio`.
    pub found_virtio: bool,
    /// The address the current node's `reg` property gave, or 0.
    pub base_addr: u32,
}

/// One step of the walk: go on from a new state, perhaps asking for a device, or stop.
#[derive(PartialEq, Eq, Structural, Clone, Copy, Debug)]
pub enum WalkStep {
    Continue(WalkState, Option<DeviceInit>),
    Stop(ScanEnd),
}

/// The device that the end of the current node asks for.
pub open spec fn init_at_node_end(w: WalkState) -> Option<DeviceInit> {
    if w.base_addr != 0 {
        if w.found_uart {
            Some(DeviceInit::Uart(w.base_addr))
        } else if w.found_virtio {
            Some(DeviceInit::Virtio(w.base_addr))
        } else {
            None
        }
    } else {
        None
    }
}

/// The state after moving the walk to byte offset `np`, keeping what was seen, or a stop
/// when `np` lies past the blob.
pub open spec fn advance(len: int, np: int, found_uart: bool, found_virtio: bool, base_addr: u32) -> WalkStep {
    if np > len {
        WalkStep::Stop(ScanEnd::Truncated)
    } else {
        WalkStep::Continue(
            WalkState { pos: np as usize, found_uart, found_virtio, base_addr },
            None,
        )
    }
}

/// A structure-block item as the walk reads it: a node's start or end, a no-op, or a
/// property with what it says of the node: the address of a `reg` property (its first
/// cell when it is 8 bytes long, else its second cell), and whether a `compatible`
/// property names `arm,pl011` or, failing that, `virtio,mmio` first.
pub enum FdtItem {
    Begin,
    End,
    Nop,
    Prop { reg: Option<u32>, pl011: bool, virtio: bool },
}

/// Reading one item: the item and the offset of the next, or how reading stops.
pub enum LexStep {
    Item(FdtItem, int),
    Stop(ScanEnd),
}

/// The item at `pos`, or a stop when it does not fit.
pub open spec fn item_then(len: int, x: FdtItem, np: int) -> LexStep {
    if np > len {
        LexStep::Stop(ScanEnd::Truncated)
    } else {
        LexStep::Item(x, np)
    }
}

/// Reads the item at byte offset `pos` of the structure block of `s`, whose strings
/// block starts at byte offset `strings`.
pub open spec fn lex_step(s: Seq<u8>, strings: int, pos: int) -> LexStep {
    if pos + 4 > s.len() {
        LexStep::Stop(ScanEnd::Truncated)
    } else {
        match token_of(be32(s, pos)) {
            None => LexStep::Stop(ScanEnd::InvalidToken),
            Some(FdtToken::End) => LexStep::Stop(ScanEnd::Completed),
            Some(FdtToken::EndNode) => LexStep::Item(FdtItem::End, pos + 4),
            Some(FdtToken::Nop) => LexStep::Item(FdtItem::Nop, pos + 4),
            Some(FdtToken::BeginNode) => match name_len_at(s, pos + 4) {
                None => LexStep::Stop(ScanEnd::Truncated),
                Some(l) => item_then(s.len() as int, FdtItem::Begin, pos + 4 * (l / 4 + 2)),
            },
            Some(FdtToken::Prop) => if pos + 12 > s.len() {
                LexStep::Stop(ScanEnd::Truncated)
            } else {
                let plen = be32(s, pos + 4);
                let name = strings + be32(s, pos + 8);
                let np = pos + 4 * ((plen + 3) / 4 + 3);
                if matches_at(s, name, reg_name()) {
                    let cell = if plen == 8 { pos + 12 } else { pos + 16 };
                    if cell + 4 > s.len() {
                        LexStep::Stop(ScanEnd::Truncated)
                    } else {
                        item_then(s.len() as int, FdtItem::Prop { reg: Some(be32(s, cell)), pl011: false, virtio: false }, np)
                    }
                } else if matches_at(s, name, compatible_name()) {
                    let pl011 = matches_at(s, pos + 12, pl011_compatible());
                    let virtio = !pl011 && matches_at(s, pos + 12, virtio_mmio_compatible());
                    item_then(s.len() as int, FdtItem::Prop { reg: None, pl011, virtio }, np)
                } else {
                    item_then(s.len() as int, FdtItem::Prop { reg: None, pl011: false, virtio: false }, np)
                }
            },
        }
    }
}

/// What the walk knows after item `x`, moving to offset `np`.
pub open spec fn apply_item(w: WalkState, x: FdtItem, np: int) -> WalkState {
    match x {
        FdtItem::Begin => WalkState { pos: np as usize, found_uart: false, found_virtio: false, base_addr: 0 },
        FdtItem::Prop { reg, pl011, virtio } => WalkState {
            pos: np as usize,
            found_uart: w.found_uart || pl011,
            found_virtio: w.found_virtio || virtio,
            base_addr: match reg {
                Some(b) => b,
                None => w.base_addr,
            },
        },
        _ => WalkState { pos: np as usize, ..w },
    }
}

/// One step of the walk over the structure block of `s`, whose strings block starts at
/// byte offset `strings`: read an item, update what is known of the current node, and at
/// a node's end ask for the device it declared.
pub open spec fn walk_step(s: Seq<u8>, strings: int, w: WalkState) -> WalkStep {
    match lex_step(s, strings, w.pos as int) {
        LexStep::Stop(e) => WalkStep::Stop(e),
        LexStep::Item(x, np) => WalkStep::Continue(
            apply_item(w, x, np),
            if x is End { init_at_node_end(w) } else { None },
        ),
    }
}

/// Every item read lies inside the blob, past the previous one.
pub proof fn lemma_lex_step_advances(s: Seq<u8>, strings: int, pos: int)
    requires
        0 <= pos,
    ensures
        lex_step(s, strings, pos) matches LexStep::Item(_, np) ==> pos < np <= s.len(),
{
    if pos + 4 <= s.len() && token_of(be32(s, pos)) == Some(FdtToken::BeginNode) {
        if let Some(l) = name_len_at(s, pos + 4) {
            assert(first_nul(s.subrange(pos + 4, s.len() as int), l));
        }
    }
}

/// How each structure-block item moves the walk, as the device-tree format lays items
/// out in 4-byte words: a node's end and a no-op take their token; a node's start takes
/// its token and its name with the terminating zero, padded to a word; a property takes
/// its 3-word header (token, value length, name offset) and its value padded to a word.
/// A step goes on exactly for those four tokens while the item fits in the blob; token
/// 9 ends the walk, any other word is an invalid token.
pub proof fn lemma_walk_item_sizes(s: Seq<u8>, strings: int, w: WalkState)
    requires
        s.len() <= usize::MAX,
    ensures
        ({
            let pos = w.pos as int;
            let tok = be32(s, pos);
            let plen = be32(s, pos + 4) as int;
            let r = walk_step(s, strings, w);
            &&& pos + 4 > s.len() ==> r == WalkStep::Stop(ScanEnd::Truncated)
            &&& pos + 4 <= s.len() && tok == 9 ==> r == WalkStep::Stop(ScanEnd::Completed)
            &&& pos + 4 <= s.len() && !(tok == 1 || tok == 2 || tok == 3 || tok == 4 || tok == 9)
                ==> r == WalkStep::Stop(ScanEnd::InvalidToken)
            &&& pos + 4 <= s.len() && (tok == 2 || tok == 4) ==> (r matches WalkStep::Continue(w2, _)
                && w2.pos == pos + 4)
            &&& r matches WalkStep::Continue(w2, _) ==> (tok == 3 ==> w2.pos == pos + 12 + (plen + 3) / 4 * 4)
            &&& pos + 12 <= s.len() && tok == 3 && pos + 12 + (plen + 3) / 4 * 4 <= s.len()
                && pos + 20 <= s.len() ==> r is Continue
            &&& r matches WalkStep::Continue(w2, _) ==> (tok == 1 ==> exists|l: int|
                #[trigger] first_nul(s.subrange(pos + 4, s.len() as int), l) && w2.pos == pos + 4 + (l + 1 + 3) / 4 * 4)
            &&& pos + 4 <= s.len() && tok == 1 && first_nul(s.subrange(pos + 4, s.len() as int), l0(s, pos))
                && pos + 4 + (l0(s, pos) + 1 + 3) / 4 * 4 <= s.len() ==> r is Continue
        }),
{
    let pos = w.pos as int;
    let tok = be32(s, pos);
    if pos + 4 <= s.len() && tok == 1 {
        if let Some(l) = name_len_at(s, pos + 4) {
            assert(first_nul(s.subrange(pos + 4, s.len() as int), l));
        }
        if first_nul(s.subrange(pos + 4, s.len() as int), l0(s, pos)) {
            let sub = s.subrange(pos + 4, s.len() as int);
            let l = choose|l: int| first_nul(sub, l);
            lemma_first_nul_unique(s.subrange(pos + 4, s.len() as int), l, l0(s, pos));
        }
    }
}

/// The length of the node name that starts 4 bytes past `pos`, counted up to its first
/// zero byte.
pub open spec fn l0(s: Seq<u8>, pos: int) -> int {
    choose|l: int| #[trigger] first_nul(s.subrange(pos + 4, s.len() as int), l)
}

/// What a property tells the walk: a `reg` property sets the node's address to its first
/// cell when it is 8 bytes long and to its second cell otherwise; a `compatible` property
/// whose value starts with `arm,pl011` marks the node a UART, and one that starts with
/// `virtio,mmio` marks it a virtio device; a property of any other name changes nothing.
pub proof fn lemma_walk_property_meaning(s: Seq<u8>, strings: int, w: WalkState)
    requires
        s.len() <= usize::MAX,
    ensures
        ({
            let pos = w.pos as int;
            let plen = be32(s, pos + 4);
            let name = strings + be32(s, pos + 8);
            let reg = seq![0x72u8, 0x65, 0x67, 0x00];
            let compatible = seq![0x63u8, 0x6f, 0x6d, 0x70, 0x61, 0x74, 0x69, 0x62, 0x6c, 0x65, 0x00];
            let pl011 = seq![0x61u8, 0x72, 0x6d, 0x2c, 0x70, 0x6c, 0x30, 0x31, 0x31, 0x00];
            let virtio = seq![0x76u8, 0x69, 0x72, 0x74, 0x69, 0x6f, 0x2c, 0x6d, 0x6d, 0x69, 0x6f, 0x00];
            pos + 4 <= s.len() && be32(s, pos) == 3 ==> match walk_step(s, strings, w) {
                WalkStep::Continue(w2, init) => {
                    &&& init is None
                    &&& matches_at(s, name, reg) ==> w2.base_addr == (if plen == 8 { be32(s, pos + 12) } else { be32(s, pos + 16) })
                        && w2.found_uart == w.found_uart && w2.found_virtio == w.found_virtio
                    &&& matches_at(s, name, compatible) ==> w2.base_addr == w.base_addr
                        && w2.found_uart == (w.found_uart || matches_at(s, pos + 12, pl011))
                        && w2.found_virtio == (w.found_virtio || (!matches_at(s, pos + 12, pl011) && matches_at(s, pos + 12, virtio)))
                    &&& !matches_at(s, name, reg) && !matches_at(s, name, compatible) ==> w2.base_addr == w.base_addr
                        && w2.found_uart == w.found_uart && w2.found_virtio == w.found_virtio
                },
                WalkStep::Stop(e) => e == ScanEnd::Truncated,
            }
        }),
{
    assert(reg_name() =~= seq![0x72u8, 0x65, 0x67, 0x00]);
    assert(compatible_name() =~= seq![0x63u8, 0x6f, 0x6d, 0x70, 0x61, 0x74, 0x69, 0x62, 0x6c, 0x65, 0x00]);
    assert(pl011_compatible() =~= seq![0x61u8, 0x72, 0x6d, 0x2c, 0x70, 0x6c, 0x30, 0x31, 0x31, 0x00]);
    assert(virtio_mmio_compatible() =~= seq![0x76u8, 0x69, 0x72, 0x74, 0x69, 0x6f, 0x2c, 0x6d, 0x6d, 0x69, 0x6f, 0x00]);
}

/// At a node's end the walk asks for the device the node described, if it gave a nonzero
/// address: a UART when it was marked one, else a virtio device when marked one; the
/// node's end keeps what is known of it.
pub proof fn lemma_walk_node_end(s: Seq<u8>, strings: int, w: WalkState)
    ensures
        w.pos + 4 <= s.len() && be32(s, w.pos as int) == 2 ==> walk_step(s, strings, w) == WalkStep::Continue(
            WalkState { pos: (w.pos + 4) as usize, ..w },
            if w.base_addr == 0 {
                None
            } else if w.found_uart {
                Some(DeviceInit::Uart(w.base_addr))
            } else if w.found_virtio {
                Some(DeviceInit::Virtio(w.base_addr))
            } else {
                None
            },
        ),
        w.pos + 4 <= s.len() && be32(s, w.pos as int) == 1 ==> (walk_step(s, strings, w) matches WalkStep::Continue(w2, init)
            ==> (init is None && !w2.found_uart && !w2.found_virtio && w2.base_addr == 0)),
{
}

/// Every step that goes on moves forward and stays inside the blob.
pub proof fn lemma_walk_step_advances(s: Seq<u8>, strings: int, w: WalkState)
    requires
        s.len() <= usize::MAX,
    ensures
        walk_step(s, strings, w) matches WalkStep::Continue(w2, _) ==> w.pos < w2.pos <= s.len(),
{
    lemma_lex_step_advances(s, strings, w.pos as int);
}

/// The items of the structure block from offset `pos` on, and how reading them ends.
pub open spec fn lex_items(s: Seq<u8>, strings: int, pos: int) -> (Seq<FdtItem>, ScanEnd)
    decreases s.len() - pos,
{
    if pos < 0 {
        (Seq::empty(), ScanEnd::Truncated)
    } else {
        match lex_step(s, strings, pos) {
            LexStep::Stop(e) => (Seq::empty(), e),
            LexStep::Item(x, np) => {
                proof {
                    lemma_lex_step_advances(s, strings, pos);
                }
                let rest = lex_items(s, strings, np);
                (seq![x] + rest.0, rest.1)
            },
        }
    }
}

/// The index of the last `Begin` before item `k`, or -1 when there is none. The walk
/// counts properties from there, so after a child's end they are still the child's.
pub open spec fn node_open(items: Seq<FdtItem>, k: int) -> int {
    if exists|j: int| 0 <= j < k && #[trigger] items[j] is Begin {
        choose|j: int|
            0 <= j < k && items[j] is Begin && forall|j2: int| j < j2 < k ==> !(#[trigger] items[j2] is Begin)
    } else {
        -1
    }
}

/// A `compatible` property between the last `Begin` and item `k` names `arm,pl011`.
pub open spec fn node_says_uart(items: Seq<FdtItem>, k: int) -> bool {
    exists|j: int| node_open(items, k) < j < k && #[trigger] items[j] matches FdtItem::Prop { pl011: true, .. }
}

/// A `compatible` property between the last `Begin` and item `k` names `virtio,mmio`.
pub open spec fn node_says_virtio(items: Seq<FdtItem>, k: int) -> bool {
    exists|j: int| node_open(items, k) < j < k && #[trigger] items[j] matches FdtItem::Prop { virtio: true, .. }
}

/// Item `j` is a `reg` property.
pub open spec fn is_reg(x: FdtItem) -> bool {
    x matches FdtItem::Prop { reg: Some(_), .. }
}

/// The address of the last `reg` property between the last `Begin` and item `k`, or 0.
pub open spec fn node_base(items: Seq<FdtItem>, k: int) -> u32 {
    if exists|j: int| node_open(items, k) < j < k && is_reg(#[trigger] items[j]) {
        let j = choose|j: int|
            node_open(items, k) < j < k && is_reg(items[j]) && forall|j2: int| j < j2 < k ==> !is_reg(#[trigger] items[j2]);
        match items[j] {
            FdtItem::Prop { reg: Some(b), .. } => b,
            _ => 0,
        }
    } else {
        0
    }
}

/// The device that item `k` asks for: at an end, with a nonzero address, a UART when the
/// properties since the last `Begin` before it named `arm,pl011`, else a virtio device
/// when they named `virtio,mmio`. At a parent's end these are its last child's
/// properties and any that follow that child.
pub open spec fn node_device(items: Seq<FdtItem>, k: int) -> Option<DeviceInit> {
    if items[k] is End && node_base(items, k) != 0 {
        if node_says_uart(items, k) {
            Some(DeviceInit::Uart(node_base(items, k)))
        } else if node_says_virtio(items, k) {
            Some(DeviceInit::Virtio(node_base(items, k)))
        } else {
            None
        }
    } else {
        None
    }
}

/// The devices that the items from index `i` on ask for, in order.
pub open spec fn declared_devices(items: Seq<FdtItem>, i: int) -> Seq<DeviceInit>
    decreases items.len() - i,
{
    if i < 0 || i >= items.len() {
        Seq::empty()
    } else {
        option_seq(node_device(items, i)) + declared_devices(items, i + 1)
    }
}

/// What the walk knows of the current node before item `i` is what items `0..i` declare.
#[verifier::opaque]
pub open spec fn state_declared(w: WalkState, items: Seq<FdtItem>, i: int) -> bool {
    &&& w.found_uart == node_says_uart(items, i)
    &&& w.found_virtio == node_says_virtio(items, i)
    &&& w.base_addr == node_base(items, i)
}

/// How `node_open` moves from one item to the next.
pub proof fn lemma_node_open_step(items: Seq<FdtItem>, i: int)
    requires
        0 <= i < items.len(),
    ensures
        items[i] is Begin ==> node_open(items, i + 1) == i,
        !(items[i] is Begin) ==> node_open(items, i + 1) == node_open(items, i),
        -1 <= node_open(items, i) < i,
        node_open(items, i) >= 0 ==> items[node_open(items, i)] is Begin,
        forall|j2: int| node_open(items, i) < j2 < i ==> !(#[trigger] items[j2] is Begin),
{
    lemma_node_open_meaning(items, i);
    lemma_node_open_meaning(items, i + 1);
    let o = node_open(items, i);
    let o1 = node_open(items, i + 1);
    if items[i] is Begin {
        if o1 != i {
            assert(o1 < i);
            assert(!(items[i] is Begin));
        }
    } else {
        if o1 >= 0 {
            assert(o1 < i);
            if o > o1 {
                assert(!(items[o] is Begin));
            } else if o < o1 {
                assert(!(items[o1] is Begin));
            }
        } else {
            if o >= 0 {
                assert(items[o] is Begin);
            }
        }
    }
}

/// `node_open` is the last `Begin` before `k`, or -1 when there is none.
pub proof fn lemma_node_open_meaning(items: Seq<FdtItem>, k: int)
    requires
        0 <= k <= items.len(),
    ensures
        -1 <= node_open(items, k) < k,
        node_open(items, k) >= 0 ==> items[node_open(items, k)] is Begin,
        forall|j2: int| node_open(items, k) < j2 < k ==> !(#[trigger] items[j2] is Begin),
    decreases k,
{
    if exists|j: int| 0 <= j < k && #[trigger] items[j] is Begin {
        if items[k - 1] is Begin {
            assert(0 <= k - 1 < k && items[k - 1] is Begin && forall|j2: int| k - 1 < j2 < k ==> !(#[trigger] items[j2] is Begin));
        } else {
            lemma_node_open_meaning(items, k - 1);
            let o = node_open(items, k - 1);
            assert(o >= 0) by {
                let j = choose|j: int| 0 <= j < k && #[trigger] items[j] is Begin;
                assert(j < k - 1);
                assert(exists|j: int| 0 <= j < k - 1 && #[trigger] items[j] is Begin);
            }
            assert(0 <= o < k && items[o] is Begin && forall|j2: int| o < j2 < k ==> !(#[trigger] items[j2] is Begin));
        }
    }
}

/// When the node of item `k` has a `reg` property before it, it has a last one.
pub proof fn lemma_last_reg_exists(items: Seq<FdtItem>, o: int, k: int)
    requires
        exists|j: int| o < j < k && is_reg(#[trigger] items[j]),
    ensures
        exists|j: int| o < j < k && is_reg(items[j]) && forall|j2: int| j < j2 < k ==> !is_reg(#[trigger] items[j2]),
    decreases k - o,
{
    if is_reg(items[k - 1]) {
        assert(o < k - 1 < k && is_reg(items[k - 1]) && forall|j2: int| k - 1 < j2 < k ==> !is_reg(#[trigger] items[j2]));
    } else {
        let w = choose|j: int| o < j < k && is_reg(#[trigger] items[j]);
        assert(w < k - 1);
        assert(o < w < k - 1 && is_reg(items[w]));
        lemma_last_reg_exists(items, o, k - 1);
        let j = choose|j: int| o < j < k - 1 && is_reg(items[j]) && forall|j2: int| j < j2 < k - 1 ==> !is_reg(#[trigger] items[j2]);
        assert(o < j < k && is_reg(items[j]) && forall|j2: int| j < j2 < k ==> !is_reg(#[trigger] items[j2]));
    }
}

/// The address a node declared before item `k`: the last `reg` between `o` and `k`.
pub proof fn lemma_last_reg_unique(items: Seq<FdtItem>, o: int, k: int, j: int)
    requires
        o < j < k,
        is_reg(items[j]),
        forall|j2: int| j < j2 < k ==> !is_reg(#[trigger] items[j2]),
    ensures
        ({
            let c = choose|c: int| o < c < k && is_reg(items[c]) && forall|j2: int| c < j2 < k ==> !is_reg(#[trigger] items[j2]);
            c == j
        }),
{
    let c = choose|c: int| o < c < k && is_reg(items[c]) && forall|j2: int| c < j2 < k ==> !is_reg(#[trigger] items[j2]);
    assert(o < j < k && is_reg(items[j]) && forall|j2: int| j < j2 < k ==> !is_reg(#[trigger] items[j2]));
    if c < j {
        assert(!is_reg(items[j]));
    } else if j < c {
        assert(!is_reg(items[c]));
    }
}

/// The node's address moves from one item to the next as the walk updates it.
pub proof fn lemma_node_base_step(items: Seq<FdtItem>, i: int)
    requires
        0 <= i < items.len(),
        !(items[i] is Begin),
    ensures
        node_base(items, i + 1) == match items[i] {
            FdtItem::Prop { reg: Some(b), .. } => b,
            _ => node_base(items, i),
        },
{
    lemma_node_open_step(items, i);
    let o = node_open(items, i);
    assert(node_open(items, i + 1) == o);
    if is_reg(items[i]) {
        lemma_last_reg_unique(items, o, i + 1, i);
    } else if exists|j: int| o < j < i && is_reg(#[trigger] items[j]) {
        lemma_last_reg_exists(items, o, i);
        let j = choose|j: int| o < j < i && is_reg(items[j]) && forall|j2: int| j < j2 < i ==> !is_reg(#[trigger] items[j2]);
        assert(o < j < i + 1 && is_reg(items[j]));
        lemma_last_reg_unique(items, o, i + 1, j);
    } else {
        assert forall|j: int| o < j < i + 1 implies !is_reg(#[trigger] items[j]) by {}
    }
}

/// The node's compatible strings move from one item to the next as the walk updates them.
pub proof fn lemma_node_says_step(items: Seq<FdtItem>, i: int)
    requires
        0 <= i < items.len(),
        !(items[i] is Begin),
    ensures
        node_says_uart(items, i + 1) == (node_says_uart(items, i) || items[i] matches FdtItem::Prop { pl011: true, .. }),
        node_says_virtio(items, i + 1) == (node_says_virtio(items, i) || items[i] matches FdtItem::Prop { virtio: true, .. }),
{
    lemma_node_open_step(items, i);
    let o = node_open(items, i);
    assert(node_open(items, i + 1) == o);
    if node_says_uart(items, i) {
        let j = choose|j: int| o < j < i && #[trigger] items[j] matches FdtItem::Prop { pl011: true, .. };
        assert(o < j < i + 1);
    }
    if node_says_uart(items, i + 1) && !(items[i] matches FdtItem::Prop { pl011: true, .. }) {
        let j = choose|j: int| o < j < i + 1 && #[trigger] items[j] matches FdtItem::Prop { pl011: true, .. };
        assert(j < i);
    }
    if items[i] matches FdtItem::Prop { pl011: true, .. } {
        assert(o < i < i + 1);
    }
    if node_says_virtio(items, i) {
        let j = choose|j: int| o < j < i && #[trigger] items[j] matches FdtItem::Prop { virtio: true, .. };
        assert(o < j < i + 1);
    }
    if node_says_virtio(items, i + 1) && !(items[i] matches FdtItem::Prop { virtio: true, .. }) {
        let j = choose|j: int| o < j < i + 1 && #[trigger] items[j] matches FdtItem::Prop { virtio: true, .. };
        assert(j < i);
    }
    if items[i] matches FdtItem::Prop { virtio: true, .. } {
        assert(o < i < i + 1);
    }
}

/// What the items declare of the current node moves from one item to the next as the
/// walk updates what it knows.
pub proof fn lemma_state_declared_step(w: WalkState, items: Seq<FdtItem>, i: int, np: int)
    requires
        0 <= i < items.len(),
        state_declared(w, items, i),
    ensures
        state_declared(apply_item(w, items[i], np), items, i + 1),
{
    reveal(state_declared);
    lemma_node_open_step(items, i);
    if items[i] is Begin {
        assert(!node_says_uart(items, i + 1));
        assert(!node_says_virtio(items, i + 1));
        assert(node_base(items, i + 1) == 0);
    } else {
        lemma_node_says_step(items, i);
        lemma_node_base_step(items, i);
    }
}

/// The devices asked for by the walk from state `w` on, and how the walk ends.
pub open spec fn walk_from(s: Seq<u8>, strings: int, w: WalkState) -> (Seq<DeviceInit>, ScanEnd)
    decreases s.len() - w.pos,
{
    if s.len() > usize::MAX {
        (Seq::empty(), ScanEnd::Truncated)
    } else {
        match walk_step(s, strings, w) {
            WalkStep::Stop(e) => (Seq::empty(), e),
            WalkStep::Continue(w2, init) => {
                proof {
                    lemma_walk_step_advances(s, strings, w);
                }
                let rest = walk_from(s, strings, w2);
                (option_seq(init) + rest.0, rest.1)
            },
        }
    }
}

/// The base address a device is brought up at.
pub open spec fn device_base(d: DeviceInit) -> u32 {
    match d {
        DeviceInit::Uart(b) => b,
        DeviceInit::Virtio(b) => b,
    }
}

/// Every device that a walk asks for has a nonzero base address: a node whose `reg`
/// gave 0, or that had no `reg`, brings nothing up.
pub proof fn lemma_walk_inits_have_addresses(s: Seq<u8>, strings: int, w: WalkState)
    ensures
        forall|i: int|
            0 <= i < walk_from(s, strings, w).0.len() ==> device_base(#[trigger] walk_from(s, strings, w).0[i]) != 0,
    decreases s.len() - w.pos,
{
    if s.len() <= usize::MAX {
        lemma_walk_from_unfold(s, strings, w);
        lemma_walk_step_advances(s, strings, w);
        if let WalkStep::Continue(w2, init) = walk_step(s, strings, w) {
            lemma_walk_inits_have_addresses(s, strings, w2);
            let rest = walk_from(s, strings, w2).0;
            assert forall|i: int| 0 <= i < walk_from(s, strings, w).0.len() implies device_base(
                #[trigger] walk_from(s, strings, w).0[i],
            ) != 0 by {
                if i >= option_seq(init).len() {
                    assert(walk_from(s, strings, w).0[i] == rest[i - option_seq(init).len()]);
                }
            }
        }
    }
}

/// Every device that a device tree asks for has a nonzero base address.
pub proof fn lemma_dtb_inits_have_addresses(s: Seq<u8>)
    ensures
        forall|i: int| 0 <= i < dtb_scan(s).0.len() ==> device_base(#[trigger] dtb_scan(s).0[i]) != 0,
{
    if s.len() >= 16 {
        lemma_walk_inits_have_addresses(s, be32(s, 12) as int, initial_walk(s));
    }
}

/// Whether `s` opens with the device-tree magic word (stored big-endian).
pub open spec fn starts_with_fdt_magic(s: Seq<u8>) -> bool {
    s.len() >= 4 && be32(s, 0) == FDT_MAGIC
}

/// A device tree opens with the bytes d0 0d fe ed.
pub proof fn lemma_fdt_magic_bytes(s: Seq<u8>)
    ensures
        starts_with_fdt_magic(s) <==> (s.len() >= 4 && s[0] == 0xd0 && s[1] == 0x0d && s[2] == 0xfe && s[3] == 0xed),
{
}

/// Whether `blob` opens with the device-tree magic word, the kernel's test before it
/// trusts the blob's header.
pub fn has_fdt_magic(blob: &[u8]) -> (r: bool)
    ensures
        r == starts_with_fdt_magic(blob@),
{
    match read_be32(blob, 0) {
        Some(magic) => magic == FDT_MAGIC,
        None => false,
    }
}

/// One unfolding of `walk_from`.
pub proof fn lemma_walk_from_unfold(s: Seq<u8>, strings: int, w: WalkState)
    requires
        s.len() <= usize::MAX,
    ensures
        walk_step(s, strings, w) matches WalkStep::Stop(e) ==> walk_from(s, strings, w) == (Seq::<DeviceInit>::empty(), e),
        walk_step(s, strings, w) matches WalkStep::Continue(w2, init) ==> walk_from(s, strings, w)
            == (option_seq(init) + walk_from(s, strings, w2).0, walk_from(s, strings, w2).1),
{
}

/// At a node's end, the walk asks for the device the node declared; other items ask for
/// none.
pub proof fn lemma_declared_device_at(w: WalkState, items: Seq<FdtItem>, i: int)
    requires
        0 <= i < items.len(),
        state_declared(w, items, i),
    ensures
        (if items[i] is End { init_at_node_end(w) } else { None }) == node_device(items, i),
{
    reveal(state_declared);
}

/// One unfolding of `lex_items`.
pub proof fn lemma_lex_items_unfold(s: Seq<u8>, strings: int, pos: int)
    requires
        0 <= pos,
    ensures
        lex_step(s, strings, pos) matches LexStep::Stop(e) ==> lex_items(s, strings, pos) == (Seq::<FdtItem>::empty(), e),
        lex_step(s, strings, pos) matches LexStep::Item(x, np) ==> lex_items(s, strings, pos)
            == (seq![x] + lex_items(s, strings, np).0, lex_items(s, strings, np).1),
{
}

/// The walk from state `w` asks for exactly the devices that the items from `i` on
/// declare, when `w` knows what items `0..i` declared of the current node.
pub proof fn lemma_walk_declared(s: Seq<u8>, strings: int, w: WalkState, items: Seq<FdtItem>, i: int)
    requires
        s.len() <= usize::MAX,
        0 <= i <= items.len(),
        items.subrange(i, items.len() as int) == lex_items(s, strings, w.pos as int).0,
        state_declared(w, items, i),
    ensures
        walk_from(s, strings, w) == (declared_devices(items, i), lex_items(s, strings, w.pos as int).1),
    decreases s.len() - w.pos,
{
    let pos = w.pos as int;
    lemma_walk_from_unfold(s, strings, w);
    lemma_lex_step_advances(s, strings, pos);
    lemma_lex_items_unfold(s, strings, pos);
    let ls = lex_step(s, strings, pos);
    if let LexStep::Item(x, np) = ls {
        let rest = lex_items(s, strings, np);
        let tail = items.subrange(i, items.len() as int);
        assert(tail == seq![x] + rest.0);
        assert((seq![x] + rest.0)[0] == x);
        assert(tail[0] == items[i]);
        let w2 = apply_item(w, x, np);
        lemma_state_declared_step(w, items, i, np);
        assert(items.subrange(i + 1, items.len() as int) =~= rest.0) by {
            assert(items.subrange(i + 1, items.len() as int) =~= tail.subrange(1, tail.len() as int));
            assert(rest.0 =~= (seq![x] + rest.0).subrange(1, tail.len() as int));
        }
        lemma_walk_declared(s, strings, w2, items, i + 1);
        lemma_declared_device_at(w, items, i);
        assert(walk_step(s, strings, w) == WalkStep::Continue(w2, node_device(items, i)));
    } else if let LexStep::Stop(e) = ls {
        assert(items.subrange(i, items.len() as int).len() == 0);
        assert(declared_devices(items, i) == Seq::<DeviceInit>::empty());
    }
}

/// The items of the structure block of the device tree `s`, and how reading them ends.
pub open spec fn dtb_items(s: Seq<u8>) -> (Seq<FdtItem>, ScanEnd) {
    lex_items(s, be32(s, 12) as int, initial_walk(s).pos as int)
}

/// The devices the walk of a device tree asks for are, in order, those its nodes
/// declare: at the end of each node with a nonzero `reg` address, a UART when the node
/// named `arm,pl011`, else a virtio device when it named `virtio,mmio`.
pub proof fn lemma_dtb_scan_declared(s: Seq<u8>)
    requires
        16 <= s.len() <= usize::MAX,
    ensures
        dtb_scan(s) == (declared_devices(dtb_items(s).0, 0), dtb_items(s).1),
{
    let items = dtb_items(s).0;
    let w = initial_walk(s);
    assert(node_open(items, 0) == -1);
    assert(state_declared(w, items, 0)) by {
        reveal(state_declared);
    }
    assert(items.subrange(0, items.len() as int) =~= items);
    lemma_walk_declared(s, be32(s, 12) as int, w, items, 0);
}

/// The sequence holding the device of `init`, if any.
pub open spec fn option_seq(init: Option<DeviceInit>) -> Seq<DeviceInit> {
    match init {
        Some(d) => seq![d],
        None => Seq::empty(),
    }
}

/// The walk state at the start of the structure block of `s`.
pub open spec fn initial_walk(s: Seq<u8>) -> WalkState {
    WalkState { pos: (be32(s, 8) / 4 * 4) as usize, found_uart: false, found_virtio: false, base_addr: 0 }
}

/// The devices that the device tree `s` asks for, in order, and how its walk ends.
pub open spec fn dtb_scan(s: Seq<u8>) -> (Seq<DeviceInit>, ScanEnd) {
    if s.len() < 16 {
        (Seq::empty(), ScanEnd::Truncated)
    } else {
        walk_from(s, be32(s, 12) as int, initial_walk(s))
    }
}

/// The move of the walk by `step` bytes from `pos`, keeping what was seen.
fn advance_by(len: usize, pos: usize, step: u128, found_uart: bool, found_virtio: bool, base_addr: u32) -> (r: WalkStep)
    requires
        pos <= len,
    ensures
        r == advance(len as int, pos + step, found_uart, found_virtio, base_addr),
{
    let room: u128 = (len - pos) as u128;
    if step > room {
        WalkStep::Stop(ScanEnd::Truncated)
    } else {
        let np: usize = pos + step as usize;
        WalkStep::Continue(WalkState { pos: np, found_uart, found_virtio, base_addr }, None)
    }
}

/// One step of the walk over the structure block of `blob`, whose strings block starts at
/// byte offset `strings`.
pub fn next_walk_step(blob: &[u8], strings: u32, w: WalkState) -> (r: WalkStep)
    ensures
        r == walk_step(blob@, strings as int, w),
{
    let s = Ghost(blob@);
    let len: usize = blob.len();
    let pos: usize = w.pos;
    let tag = match read_be32(blob, pos as u64) {
        None => return WalkStep::Stop(ScanEnd::Truncated),
        Some(t) => t,
    };
    match parse_token(tag) {
        Err(_) => WalkStep::Stop(ScanEnd::InvalidToken),
        Ok(FdtToken::End) => WalkStep::Stop(ScanEnd::Completed),
        Ok(FdtToken::EndNode) => {
            let init = if w.base_addr != 0 {
                if w.found_uart {
                    Some(DeviceInit::Uart(w.base_addr))
                } else if w.found_virtio {
                    Some(DeviceInit::Virtio(w.base_addr))
                } else {
                    None
                }
            } else {
                None
            };
            WalkStep::Continue(WalkState { pos: pos + 4, ..w }, init)
        },
        Ok(FdtToken::Nop) => WalkStep::Continue(WalkState { pos: pos + 4, ..w }, None),
        Ok(FdtToken::BeginNode) => {
            let name = &blob[pos + 4..len];
            match terminated_len(name) {
                None => {
                    assert(name@ == s@.subrange(pos + 4, s@.len() as int));
                    WalkStep::Stop(ScanEnd::Truncated)
                },
                Some(l) => {
                    proof {
                        assert(name@ == s@.subrange(pos + 4, s@.len() as int));
                        let sub = s@.subrange(pos + 4, s@.len() as int);
                        assert(first_nul(sub, l as int));
                        let c = choose|c: int| first_nul(sub, c);
                        lemma_first_nul_unique(name@, l as int, c);
                    }
                    let step: u128 = 4 * ((l as u128) / 4 + 2);
                    advance_by(len, pos, step, false, false, 0)
                },
            }
        },
        Ok(FdtToken::Prop) => {
            if len - pos < 12 {
                return WalkStep::Stop(ScanEnd::Truncated);
            }
            let plen = match read_be32(blob, pos as u64 + 4) {
                None => return WalkStep::Stop(ScanEnd::Truncated),
                Some(v) => v,
            };
            let name_off = match read_be32(blob, pos as u64 + 8) {
                None => return WalkStep::Stop(ScanEnd::Truncated),
                Some(v) => v,
            };
            let name: u64 = strings as u64 + name_off as u64;
            let step: u128 = 4 * ((plen as u128 + 3) / 4 + 3);
            let reg = reg_name_bytes();
            let compatible = compatible_name_bytes();
            if matches_at_offset(blob, name, &reg) {
                if plen != 8 && len - pos < 20 {
                    return WalkStep::Stop(ScanEnd::Truncated);
                }
                let cell: u64 = if plen == 8 { pos as u64 + 12 } else { pos as u64 + 16 };
                match read_be32(blob, cell) {
                    None => WalkStep::Stop(ScanEnd::Truncated),
                    Some(b) => advance_by(len, pos, step, w.found_uart, w.found_virtio, b),
                }
            } else if matches_at_offset(blob, name, &compatible) {
                let pl011 = pl011_compatible_bytes();
                let virtio = virtio_mmio_compatible_bytes();
                if matches_at_offset(blob, pos as u64 + 12, &pl011) {
                    advance_by(len, pos, step, true, w.found_virtio, w.base_addr)
                } else if matches_at_offset(blob, pos as u64 + 12, &virtio) {
                    advance_by(len, pos, step, w.found_uart, true, w.base_addr)
                } else {
                    advance_by(len, pos, step, w.found_uart, w.found_virtio, w.base_addr)
                }
            } else {
                advance_by(len, pos, step, w.found_uart, w.found_virtio, w.base_addr)
            }
        },
    }
}

/// The result of walking a device tree: the devices to bring up, in order, and how the
/// walk ended.
pub struct DtbScan {
    pub inits: Vec<DeviceInit>,
    pub end: ScanEnd,
}

impl DtbScan {
    /// Whether the kernel stops for good after this walk: it met a word that is no token,
    /// which the kernel treats as a hardware fault.
    pub fn halts(&self) -> (r: bool)
        ensures
            r == (self.end == ScanEnd::InvalidToken),
    {
        match self.end {
            ScanEnd::InvalidToken => true,
            _ => false,
        }
    }
}

/// Walks the structure block of the device tree `blob` and collects, node by node, the
/// UART and virtio devices to bring up at their `reg` addresses.
pub fn set_special_addresses_from_dtb(blob: &[u8]) -> (r: DtbScan)
    ensures
        (r.inits@, r.end) == dtb_scan(blob@),
        blob@.len() >= 16 ==> r.inits@ == declared_devices(dtb_items(blob@).0, 0) && r.end == dtb_items(blob@).1,
{
    if blob.len() < 16 {
        return DtbScan { inits: Vec::new(), end: ScanEnd::Truncated };
    }
    proof {
        lemma_dtb_scan_declared(blob@);
    }
    let structure_block_offset = match read_be32(blob, 8) {
        Some(v) => v,
        None => return DtbScan { inits: Vec::new(), end: ScanEnd::Truncated },
    };
    let strings_block_offset = match read_be32(blob, 12) {
        Some(v) => v,
        None => return DtbScan { inits: Vec::new(), end: ScanEnd::Truncated },
    };
    let mut w = WalkState {
        pos: (structure_block_offset / 4 * 4) as usize,
        found_uart: false,
        found_virtio: false,
        base_addr: 0,
    };
    let mut inits: Vec<DeviceInit> = Vec::new();
    let ghost s = blob@;
    let ghost strings = strings_block_offset as int;
    let ghost total = dtb_scan(s);
    assert(total == walk_from(s, strings, w));
    assert(inits@ + total.0 =~= total.0);
    loop
        invariant
            s == blob@,
            total == dtb_scan(s),
            total == (declared_devices(dtb_items(s).0, 0), dtb_items(s).1),
            s.len() <= usize::MAX,
            strings == strings_block_offset as int,
            inits@ + walk_from(s, strings, w).0 == total.0,
            walk_from(s, strings, w).1 == total.1,
        decreases s.len() - w.pos,
    {
        let step = next_walk_step(blob, strings_block_offset, w);
        proof {
            lemma_walk_step_advances(s, strings, w);
            lemma_walk_from_unfold(s, strings, w);
        }
        match step {
            WalkStep::Stop(e) => {
                assert(inits@ + Seq::<DeviceInit>::empty() =~= inits@);
                return DtbScan { inits, end: e };
            },
            WalkStep::Continue(w2, init) => {
                let ghost before = inits@;
                let ghost rest = walk_from(s, strings, w2).0;
                match init {
                    Some(d) => inits.push(d),
                    None => {},
                }
                assert(inits@ =~= before + option_seq(init));
                assert(before + (option_seq(init) + rest) =~= inits@ + rest);
                w = w2;
            },
        }
    }
}

} // verus!
