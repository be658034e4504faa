use vstd::prelude::*;
use crate::access::{low16, low32, truncate16, truncate32, Access, Message};
use crate::bytes::{from_be16, le16, swap16, to_be16};

verus! {

/// Number of entries of each virtqueue.
pub const QUEUE_SIZE: usize = 256;
/// Descriptor flag: the device writes into the buffer.
pub const VIRTQ_DESC_F_WRITE: u16 = 2;

pub const VIRTIO_STATUS_ACKNOWLEDGE: u32 = 1;
pub const VIRTIO_STATUS_DRIVER: u32 = 2;
pub const VIRTIO_STATUS_DRIVER_OK: u32 = 4;
pub const VIRTIO_STATUS_FEATURES_OK: u32 = 8;
pub const VIRTIO_STATUS_FAILED: u32 = 128;

/// Feature bit 5: the device has a MAC address.
pub const VIRTIO_NET_F_MAC: u32 = 0x20;
/// Feature bit 15: the driver can merge receive buffers.
pub const VIRTIO_NET_F_MRG_RXBUF: u32 = 0x8000;
/// Feature bit 16: the device reports its link status.
pub const VIRTIO_NET_F_STATUS: u32 = 0x1_0000;
/// Feature bit 32 (bit 0 of the second feature word): virtio 1.0 or later.
pub const VIRTIO_F_VERSION_1: u32 = 1;

/// The magic value of a virtio MMIO device ("virt" in little-endian).
pub const VIRTIO_MAGIC: u32 = 0x7472_6976;

/// Byte offsets of the registers of `VirtioMmio`.
pub const REG_MAGIC: u64 = 0x00;
pub const REG_VERSION: u64 = 0x04;
pub const REG_DEVICE_ID: u64 = 0x08;
pub const REG_DEVICE_FEATURES: u64 = 0x10;
pub const REG_DEVICE_FEATURES_SEL: u64 = 0x14;
pub const REG_DRIVER_FEATURES: u64 = 0x20;
pub const REG_DRIVER_FEATURES_SEL: u64 = 0x24;
pub const REG_QUEUE_SEL: u64 = 0x30;
pub const REG_QUEUE_NUM: u64 = 0x38;
pub const REG_QUEUE_READY: u64 = 0x44;
pub const REG_QUEUE_NOTIFY: u64 = 0x50;
pub const REG_STATUS: u64 = 0x70;
pub const REG_QUEUE_DESC_LOW: u64 = 0x80;
pub const REG_QUEUE_DESC_HIGH: u64 = 0x84;
pub const REG_QUEUE_AVAIL_LOW: u64 = 0x90;
pub const REG_QUEUE_AVAIL_HIGH: u64 = 0x94;
pub const REG_QUEUE_USED_LOW: u64 = 0xa0;
pub const REG_QUEUE_USED_HIGH: u64 = 0xa4;
pub const REG_MAC_ADDR: u64 = 0x100;

/// Byte offsets inside a `Virtqueue`: the descriptor table (16 bytes an entry) comes
/// first, the available ring at 4096, and the used ring page-aligned at 8192.
pub const DESC_SIZE: u64 = 16;
pub const AVAIL_OFFSET: u64 = 4096;
pub const USED_OFFSET: u64 = 8192;

/// Size of a `VirtioNetHeader` and of a `RawPacket` buffer.
pub const NET_HEADER_SIZE: u64 = 12;
pub const RAW_PACKET_SIZE: u64 = 1526;
/// Size of the data area of a `RawPacket` (a full Ethernet frame).
pub const MAX_DATA_LEN: usize = 1514;
/// Size of an `ArpFrame`, header included.
pub const ARP_FRAME_SIZE: usize = 54;
/// Shortest Ethernet frame the transmit path sends; shorter frames are zero-padded.
pub const MIN_FRAME_LEN: usize = 60;

/// The packed sizes of the virtqueue parts give the offsets the driver uses: 256
/// descriptors of 16 bytes (8 + 4 + 2 + 2) before the available ring, whose 518 bytes
/// (2 + 2 + 2 * 256 + 2) and 3578 bytes of padding come before the used ring; a used
/// entry takes 8 bytes (4 + 4); a packet buffer is the 12-byte header (1 + 1 + 5 * 2)
/// and 1514 bytes of data; an ARP frame is that header, 14 bytes of Ethernet header
/// (6 + 6 + 2) and 28 of ARP (2 + 2 + 1 + 1 + 2 + 6 + 4 + 6 + 4). The registers follow
/// the fields of `VirtioMmio` with its reserved words.
pub proof fn lemma_layout()
    ensures
        DESC_SIZE == 8 + 4 + 2 + 2,
        AVAIL_OFFSET == 256 * DESC_SIZE,
        USED_OFFSET == AVAIL_OFFSET + (2 + 2 + 2 * 256 + 2) + 3578,
        USED_OFFSET % 4096 == 0,
        NET_HEADER_SIZE == 1 + 1 + 5 * 2,
        RAW_PACKET_SIZE == NET_HEADER_SIZE + MAX_DATA_LEN,
        ARP_FRAME_SIZE == NET_HEADER_SIZE + (6 + 6 + 2) + (2 + 2 + 1 + 1 + 2 + 6 + 4 + 6 + 4),
        REG_DRIVER_FEATURES == REG_DEVICE_FEATURES_SEL + 4 + 2 * 4,
        REG_QUEUE_SEL == REG_DRIVER_FEATURES_SEL + 4 + 2 * 4,
        REG_QUEUE_READY == REG_QUEUE_NUM + 4 + 2 * 4,
        REG_QUEUE_NOTIFY == REG_QUEUE_READY + 4 + 2 * 4,
        REG_STATUS == REG_QUEUE_NOTIFY + 4 + 3 * 4 + 2 * 4 + 2 * 4,
        REG_QUEUE_DESC_LOW == REG_STATUS + 4 + 3 * 4,
        REG_QUEUE_AVAIL_LOW == REG_QUEUE_DESC_HIGH + 4 + 2 * 4,
        REG_QUEUE_USED_LOW == REG_QUEUE_AVAIL_HIGH + 4 + 2 * 4,
        REG_MAC_ADDR == REG_QUEUE_USED_HIGH + 4 + 22 * 4,
{
}

/// The register block of a virtio MMIO device, as laid out from its base address.
pub struct VirtioMmio {
    pub magic: u32,
    pub version: u32,
    pub device_id: u32,
    pub vendor_id: u32,
    pub device_features: u32,
    pub device_features_sel: u32,
    reserved1: [u32; 2],
    pub driver_features: u32,
    pub driver_features_sel: u32,
    reserved2: [u32; 2],
    pub queue_sel: u32,
    pub queue_num_max: u32,
    pub queue_num: u32,
    reserved3: [u32; 2],
    pub queue_ready: u32,
    reserved4: [u32; 2],
    pub queue_notify: u32,
    reserved5: [u32; 3],
    pub interrupt_status: u32,
    pub interrupt_ack: u32,
    reserved6: [u32; 2],
    pub status: u32,
    reserved7: [u32; 3],
    pub queue_desc_low: u32,
    pub queue_desc_high: u32,
    reserved8: [u32; 2],
    pub queue_avail_low: u32,
    pub queue_avail_high: u32,
    reserved9: [u32; 2],
    pub queue_used_low: u32,
    pub queue_used_high: u32,
    reserved10: [u32; 22],
    mac_addr: [u8; 6],
}

/// One entry of a descriptor table: a buffer the device may read or write.
#[derive(PartialEq, Eq, Structural, Clone, Copy, Debug)]
pub struct VirtqDescriptor {
    pub addr: u64,
    pub len: u32,
    pub flags: u16,
    pub next: u16,
}

/// The available ring: descriptors the driver offers to the device.
pub struct VirtqAvail {
    pub flags: u16,
    pub idx: u16,
    pub ring: [u16; 256],
    pub used_event: u16,
}

/// One entry of the used ring: a descriptor the device is done with, and how many
/// bytes it wrote.
#[derive(PartialEq, Eq, Structural, Clone, Copy, Debug)]
pub struct VirtqUsedElem {
    pub id: u32,
    pub len: u32,
}

/// The used ring: descriptors the device hands back.
pub struct VirtqUsed {
    pub flags: u16,
    pub idx: u16,
    pub ring: [VirtqUsedElem; 256],
    pub avail_event: u16,
}

/// A virtqueue of 256 entries, laid out as the device expects it.
pub struct Virtqueue {
    pub descriptors: [VirtqDescriptor; 256],
    pub available: VirtqAvail,
    pub padding: [u8; 3578],
    pub used: VirtqUsed,
}

/// The header that precedes every packet exchanged with a virtio network device.
#[derive(PartialEq, Eq, Structural, Clone, Copy, Debug)]
pub struct VirtioNetHeader {
    pub flags: u8,
    pub gso_type: u8,
    pub hdr_len: u16,
    pub gso_size: u16,
    pub csum_start: u16,
    pub csum_offset: u16,
    pub num_buffers: u16,
}

/// A packet buffer: the virtio header and room for a full Ethernet frame.
pub struct RawPacket {
    pub header: VirtioNetHeader,
    pub data: [u8; 1514],
}

/// An Ethernet header; `ether_type` holds the type in network order.
#[derive(Clone, Copy, Debug)]
pub struct EthernetHeader {
    pub dest_mac: [u8; 6],
    pub src_mac: [u8; 6],
    pub ether_type: u16,
}

/// An ARP message for IPv4 over Ethernet; 16-bit fields hold network-order values.
#[derive(Clone, Copy, Debug)]
pub struct ARP {
    pub htype: u16,
    pub ptype: u16,
    pub hlen: u8,
    pub plen: u8,
    pub oper: u16,
    pub sha: [u8; 6],
    pub spa: [u8; 4],
    pub tha: [u8; 6],
    pub tpa: [u8; 4],
}

/// A complete ARP packet as handed to the device: virtio header, Ethernet header, ARP.
#[derive(Clone, Copy, Debug)]
pub struct ArpFrame {
    pub header: VirtioNetHeader,
    pub eth_header: EthernetHeader,
    pub arp_payload: ARP,
}

/// The bytes of a virtio network header as stored in memory.
pub open spec fn net_header_bytes(h: VirtioNetHeader) -> Seq<u8> {
    seq![h.flags, h.gso_type] + le16(h.hdr_len) + le16(h.gso_size) + le16(h.csum_start) + le16(
        h.csum_offset,
    ) + le16(h.num_buffers)
}

/// The bytes of an Ethernet header as stored in memory.
pub open spec fn eth_header_bytes(e: EthernetHeader) -> Seq<u8> {
    e.dest_mac@ + e.src_mac@ + le16(e.ether_type)
}

/// The bytes of an ARP message as stored in memory.
pub open spec fn arp_bytes(a: ARP) -> Seq<u8> {
    le16(a.htype) + le16(a.ptype) + seq![a.hlen, a.plen] + le16(a.oper) + a.sha@ + a.spa@ + a.tha@
        + a.tpa@
}

/// The bytes of an ARP frame as stored in memory, with no gap between fields.
pub open spec fn arp_frame_bytes(f: ArpFrame) -> Seq<u8> {
    net_header_bytes(f.header) + eth_header_bytes(f.eth_header) + arp_bytes(f.arp_payload)
}

/// Appends the in-memory bytes of `x`, low byte first.
fn push_le16(out: &mut Vec<u8>, x: u16)
    ensures
        final(out)@ == old(out)@ + le16(x),
{
    out.push((x % 0x100) as u8);
    out.push((x / 0x100) as u8);
    assert(final(out)@ =~= old(out)@ + le16(x));
}

/// Appends the bytes of `bytes`.
fn push_all(out: &mut Vec<u8>, bytes: &[u8])
    ensures
        final(out)@ == old(out)@ + bytes@,
{
    let ghost start = out@;
    let mut i: usize = 0;
    while i < bytes.len()
        invariant
            i <= bytes@.len(),
            out@ == start + bytes@.subrange(0, i as int),
        decreases bytes@.len() - i,
    {
        out.push(bytes[i]);
        i += 1;
        assert(out@ =~= start + bytes@.subrange(0, i as int));
    }
    assert(bytes@.subrange(0, bytes@.len() as int) =~= bytes@);
}

impl ArpFrame {
    /// The bytes of the frame as stored in memory, as the device reads them.
    pub fn to_bytes(&self) -> (r: Vec<u8>)
        ensures
            r@ == arp_frame_bytes(*self),
    {
        let mut out: Vec<u8> = Vec::new();
        let h = self.header;
        out.push(h.flags);
        out.push(h.gso_type);
        assert(out@ =~= seq![h.flags, h.gso_type]);
        push_le16(&mut out, h.hdr_len);
        push_le16(&mut out, h.gso_size);
        push_le16(&mut out, h.csum_start);
        push_le16(&mut out, h.csum_offset);
        push_le16(&mut out, h.num_buffers);
        assert(out@ =~= net_header_bytes(h));
        let e = self.eth_header;
        push_all(&mut out, &e.dest_mac);
        push_all(&mut out, &e.src_mac);
        push_le16(&mut out, e.ether_type);
        assert(out@ =~= net_header_bytes(h) + eth_header_bytes(e));
        let a = self.arp_payload;
        let ghost before = out@;
        push_le16(&mut out, a.htype);
        push_le16(&mut out, a.ptype);
        out.push(a.hlen);
        out.push(a.plen);
        push_le16(&mut out, a.oper);
        push_all(&mut out, &a.sha);
        push_all(&mut out, &a.spa);
        push_all(&mut out, &a.tha);
        push_all(&mut out, &a.tpa);
        assert(out@ =~= before + arp_bytes(a));
        out
    }
}

/// The ARP request of `send_arp_request`: broadcast from `source_mac` (and the kernel's
/// own IPv4 address 10.0.2.15), asking who has `target_ip`.
pub open spec fn arp_request(source_mac: [u8; 6], target_ip: [u8; 4]) -> ArpFrame {
    ArpFrame {
        header: VirtioNetHeader {
            flags: 0,
            gso_type: 0,
            hdr_len: 0,
            gso_size: 0,
            csum_start: 0,
            csum_offset: 0,
            num_buffers: 0,
        },
        eth_header: EthernetHeader {
            dest_mac: [0xff, 0xff, 0xff, 0xff, 0xff, 0xff],
            src_mac: source_mac,
            ether_type: swap16(0x0806),
        },
        arp_payload: ARP {
            htype: swap16(1),
            ptype: swap16(0x0800),
            hlen: 6,
            plen: 4,
            oper: swap16(1),
            sha: source_mac,
            spa: [10, 0, 2, 15],
            tha: [0, 0, 0, 0, 0, 0],
            tpa: target_ip,
        },
    }
}

/// Builds the ARP request that asks, by broadcast, who has `target_ip`.
pub fn arp_request_frame(source_mac: [u8; 6], target_ip: [u8; 4]) -> (r: ArpFrame)
    ensures
        r == arp_request(source_mac, target_ip),
{
    ArpFrame {
        header: VirtioNetHeader {
            flags: 0,
            gso_type: 0,
            hdr_len: 0,
            gso_size: 0,
            csum_start: 0,
            csum_offset: 0,
            num_buffers: 0,
        },
        eth_header: EthernetHeader {
            dest_mac: [0xff, 0xff, 0xff, 0xff, 0xff, 0xff],
            src_mac: source_mac,
            ether_type: to_be16(0x0806),
        },
        arp_payload: ARP {
            htype: to_be16(1),
            ptype: to_be16(0x0800),
            hlen: 6,
            plen: 4,
            oper: to_be16(1),
            sha: source_mac,
            spa: [10, 0, 2, 15],
            tha: [0, 0, 0, 0, 0, 0],
            tpa: target_ip,
        },
    }
}

/// On the wire, the ARP request is a broadcast Ethernet frame of type 0x0806 carrying an
/// IPv4-over-Ethernet request (opcode 1) from `source_mac` at 10.0.2.15 for `target_ip`,
/// after a zeroed virtio header; multi-byte fields are in network order.
pub proof fn lemma_arp_request_wire_format(source_mac: [u8; 6], target_ip: [u8; 4])
    ensures
        arp_frame_bytes(arp_request(source_mac, target_ip)) == Seq::new(12, |i: int| 0u8)
            + seq![0xffu8, 0xff, 0xff, 0xff, 0xff, 0xff] + source_mac@ + seq![0x08u8, 0x06]
            + seq![0x00u8, 0x01, 0x08, 0x00, 0x06, 0x04, 0x00, 0x01] + source_mac@ + seq![
            10u8,
            0,
            2,
            15,
        ] + Seq::new(6, |i: int| 0u8) + target_ip@,
        arp_frame_bytes(arp_request(source_mac, target_ip)).len() == ARP_FRAME_SIZE,
{
    let f = arp_request(source_mac, target_ip);
    assert(net_header_bytes(f.header) =~= Seq::new(12, |i: int| 0u8));
    assert(f.eth_header.dest_mac@ =~= seq![0xffu8, 0xff, 0xff, 0xff, 0xff, 0xff]);
    assert(le16(swap16(0x0806)) =~= seq![0x08u8, 0x06]);
    assert(le16(swap16(1)) =~= seq![0x00u8, 0x01]);
    assert(le16(swap16(0x0800)) =~= seq![0x08u8, 0x00]);
    assert(f.arp_payload.spa@ =~= seq![10u8, 0, 2, 15]);
    assert(f.arp_payload.tha@ =~= Seq::new(6, |i: int| 0u8));
    assert(arp_bytes(f.arp_payload) =~= seq![0x00u8, 0x01, 0x08, 0x00, 0x06, 0x04, 0x00, 0x01]
        + source_mac@ + seq![10u8, 0, 2, 15] + Seq::new(6, |i: int| 0u8) + target_ip@);
    assert(arp_frame_bytes(f) =~= Seq::new(12, |i: int| 0u8) + seq![0xffu8, 0xff, 0xff, 0xff, 0xff, 0xff]
        + source_mac@ + seq![0x08u8, 0x06] + seq![0x00u8, 0x01, 0x08, 0x00, 0x06, 0x04, 0x00, 0x01]
        + source_mac@ + seq![10u8, 0, 2, 15] + Seq::new(6, |i: int| 0u8) + target_ip@);
}

/// The kinds of Ethernet frame the receive path tells apart.
#[derive(PartialEq, Eq, Structural, Clone, Copy, Debug)]
pub enum PacketType {
    ARP,
    IPv4,
    IPv6,
    Unknown,
}

/// The kind of frame an EtherType (in host order) stands for.
pub open spec fn packet_type_of(ether_type: u16) -> PacketType {
    if ether_type == 0x0806 {
        PacketType::ARP
    } else if ether_type == 0x0800 {
        PacketType::IPv4
    } else if ether_type == 0x86DD {
        PacketType::IPv6
    } else {
        PacketType::Unknown
    }
}

/// Tells ARP, IPv4 and IPv6 frames apart by their EtherType (in host order).
pub fn identify_packet_type(ether_type: u16) -> (r: PacketType)
    ensures
        r == packet_type_of(ether_type),
{
    match ether_type {
        0x0806 => PacketType::ARP,
        0x0800 => PacketType::IPv4,
        0x86DD => PacketType::IPv6,
        _ => PacketType::Unknown,
    }
}

/// Each known kind has exactly one EtherType, and every other EtherType is unknown.
pub proof fn lemma_packet_type_unique(a: u16, b: u16)
    ensures
        packet_type_of(a) == packet_type_of(b) && packet_type_of(a) != PacketType::Unknown ==> a == b,
        packet_type_of(0x0806) == PacketType::ARP,
        packet_type_of(0x0800) == PacketType::IPv4,
        packet_type_of(0x86DD) == PacketType::IPv6,
{
}

/// The address `off` bytes past `base`, wrapping around the address space as the
/// machine's address arithmetic does.
pub open spec fn addr_plus(base: u64, off: int) -> u64 {
    vstd::wrapping::u64_specs::wrapping_add(base, off as u64)
}

/// The address `off` bytes past `base`, wrapping around the address space.
pub fn at_offset(base: u64, off: u64) -> (r: u64)
    ensures
        r == addr_plus(base, off as int),
{
    base.wrapping_add(off)
}

/// Alignment of a virtqueue: its descriptor table, and its used ring 8192 bytes further,
/// start on a page boundary.
pub const QUEUE_ALIGN: u64 = 4096;

/// The state of the virtio network driver: where the device's registers, the two
/// virtqueues and the two buffer areas lie, how far it has read the receive queue's used
/// ring, and whether the sent packet was reported.
#[derive(PartialEq, Eq, Structural, Clone, Copy, Debug)]
pub struct VirtioNet {
    /// Base of the device's registers, or 0 while no device was brought up.
    pub mmio: u64,
    /// Base of the receive queue (queue 0).
    pub rx_queue: u64,
    /// Base of the transmit queue (queue 1).
    pub tx_queue: u64,
    /// Base of the 256 receive buffers, each a `RawPacket`.
    pub rx_buffers: u64,
    /// Base of the transmit buffers, each a `RawPacket`.
    pub tx_buffers: u64,
    /// Used-ring index up to which received packets were handled.
    pub last_used_rx_idx: u16,
    pub tx_reported: bool,
}

impl VirtioNet {
    /// The register base came from a 32-bit address, and both queues start on a page,
    /// as the device requires of their descriptor tables and used rings.
    pub open spec fn wf(self) -> bool {
        &&& self.mmio <= u32::MAX
        &&& self.rx_queue % QUEUE_ALIGN == 0
        &&& self.tx_queue % QUEUE_ALIGN == 0
    }

    /// A driver with no device yet, over queues and buffers at the given addresses;
    /// `None` when a queue does not start on a page.
    pub fn new(rx_queue: u64, tx_queue: u64, rx_buffers: u64, tx_buffers: u64) -> (r: Option<VirtioNet>)
        ensures
            r matches Some(d) ==> d.wf() && d == (VirtioNet {
                mmio: 0,
                rx_queue,
                tx_queue,
                rx_buffers,
                tx_buffers,
                last_used_rx_idx: 0,
                tx_reported: false,
            }),
            r is None <==> (rx_queue % QUEUE_ALIGN != 0 || tx_queue % QUEUE_ALIGN != 0),
    {
        if rx_queue % QUEUE_ALIGN != 0 || tx_queue % QUEUE_ALIGN != 0 {
            None
        } else {
            Some(VirtioNet { mmio: 0, rx_queue, tx_queue, rx_buffers, tx_buffers, last_used_rx_idx: 0, tx_reported: false })
        }
    }
}

/// Whether a virtio network device was brought up.
pub fn virtio_net_found(dev: &VirtioNet) -> (r: bool)
    ensures
        r == (dev.mmio != 0),
{
    dev.mmio != 0
}

/// The message the kernel shows once the device tree was walked.
pub fn found_message(dev: &VirtioNet) -> (r: Message)
    ensures
        r == (if dev.mmio != 0 { Message::VirtioFound } else { Message::VirtioNotFound }),
{
    if dev.mmio != 0 {
        Message::VirtioFound
    } else {
        Message::VirtioNotFound
    }
}

/// Whether the sent packet was reported.
pub fn get_tx_reported(dev: &VirtioNet) -> (r: bool)
    ensures
        r == dev.tx_reported,
{
    dev.tx_reported
}

/// Notes that the sent packet was reported.
pub fn set_tx_reported(dev: &mut VirtioNet)
    ensures
        *final(dev) == (VirtioNet { tx_reported: true, ..*old(dev) }),
{
    dev.tx_reported = true;
}

/// Address of the `idx` field of the used ring of the queue at `q`.
pub open spec fn used_idx_addr(q: u64) -> u64 {
    addr_plus(q, USED_OFFSET + 2)
}

/// Address of entry `r` of the used ring of the queue at `q`.
pub open spec fn used_elem_addr(q: u64, r: int) -> u64 {
    addr_plus(q, USED_OFFSET + 4 + 8 * r)
}

/// Address of the `idx` field of the available ring of the queue at `q`.
pub open spec fn avail_idx_addr(q: u64) -> u64 {
    addr_plus(q, AVAIL_OFFSET + 2)
}

/// Address of slot `slot` of the available ring of the queue at `q`.
pub open spec fn avail_slot_addr(q: u64, slot: int) -> u64 {
    addr_plus(q, AVAIL_OFFSET + 4 + 2 * slot)
}

/// Address of descriptor `i` of the queue at `q`.
pub open spec fn desc_addr(q: u64, i: int) -> u64 {
    addr_plus(q, DESC_SIZE * i)
}

/// The read of how far the device has filled the used ring of the transmit queue.
pub fn get_tx_used(dev: &VirtioNet) -> (r: Access)
    requires
        dev.wf(),
    ensures
        r == Access::Read16(used_idx_addr(dev.tx_queue)),
{
    Access::Read16(at_offset(dev.tx_queue, USED_OFFSET + 2))
}

/// Tells the device that the receive queue has new buffers.
pub open spec fn rx_notify(dev: VirtioNet) -> Seq<Access> {
    seq![Access::Fence, Access::Write32((dev.mmio + REG_QUEUE_NOTIFY) as u64, 0)]
}

/// Tells the device that the receive queue has new buffers.
pub fn notify_rx_queue(dev: &VirtioNet) -> (r: Vec<Access>)
    requires
        dev.wf(),
    ensures
        r@ == rx_notify(*dev),
{
    let mut out: Vec<Access> = Vec::new();
    out.push(Access::Fence);
    out.push(Access::Write32(dev.mmio + REG_QUEUE_NOTIFY, 0));
    assert(out@ =~= rx_notify(*dev));
    out
}

/// The stores that place descriptor `d` at address `at`, field by field.
pub open spec fn desc_writes(at: u64, d: VirtqDescriptor) -> Seq<Access> {
    seq![
        Access::Write64(at, d.addr),
        Access::Write32(addr_plus(at, 8), d.len),
        Access::Write16(addr_plus(at, 12), d.flags),
        Access::Write16(addr_plus(at, 14), d.next),
    ]
}

/// Places descriptor `d` at address `at`.
fn push_desc(out: &mut Vec<Access>, at: u64, d: VirtqDescriptor)
    ensures
        final(out)@ == old(out)@ + desc_writes(at, d),
{
    out.push(Access::Write64(at, d.addr));
    out.push(Access::Write32(at_offset(at, 8), d.len));
    out.push(Access::Write16(at_offset(at, 12), d.flags));
    out.push(Access::Write16(at_offset(at, 14), d.next));
    assert(final(out)@ =~= old(out)@ + desc_writes(at, d));
}

/// The register writes that hand the queue at `q` to the device as queue `sel`.
pub open spec fn queue_setup(m: u64, sel: u32, q: u64) -> Seq<Access> {
    seq![
        Access::Write32((m + REG_QUEUE_SEL) as u64, sel),
        Access::Write32((m + REG_QUEUE_NUM) as u64, 256),
        Access::Write32((m + REG_QUEUE_DESC_LOW) as u64, low32(q)),
        Access::Write32((m + REG_QUEUE_DESC_HIGH) as u64, 0),
        Access::Write32((m + REG_QUEUE_AVAIL_LOW) as u64, low32(addr_plus(q, AVAIL_OFFSET as int))),
        Access::Write32((m + REG_QUEUE_AVAIL_HIGH) as u64, 0),
        Access::Write32((m + REG_QUEUE_USED_LOW) as u64, low32(addr_plus(q, USED_OFFSET as int))),
        Access::Write32((m + REG_QUEUE_USED_HIGH) as u64, 0),
        Access::Write32((m + REG_QUEUE_READY) as u64, 1),
    ]
}

/// Hands the queue at `q` to the device as queue `sel`.
fn push_queue_setup(out: &mut Vec<Access>, m: u64, sel: u32, q: u64)
    requires
        m <= u32::MAX,
    ensures
        final(out)@ == old(out)@ + queue_setup(m, sel, q),
{
    out.push(Access::Write32(m + REG_QUEUE_SEL, sel));
    out.push(Access::Write32(m + REG_QUEUE_NUM, 256));
    out.push(Access::Write32(m + REG_QUEUE_DESC_LOW, truncate32(q)));
    out.push(Access::Write32(m + REG_QUEUE_DESC_HIGH, 0));
    out.push(Access::Write32(m + REG_QUEUE_AVAIL_LOW, truncate32(at_offset(q, AVAIL_OFFSET))));
    out.push(Access::Write32(m + REG_QUEUE_AVAIL_HIGH, 0));
    out.push(Access::Write32(m + REG_QUEUE_USED_LOW, truncate32(at_offset(q, USED_OFFSET))));
    out.push(Access::Write32(m + REG_QUEUE_USED_HIGH, 0));
    out.push(Access::Write32(m + REG_QUEUE_READY, 1));
    assert(final(out)@ =~= old(out)@ + queue_setup(m, sel, q));
}

/// Receive descriptor `i`: all of receive buffer `i`, for the device to write.
pub open spec fn rx_descriptor(dev: VirtioNet, i: int) -> VirtqDescriptor {
    VirtqDescriptor {
        addr: addr_plus(dev.rx_buffers, RAW_PACKET_SIZE * i),
        len: RAW_PACKET_SIZE as u32,
        flags: VIRTQ_DESC_F_WRITE,
        next: 0,
    }
}

/// Access `k` of filling the receive queue: five per descriptor, the four stores of
/// descriptor `k / 5`, then its slot in the available ring.
pub open spec fn rx_fill_access(dev: VirtioNet, k: int) -> Access {
    let i = k / 5;
    let j = k % 5;
    if j < 4 {
        desc_writes(desc_addr(dev.rx_queue, i), rx_descriptor(dev, i))[j]
    } else {
        Access::Write16(avail_slot_addr(dev.rx_queue, i), i as u16)
    }
}

/// The descriptor tables and used rings handed to the device start on page boundaries,
/// and the available rings on 2-byte boundaries.
pub proof fn lemma_queue_rings_aligned(dev: VirtioNet)
    requires
        dev.wf(),
    ensures
        dev.rx_queue % 4096 == 0,
        addr_plus(dev.rx_queue, AVAIL_OFFSET as int) % 2 == 0,
        addr_plus(dev.rx_queue, USED_OFFSET as int) % 4096 == 0,
        dev.tx_queue % 4096 == 0,
        addr_plus(dev.tx_queue, AVAIL_OFFSET as int) % 2 == 0,
        addr_plus(dev.tx_queue, USED_OFFSET as int) % 4096 == 0,
{
}

/// Plugging in the queues selects queue 0 and hands it the receive queue, then queue 1
/// and the transmit queue, each with 256 entries, the low 32 bits of the addresses of its
/// descriptor table, available ring (+4096) and used ring (+8192), high halves 0, and
/// marks each ready. It then offers receive buffer `i` (1526 bytes at `rx_buffers +
/// 1526 * i`, device-writable) as descriptor `i` in available slot `i`, for all 256, and
/// publishes available index 256 after a fence.
pub proof fn lemma_plug_in_queues_layout(dev: VirtioNet, i: int)
    requires
        0 <= i < 256,
    ensures
        ({
            let a = plug_in_queues_accesses(dev);
            let m = dev.mmio;
            let rx = dev.rx_queue;
            let tx = dev.tx_queue;
            let w = |b: u64, k: int| vstd::wrapping::u64_specs::wrapping_add(b, k as u64);
            &&& a.len() == 1300
            &&& a[0] == Access::Write32((m + 0x30) as u64, 0)
            &&& a[1] == Access::Write32((m + 0x38) as u64, 256)
            &&& a[2] == Access::Write32((m + 0x80) as u64, (rx % 0x1_0000_0000) as u32)
            &&& a[3] == Access::Write32((m + 0x84) as u64, 0)
            &&& a[4] == Access::Write32((m + 0x90) as u64, (w(rx, 4096) % 0x1_0000_0000) as u32)
            &&& a[6] == Access::Write32((m + 0xa0) as u64, (w(rx, 8192) % 0x1_0000_0000) as u32)
            &&& a[8] == Access::Write32((m + 0x44) as u64, 1)
            &&& a[9] == Access::Write32((m + 0x30) as u64, 1)
            &&& a[11] == Access::Write32((m + 0x80) as u64, (tx % 0x1_0000_0000) as u32)
            &&& a[13] == Access::Write32((m + 0x90) as u64, (w(tx, 4096) % 0x1_0000_0000) as u32)
            &&& a[15] == Access::Write32((m + 0xa0) as u64, (w(tx, 8192) % 0x1_0000_0000) as u32)
            &&& a[17] == Access::Write32((m + 0x44) as u64, 1)
            &&& a[18 + 5 * i] == Access::Write64(w(rx, 16 * i), w(dev.rx_buffers, 1526 * i))
            &&& a[18 + 5 * i + 1] == Access::Write32(w(w(rx, 16 * i), 8), 1526)
            &&& a[18 + 5 * i + 2] == Access::Write16(w(w(rx, 16 * i), 12), 2)
            &&& a[18 + 5 * i + 3] == Access::Write16(w(w(rx, 16 * i), 14), 0)
            &&& a[18 + 5 * i + 4] == Access::Write16(w(rx, 4100 + 2 * i), i as u16)
            &&& a[1298] == Access::Fence
            &&& a[1299] == Access::Write16(w(rx, 4098), 256)
        }),
{
    let k = 5 * i;
    assert(k / 5 == i);
    assert((k + 1) / 5 == i && (k + 1) % 5 == 1);
    assert((k + 2) / 5 == i && (k + 2) % 5 == 2);
    assert((k + 3) / 5 == i && (k + 3) % 5 == 3);
    assert((k + 4) / 5 == i && (k + 4) % 5 == 4);
}

/// Sending a frame copies its bytes, in order, to the start of transmit buffer 0, zeroes
/// the 18 data bytes that bring its 42 data bytes to the 60-byte minimum, describes the
/// buffer in descriptor 0 (address of buffer 0, length 54, no flags, no next), and reads
/// the transmit queue's available index; publishing then offers descriptor 0 in slot
/// `index % 256`, stores `index + 1` (wrapping) after a fence, and after another fence
/// notifies queue 1.
pub proof fn lemma_send_layout(dev: VirtioNet, frame: ArpFrame, k: int, v: u64)
    requires
        0 <= k < 54,
    ensures
        ({
            let a = send_accesses(dev, frame);
            let tb = dev.tx_buffers;
            let tq = dev.tx_queue;
            let w = |b: u64, o: int| vstd::wrapping::u64_specs::wrapping_add(b, o as u64);
            &&& a.len() == 54 + 18 + 4 + 1
            &&& a[k] == Access::Write8(w(tb, k), arp_frame_bytes(frame)[k])
            &&& k < 18 ==> a[54 + k] == Access::Write8(w(tb, 54 + k), 0)
            &&& a[72] == Access::Write64(tq, tb)
            &&& a[73] == Access::Write32(w(tq, 8), 54)
            &&& a[74] == Access::Write16(w(tq, 12), 0)
            &&& a[75] == Access::Write16(w(tq, 14), 0)
            &&& a[76] == Access::Read16(w(tq, 4098))
        }),
        ({
            let idx = (v % 0x1_0000) as u16;
            publish_accesses(dev, v) == seq![
                Access::Write16(vstd::wrapping::u64_specs::wrapping_add(dev.tx_queue, (4100 + 2 * (idx as int % 256)) as u64), 0),
                Access::Fence,
                Access::Write16(
                    vstd::wrapping::u64_specs::wrapping_add(dev.tx_queue, 4098),
                    (if idx == 0xffff { 0 } else { idx + 1 }) as u16,
                ),
                Access::Fence,
                Access::Write32((dev.mmio + 0x50) as u64, 1),
            ]
        }),
{
    lemma_arp_frame_len(frame);
}

/// Showing the MAC address reads register byte `k` (at offset 0x100 + k) in step `k`,
/// and shows it in the next step as two hexadecimal digits followed by a colon, or by a
/// newline after the sixth byte; the receive queue is notified by a fence and a 0 stored
/// into the queue-notify register (offset 0x50).
pub proof fn lemma_mac_output_and_notify(dev: VirtioNet, k: int, v: u64)
    requires
        0 <= k <= 6,
        dev.mmio != 0,
    ensures
        k < 6 ==> mac_output_step(dev, k, v).last() == Access::Read8((dev.mmio + 0x100 + k) as u64),
        k > 0 ==> mac_output_step(dev, k, v)[0] == Access::PrintHex((v % 256) as u8),
        0 < k < 6 ==> mac_output_step(dev, k, v)[1] == Access::PrintByte(0x3a),
        mac_output_step(dev, 6, v) == seq![Access::PrintHex((v % 256) as u8), Access::PrintByte(0x0a)],
        mac_output_step(dev, 0, v) == seq![Access::Read8((dev.mmio + 0x100) as u64)],
        rx_notify(dev) == seq![Access::Fence, Access::Write32((dev.mmio + 0x50) as u64, 0)],
{
    assert(mac_output_step(dev, 6, v) =~= seq![Access::PrintHex((v % 256) as u8), Access::PrintByte(0x0a)]);
    assert(mac_output_step(dev, 0, v) =~= seq![Access::Read8((dev.mmio + 0x100) as u64)]);
}

/// The receive descriptors describe 256 separate buffers: no two of them overlap, when
/// the buffer area does not run past the end of the address space.
pub proof fn lemma_rx_buffers_disjoint(dev: VirtioNet, i: int, j: int)
    requires
        dev.rx_buffers + RAW_PACKET_SIZE * 256 <= u64::MAX,
        0 <= i < j < 256,
    ensures
        rx_descriptor(dev, i).addr + rx_descriptor(dev, i).len <= rx_descriptor(dev, j).addr,
{
}

/// What `plug_in_queues` does: hand both queues to the device, offer every receive buffer
/// in the receive queue, and publish all 256 of them.
pub open spec fn plug_in_queues_accesses(dev: VirtioNet) -> Seq<Access> {
    queue_setup(dev.mmio, 0, dev.rx_queue) + queue_setup(dev.mmio, 1, dev.tx_queue) + Seq::new(
        1280,
        |k: int| rx_fill_access(dev, k),
    ) + seq![Access::Fence, Access::Write16(avail_idx_addr(dev.rx_queue), 256)]
}

/// Hands the receive and transmit queues to the device and fills the receive queue with
/// all 256 receive buffers.
pub fn plug_in_queues(dev: &VirtioNet) -> (r: Vec<Access>)
    requires
        dev.wf(),
    ensures
        r@ == plug_in_queues_accesses(*dev),
{
    let mut out: Vec<Access> = Vec::new();
    push_queue_setup(&mut out, dev.mmio, 0, dev.rx_queue);
    push_queue_setup(&mut out, dev.mmio, 1, dev.tx_queue);
    let ghost setup = out@;
    assert(setup =~= queue_setup(dev.mmio, 0, dev.rx_queue) + queue_setup(dev.mmio, 1, dev.tx_queue));
    let mut i: usize = 0;
    while i < QUEUE_SIZE
        invariant
            i <= QUEUE_SIZE,
            dev.wf(),
            out@ == setup + Seq::new(5 * i as nat, |k: int| rx_fill_access(*dev, k)),
        decreases QUEUE_SIZE - i,
    {
        let ghost before = out@;
        let d = VirtqDescriptor {
            addr: at_offset(dev.rx_buffers, RAW_PACKET_SIZE * (i as u64)),
            len: RAW_PACKET_SIZE as u32,
            flags: VIRTQ_DESC_F_WRITE,
            next: 0,
        };
        push_desc(&mut out, at_offset(dev.rx_queue, DESC_SIZE * (i as u64)), d);
        out.push(Access::Write16(at_offset(dev.rx_queue, AVAIL_OFFSET + 4 + 2 * (i as u64)), i as u16));
        proof {
            assert forall|k: int| 5 * i <= k < 5 * i + 5 implies #[trigger] rx_fill_access(*dev, k)
                == out@[setup.len() + k] by {
                assert(k / 5 == i);
                assert(k % 5 == k - 5 * i);
            }
            assert(out@ =~= setup + Seq::new(5 * (i + 1) as nat, |k: int| rx_fill_access(*dev, k)));
        }
        i += 1;
    }
    out.push(Access::Fence);
    out.push(Access::Write16(at_offset(dev.rx_queue, AVAIL_OFFSET + 2), 256));
    assert(out@ =~= plug_in_queues_accesses(*dev));
    out
}

/// The features of the first feature word that the driver takes when the device offers them.
pub const DRIVER_FEATURES_0_MASK: u32 = 0x1_8020;

/// How bringing up a virtio device ended.
#[derive(PartialEq, Eq, Structural, Clone, Copy, Debug)]
pub enum InitOutcome {
    /// No virtio magic at the address: nothing was done.
    NotVirtio,
    /// A virtio device, but no network card.
    NotNetworkCard,
    /// A virtio device of another register layout than version 2: nothing was done.
    UnsupportedVersion,
    /// The device lacks VIRTIO_F_VERSION_1 and was marked failed.
    NoVersion1,
    /// The device refused the features and was marked failed.
    FeaturesRejected,
    /// The device runs, with both queues in place.
    Ready,
}

/// Where bringing up a virtio device stands: which read's value the next step takes.
#[derive(PartialEq, Eq, Structural, Clone, Copy, Debug)]
pub enum InitPhase {
    /// About to probe the device at this base address.
    Start(u32),
    /// Waiting for the magic register of the device at this base address.
    AwaitMagic(u32),
    /// Waiting for the device-id register.
    AwaitDeviceId(u32),
    /// Waiting for the version register.
    AwaitVersion(u32),
    /// Waiting for the first feature word.
    AwaitFeatures0,
    /// Waiting for the second feature word; holds the features taken from the first.
    AwaitFeatures1(u32),
    /// Waiting for the status register after FEATURES_OK was written.
    AwaitStatus,
    Done(InitOutcome),
}

/// The next phase of bringing up a device, and the accesses to perform before it; when
/// they end with a read, its value goes to the next step.
pub struct InitStep {
    pub phase: InitPhase,
    pub accesses: Vec<Access>,
}

/// A write of `value` to the status register of the device at `m`.
pub open spec fn status_write(m: u64, value: u32) -> Access {
    Access::Write32((m + REG_STATUS) as u64, value)
}

/// A step of bringing up a virtio network device: the new register base of the driver,
/// the next phase, and the accesses to perform; `v` is the value of the last read.
pub open spec fn init_transition(dev: VirtioNet, phase: InitPhase, v: u64) -> (u64, InitPhase, Seq<Access>) {
    let m = dev.mmio;
    match phase {
        InitPhase::Start(base) => (m, InitPhase::AwaitMagic(base), seq![Access::Read32((base + REG_MAGIC) as u64)]),
        InitPhase::AwaitMagic(base) => if low32(v) != VIRTIO_MAGIC {
            (m, InitPhase::Done(InitOutcome::NotVirtio), Seq::empty())
        } else {
            (m, InitPhase::AwaitDeviceId(base), seq![Access::Read32((base + REG_DEVICE_ID) as u64)])
        },
        InitPhase::AwaitDeviceId(base) => if low32(v) != 1 {
            (m, InitPhase::Done(InitOutcome::NotNetworkCard), seq![Access::Print(Message::NotNetworkCard)])
        } else {
            (m, InitPhase::AwaitVersion(base), seq![Access::Read32((base + REG_VERSION) as u64)])
        },
        InitPhase::AwaitVersion(base) => if low32(v) != 2 {
            (m, InitPhase::Done(InitOutcome::UnsupportedVersion), Seq::empty())
        } else {
            let b = base as u64;
            (b, InitPhase::AwaitFeatures0, seq![
                status_write(b, 0),
                status_write(b, VIRTIO_STATUS_ACKNOWLEDGE),
                status_write(b, VIRTIO_STATUS_ACKNOWLEDGE | VIRTIO_STATUS_DRIVER),
                Access::Write32((b + REG_DEVICE_FEATURES_SEL) as u64, 0),
                Access::Read32((b + REG_DEVICE_FEATURES) as u64),
            ])
        },
        InitPhase::AwaitFeatures0 => (m, InitPhase::AwaitFeatures1(low32(v) & DRIVER_FEATURES_0_MASK), seq![
            Access::Write32((m + REG_DEVICE_FEATURES_SEL) as u64, 1),
            Access::Read32((m + REG_DEVICE_FEATURES) as u64),
        ]),
        InitPhase::AwaitFeatures1(driver_features_0) => if low32(v) & VIRTIO_F_VERSION_1 == 0 {
            (m, InitPhase::Done(InitOutcome::NoVersion1), seq![
                Access::Print(Message::NoVersion1),
                status_write(m, VIRTIO_STATUS_FAILED),
            ])
        } else {
            (m, InitPhase::AwaitStatus, seq![
                Access::Write32((m + REG_DRIVER_FEATURES_SEL) as u64, 0),
                Access::Write32((m + REG_DRIVER_FEATURES) as u64, driver_features_0),
                Access::Write32((m + REG_DRIVER_FEATURES_SEL) as u64, 1),
                Access::Write32((m + REG_DRIVER_FEATURES) as u64, VIRTIO_F_VERSION_1),
                status_write(m, VIRTIO_STATUS_ACKNOWLEDGE | VIRTIO_STATUS_DRIVER | VIRTIO_STATUS_FEATURES_OK),
                Access::Read32((m + REG_STATUS) as u64),
            ])
        },
        InitPhase::AwaitStatus => if low32(v) & VIRTIO_STATUS_FEATURES_OK == 0 {
            (m, InitPhase::Done(InitOutcome::FeaturesRejected), seq![
                Access::Print(Message::FeaturesRejected),
                status_write(m, low32(v) | VIRTIO_STATUS_FAILED),
            ])
        } else {
            (m, InitPhase::Done(InitOutcome::Ready), plug_in_queues_accesses(dev) + seq![
                status_write(m, VIRTIO_STATUS_ACKNOWLEDGE | VIRTIO_STATUS_DRIVER | VIRTIO_STATUS_FEATURES_OK
                    | VIRTIO_STATUS_DRIVER_OK),
            ] + rx_notify(dev))
        },
        InitPhase::Done(o) => (m, InitPhase::Done(o), Seq::empty()),
    }
}

/// One step of bringing up the virtio network device: check the magic value, that it
/// is a network card of register layout 2, then reset it, negotiate features (taking
/// MAC, MRG_RXBUF and STATUS where offered, and requiring VERSION_1), and once the
/// device accepts them, plug in the queues, mark the driver ready and notify the
/// receive queue. `read_value` is the value of the read the previous step ended with.
pub fn init_virtio(dev: &mut VirtioNet, phase: InitPhase, read_value: u64) -> (r: InitStep)
    requires
        old(dev).wf(),
    ensures
        final(dev).wf(),
        (final(dev).mmio, r.phase, r.accesses@) == init_transition(*old(dev), phase, read_value),
        *final(dev) == (VirtioNet { mmio: final(dev).mmio, ..*old(dev) }),
{
    let m = dev.mmio;
    let v = truncate32(read_value);
    match phase {
        InitPhase::Start(base) => {
            let mut out: Vec<Access> = Vec::new();
            out.push(Access::Read32(base as u64 + REG_MAGIC));
            assert(out@ =~= seq![Access::Read32((base + REG_MAGIC) as u64)]);
            InitStep { phase: InitPhase::AwaitMagic(base), accesses: out }
        },
        InitPhase::AwaitMagic(base) => {
            let mut out: Vec<Access> = Vec::new();
            if v != VIRTIO_MAGIC {
                return InitStep { phase: InitPhase::Done(InitOutcome::NotVirtio), accesses: out };
            }
            out.push(Access::Read32(base as u64 + REG_DEVICE_ID));
            assert(out@ =~= seq![Access::Read32((base + REG_DEVICE_ID) as u64)]);
            InitStep { phase: InitPhase::AwaitDeviceId(base), accesses: out }
        },
        InitPhase::AwaitDeviceId(base) => {
            let mut out: Vec<Access> = Vec::new();
            if v != 1 {
                out.push(Access::Print(Message::NotNetworkCard));
                assert(out@ =~= seq![Access::Print(Message::NotNetworkCard)]);
                return InitStep { phase: InitPhase::Done(InitOutcome::NotNetworkCard), accesses: out };
            }
            out.push(Access::Read32(base as u64 + REG_VERSION));
            assert(out@ =~= seq![Access::Read32((base + REG_VERSION) as u64)]);
            InitStep { phase: InitPhase::AwaitVersion(base), accesses: out }
        },
        InitPhase::AwaitVersion(base) => {
            let mut out: Vec<Access> = Vec::new();
            if v != 2 {
                return InitStep { phase: InitPhase::Done(InitOutcome::UnsupportedVersion), accesses: out };
            }
            let b: u64 = base as u64;
            dev.mmio = b;
            out.push(Access::Write32(b + REG_STATUS, 0));
            out.push(Access::Write32(b + REG_STATUS, VIRTIO_STATUS_ACKNOWLEDGE));
            out.push(Access::Write32(b + REG_STATUS, VIRTIO_STATUS_ACKNOWLEDGE | VIRTIO_STATUS_DRIVER));
            out.push(Access::Write32(b + REG_DEVICE_FEATURES_SEL, 0));
            out.push(Access::Read32(b + REG_DEVICE_FEATURES));
            assert(out@ =~= init_transition(*old(dev), phase, read_value).2);
            InitStep { phase: InitPhase::AwaitFeatures0, accesses: out }
        },
        InitPhase::AwaitFeatures0 => {
            let mut out: Vec<Access> = Vec::new();
            let driver_features_0 = v & DRIVER_FEATURES_0_MASK;
            out.push(Access::Write32(m + REG_DEVICE_FEATURES_SEL, 1));
            out.push(Access::Read32(m + REG_DEVICE_FEATURES));
            assert(out@ =~= init_transition(*old(dev), phase, read_value).2);
            InitStep { phase: InitPhase::AwaitFeatures1(driver_features_0), accesses: out }
        },
        InitPhase::AwaitFeatures1(driver_features_0) => {
            let mut out: Vec<Access> = Vec::new();
            if v & VIRTIO_F_VERSION_1 == 0 {
                out.push(Access::Print(Message::NoVersion1));
                out.push(Access::Write32(m + REG_STATUS, VIRTIO_STATUS_FAILED));
                assert(out@ =~= init_transition(*old(dev), phase, read_value).2);
                return InitStep { phase: InitPhase::Done(InitOutcome::NoVersion1), accesses: out };
            }
            out.push(Access::Write32(m + REG_DRIVER_FEATURES_SEL, 0));
            out.push(Access::Write32(m + REG_DRIVER_FEATURES, driver_features_0));
            out.push(Access::Write32(m + REG_DRIVER_FEATURES_SEL, 1));
            out.push(Access::Write32(m + REG_DRIVER_FEATURES, VIRTIO_F_VERSION_1));
            out.push(Access::Write32(m + REG_STATUS, VIRTIO_STATUS_ACKNOWLEDGE | VIRTIO_STATUS_DRIVER | VIRTIO_STATUS_FEATURES_OK));
            out.push(Access::Read32(m + REG_STATUS));
            assert(out@ =~= init_transition(*old(dev), phase, read_value).2);
            InitStep { phase: InitPhase::AwaitStatus, accesses: out }
        },
        InitPhase::AwaitStatus => {
            if v & VIRTIO_STATUS_FEATURES_OK == 0 {
                let mut out: Vec<Access> = Vec::new();
                out.push(Access::Print(Message::FeaturesRejected));
                out.push(Access::Write32(m + REG_STATUS, v | VIRTIO_STATUS_FAILED));
                assert(out@ =~= init_transition(*old(dev), phase, read_value).2);
                return InitStep { phase: InitPhase::Done(InitOutcome::FeaturesRejected), accesses: out };
            }
            let mut out = plug_in_queues(dev);
            out.push(Access::Write32(
                m + REG_STATUS,
                VIRTIO_STATUS_ACKNOWLEDGE | VIRTIO_STATUS_DRIVER | VIRTIO_STATUS_FEATURES_OK | VIRTIO_STATUS_DRIVER_OK,
            ));
            let mut notify = notify_rx_queue(dev);
            out.append(&mut notify);
            assert(out@ =~= init_transition(*old(dev), phase, read_value).2);
            InitStep { phase: InitPhase::Done(InitOutcome::Ready), accesses: out }
        },
        InitPhase::Done(o) => InitStep { phase: InitPhase::Done(o), accesses: Vec::new() },
    }
}

/// How many steps at most remain before bringing up a device ends.
pub open spec fn init_steps_left(phase: InitPhase) -> nat {
    match phase {
        InitPhase::Start(_) => 7,
        InitPhase::AwaitMagic(_) => 6,
        InitPhase::AwaitDeviceId(_) => 5,
        InitPhase::AwaitVersion(_) => 4,
        InitPhase::AwaitFeatures0 => 3,
        InitPhase::AwaitFeatures1(_) => 2,
        InitPhase::AwaitStatus => 1,
        InitPhase::Done(_) => 0,
    }
}

/// Bringing up a device ends whatever the device answers: every step before the end
/// moves closer to it, so at most seven steps lead from `Start` to `Done`.
pub proof fn lemma_init_terminates(dev: VirtioNet, phase: InitPhase, v: u64)
    ensures
        !(phase is Done) ==> init_steps_left(init_transition(dev, phase, v).1) < init_steps_left(phase),
        phase is Done ==> init_transition(dev, phase, v).1 == phase,
{
}

/// Bringing up a device checks, one read at a time, the registers a virtio network card
/// answers: the magic value "virt" (0x74726976) at offset 0x00, device id 1 at offset
/// 0x08, and register layout 2 at offset 0x04. Each check goes on only on exactly that
/// answer and otherwise ends the bring-up with nothing written to the device; only a
/// passed layout check makes the base the driver's register base.
pub proof fn lemma_init_identifies_network_card(dev: VirtioNet, base: u32, v: u64)
    ensures
        init_transition(dev, InitPhase::Start(base), v) == (dev.mmio, InitPhase::AwaitMagic(base), seq![
            Access::Read32(base as u64),
        ]),
        init_transition(dev, InitPhase::AwaitMagic(base), v) == (if v % 0x1_0000_0000 == 0x7472_6976 {
            (dev.mmio, InitPhase::AwaitDeviceId(base), seq![Access::Read32((base + 0x08) as u64)])
        } else {
            (dev.mmio, InitPhase::Done(InitOutcome::NotVirtio), Seq::empty())
        }),
        init_transition(dev, InitPhase::AwaitDeviceId(base), v) == (if v % 0x1_0000_0000 == 1 {
            (dev.mmio, InitPhase::AwaitVersion(base), seq![Access::Read32((base + 0x04) as u64)])
        } else {
            (dev.mmio, InitPhase::Done(InitOutcome::NotNetworkCard), seq![Access::Print(Message::NotNetworkCard)])
        }),
        v % 0x1_0000_0000 == 2 ==> ({
            let t = init_transition(dev, InitPhase::AwaitVersion(base), v);
            &&& t.0 == base as u64
            &&& t.1 == InitPhase::AwaitFeatures0
            &&& t.2[0] == Access::Write32((base + 0x70) as u64, 0)
            &&& t.2.last() == Access::Read32((base + 0x10) as u64)
        }),
        v % 0x1_0000_0000 != 2 ==> init_transition(dev, InitPhase::AwaitVersion(base), v) == (
            dev.mmio,
            InitPhase::Done(InitOutcome::UnsupportedVersion),
            Seq::<Access>::empty(),
        ),
{
}

/// Feature negotiation: the driver takes, of the first feature word the device offers,
/// exactly the MAC (bit 5), MRG_RXBUF (bit 15) and STATUS (bit 16) features, writes them
/// back as its own, and goes on only when the second word offers VERSION_1 (bit 0); it
/// marks itself ready only when the status read back keeps FEATURES_OK (bit 3), and
/// otherwise marks the device failed. No step but the layout check moves the register
/// base.
pub proof fn lemma_init_negotiates_features(dev: VirtioNet, phase: InitPhase, f: u32, v: u64)
    requires
        dev.wf(),
    ensures
        !(phase is AwaitVersion) ==> init_transition(dev, phase, v).0 == dev.mmio,
        ({
            let t = init_transition(dev, InitPhase::AwaitFeatures0, v);
            &&& t.1 == InitPhase::AwaitFeatures1((v % 0x1_0000_0000) as u32 & 0x1_8020)
            &&& t.2 == seq![
                Access::Write32((dev.mmio + 0x14) as u64, 1),
                Access::Read32((dev.mmio + 0x10) as u64),
            ]
        }),
        ({
            let t = init_transition(dev, InitPhase::AwaitFeatures1(f), v);
            if (v % 0x1_0000_0000) as u32 & 1 != 0 {
                &&& t.1 == InitPhase::AwaitStatus
                &&& t.2.contains(Access::Write32((dev.mmio + 0x20) as u64, f))
                &&& t.2.last() == Access::Read32((dev.mmio + 0x70) as u64)
            } else {
                &&& t.1 == InitPhase::Done(InitOutcome::NoVersion1)
                &&& t.2.contains(Access::Write32((dev.mmio + 0x70) as u64, 0x80))
            }
        }),
        ({
            let t = init_transition(dev, InitPhase::AwaitStatus, v);
            let st = (v % 0x1_0000_0000) as u32;
            if st & 8 != 0 {
                &&& t.1 == InitPhase::Done(InitOutcome::Ready)
                &&& t.2.contains(Access::Write32((dev.mmio + 0x70) as u64, 15))
            } else {
                &&& t.1 == InitPhase::Done(InitOutcome::FeaturesRejected)
                &&& t.2.contains(Access::Write32((dev.mmio + 0x70) as u64, st | 0x80))
            }
        }),
{
    let t1 = init_transition(dev, InitPhase::AwaitFeatures1(f), v);
    if (v % 0x1_0000_0000) as u32 & 1 != 0 {
        assert(t1.2[1] == Access::Write32((dev.mmio + 0x20) as u64, f));
    } else {
        assert(t1.2[1] == Access::Write32((dev.mmio + 0x70) as u64, 0x80));
    }
    let t2 = init_transition(dev, InitPhase::AwaitStatus, v);
    let st = (v % 0x1_0000_0000) as u32;
    if st & 8 != 0 {
        assert((1u32 | 2u32 | 8u32 | 4u32) == 15u32) by (bit_vector);
        assert(t2.2[plug_in_queues_accesses(dev).len() as int] == Access::Write32((dev.mmio + 0x70) as u64, 15));
    } else {
        assert(t2.2[1] == Access::Write32((dev.mmio + 0x70) as u64, st | 0x80));
    }
}

/// The features the driver takes are among those the device offered in the first
/// feature word, and among MAC, MRG_RXBUF and STATUS.
pub proof fn lemma_driver_features_offered(dev: VirtioNet, v: u64)
    ensures
        init_transition(dev, InitPhase::AwaitFeatures0, v).1 matches InitPhase::AwaitFeatures1(f)
            && f & !low32(v) == 0 && f & !DRIVER_FEATURES_0_MASK == 0,
{
    let x = low32(v);
    assert((x & 0x1_8020u32) & !x == 0) by (bit_vector);
    assert((x & 0x1_8020u32) & !0x1_8020u32 == 0) by (bit_vector);
}

/// The driver marks itself ready (DRIVER_OK) only on the step after the device kept
/// FEATURES_OK set, and that step ends the bring-up as `Ready`; a refusal of the
/// features, or a missing VERSION_1, ends it with the device marked FAILED.
pub proof fn lemma_driver_ok_only_after_features_ok(dev: VirtioNet, phase: InitPhase, v: u64)
    requires
        dev.wf(),
    ensures
        ({
            let t = init_transition(dev, phase, v);
            t.1 == InitPhase::Done(InitOutcome::Ready) && phase != InitPhase::Done(InitOutcome::Ready)
                ==> phase == InitPhase::AwaitStatus && low32(v) & VIRTIO_STATUS_FEATURES_OK != 0
                && t.2.contains(status_write(t.0, 15))
        }),
        phase == InitPhase::AwaitStatus && low32(v) & VIRTIO_STATUS_FEATURES_OK == 0 ==> init_transition(
            dev,
            phase,
            v,
        ).2.contains(status_write(dev.mmio, low32(v) | VIRTIO_STATUS_FAILED)),
        (phase matches InitPhase::AwaitFeatures1(_)) && low32(v) & VIRTIO_F_VERSION_1 == 0 ==> init_transition(
            dev,
            phase,
            v,
        ).2.contains(status_write(dev.mmio, VIRTIO_STATUS_FAILED)),
        phase != InitPhase::AwaitStatus ==> !init_transition(dev, phase, v).2.contains(
            status_write(init_transition(dev, phase, v).0, 15),
        ),
{
    let t = init_transition(dev, phase, v);
    if phase == InitPhase::AwaitStatus && low32(v) & VIRTIO_STATUS_FEATURES_OK != 0 {
        let p = plug_in_queues_accesses(dev);
        assert((1u32 | 2u32 | 8u32 | 4u32) == 15u32) by (bit_vector);
        assert(t.2[p.len() as int] == status_write(t.0, 15));
    }
    if phase == InitPhase::AwaitStatus && low32(v) & VIRTIO_STATUS_FEATURES_OK == 0 {
        assert(t.2[1] == status_write(dev.mmio, low32(v) | VIRTIO_STATUS_FAILED));
    }
    if (phase matches InitPhase::AwaitFeatures1(_)) && low32(v) & VIRTIO_F_VERSION_1 == 0 {
        assert(t.2[1] == status_write(dev.mmio, VIRTIO_STATUS_FAILED));
    }
    if phase != InitPhase::AwaitStatus {
        assert forall|k: int| 0 <= k < t.2.len() implies t.2[k] != status_write(t.0, 15) by {
            assert((1u32 | 2u32) == 3u32) by (bit_vector);
            assert((1u32 | 2u32 | 8u32) == 11u32) by (bit_vector);
        }
    }
}

/// The reads of the device's MAC address, byte by byte, from the register block at the
/// driver's base; with no device brought up that base is 0.
pub open spec fn mac_reads(dev: VirtioNet) -> Seq<Access> {
    Seq::new(6, |i: int| Access::Read8((dev.mmio + REG_MAC_ADDR + i) as u64))
}

/// Reads the device's MAC address, byte by byte, for the ARP request. Like the request
/// itself this does not check that a device was brought up.
pub fn mac_addr_reads(dev: &VirtioNet) -> (r: Vec<Access>)
    requires
        dev.wf(),
    ensures
        r@ == mac_reads(*dev),
{
    let mut out: Vec<Access> = Vec::new();
    let mut i: u64 = 0;
    while i < 6
        invariant
            i <= 6,
            dev.wf(),
            out@ == mac_reads(*dev).subrange(0, i as int),
        decreases 6 - i,
    {
        out.push(Access::Read8(dev.mmio + REG_MAC_ADDR + i));
        i += 1;
        assert(out@ =~= mac_reads(*dev).subrange(0, i as int));
    }
    assert(out@ =~= mac_reads(*dev));
    out
}

/// The next step of showing the device's MAC address, and the accesses of this one.
pub struct MacStep {
    pub next: Option<usize>,
    pub accesses: Vec<Access>,
}

/// The accesses of step `step` (0 to 6) of showing the MAC address on the console: step
/// `k > 0` shows byte `k - 1` (the value `v` its read handed back) in hexadecimal with a
/// colon after it, or a newline after the last; then step `k < 6` reads byte `k`.
/// Nothing while no device was brought up.
pub open spec fn mac_output_step(dev: VirtioNet, step: int, v: u64) -> Seq<Access> {
    if dev.mmio != 0 {
        (if step > 0 {
            seq![Access::PrintHex((v % 256) as u8), Access::PrintByte(if step < 6 { 0x3au8 } else { 0x0au8 })]
        } else {
            Seq::empty()
        }) + (if step < 6 {
            seq![Access::Read8((dev.mmio + REG_MAC_ADDR + step) as u64)]
        } else {
            Seq::empty()
        })
    } else {
        Seq::empty()
    }
}

/// One step of showing the device's MAC address on the console, byte by byte: each byte
/// is read, then shown in hexadecimal followed by a colon (a newline after the last).
/// `read_value` is the value of the read the previous step ended with.
pub fn print_mac_addr(dev: &VirtioNet, step: usize, read_value: u64) -> (r: MacStep)
    requires
        dev.wf(),
        step <= 6,
    ensures
        r.accesses@ == mac_output_step(*dev, step as int, read_value),
        r.next == (if dev.mmio != 0 && step < 6 { Some((step + 1) as usize) } else { None::<usize> }),
{
    let mut out: Vec<Access> = Vec::new();
    if dev.mmio == 0 {
        assert(out@ =~= mac_output_step(*dev, step as int, read_value));
        return MacStep { next: None, accesses: out };
    }
    if step > 0 {
        out.push(Access::PrintHex((read_value % 256) as u8));
        out.push(Access::PrintByte(if step < 6 { 0x3a } else { 0x0a }));
    }
    if step < 6 {
        out.push(Access::Read8(dev.mmio + REG_MAC_ADDR + step as u64));
    }
    assert(out@ =~= mac_output_step(*dev, step as int, read_value));
    MacStep { next: if step < 6 { Some(step + 1) } else { None }, accesses: out }
}

/// The descriptor of the sent frame: transmit buffer 0, holding the whole frame.
pub open spec fn tx_descriptor(dev: VirtioNet) -> VirtqDescriptor {
    VirtqDescriptor { addr: dev.tx_buffers, len: ARP_FRAME_SIZE as u32, flags: 0, next: 0 }
}

/// The first part of sending `frame`: copy it into transmit buffer 0, zero the data up to
/// the minimum frame length, place descriptor 0, and read the available ring's index.
pub open spec fn send_accesses(dev: VirtioNet, frame: ArpFrame) -> Seq<Access> {
    let bytes = arp_frame_bytes(frame);
    let data_len = ARP_FRAME_SIZE - NET_HEADER_SIZE;
    Seq::new(bytes.len(), |k: int| Access::Write8(addr_plus(dev.tx_buffers, k), bytes[k]))
        + Seq::new((MIN_FRAME_LEN - data_len) as nat, |k: int| Access::Write8(addr_plus(dev.tx_buffers, NET_HEADER_SIZE + data_len + k), 0))
        + desc_writes(desc_addr(dev.tx_queue, 0), tx_descriptor(dev))
        + seq![Access::Read16(avail_idx_addr(dev.tx_queue))]
}

/// The second part of sending: offer descriptor 0 in the available ring's slot
/// `idx % 256`, publish index `idx + 1`, and notify the transmit queue; `idx` is the
/// value of the read the first part ended with.
pub open spec fn publish_accesses(dev: VirtioNet, v: u64) -> Seq<Access> {
    let idx = low16(v);
    seq![
        Access::Write16(avail_slot_addr(dev.tx_queue, idx as int % 256), 0),
        Access::Fence,
        Access::Write16(avail_idx_addr(dev.tx_queue), vstd::wrapping::u16_specs::wrapping_add(idx, 1)),
        Access::Fence,
        Access::Write32((dev.mmio + REG_QUEUE_NOTIFY) as u64, 1),
    ]
}

/// Starts sending `data_arp_frame`: copies it into transmit buffer 0, pads it with zeros
/// to the minimum Ethernet frame length, describes it in descriptor 0 and reads the
/// index of the transmit queue's available ring, for `send_packet_publish`.
pub fn send_packet(dev: &VirtioNet, data_arp_frame: &ArpFrame) -> (r: Vec<Access>)
    requires
        dev.wf(),
    ensures
        r@ == send_accesses(*dev, *data_arp_frame),
{
    let tx: u64 = dev.tx_buffers;
    let bytes = data_arp_frame.to_bytes();
    let size_of_frame: usize = ARP_FRAME_SIZE;
    let final_size: usize = size_of_frame - NET_HEADER_SIZE as usize;
    let ghost frame_bytes = arp_frame_bytes(*data_arp_frame);
    proof {
        lemma_arp_frame_len(*data_arp_frame);
    }
    let mut out: Vec<Access> = Vec::new();
    let mut k: usize = 0;
    while k < size_of_frame
        invariant
            k <= size_of_frame,
            size_of_frame == ARP_FRAME_SIZE,
            bytes@ == frame_bytes,
            frame_bytes.len() == ARP_FRAME_SIZE,
            tx == dev.tx_buffers,
            dev.wf(),
            out@ == Seq::new(k as nat, |j: int| Access::Write8(addr_plus(tx, j), frame_bytes[j])),
        decreases size_of_frame - k,
    {
        out.push(Access::Write8(at_offset(tx, k as u64), bytes[k]));
        k += 1;
        assert(out@ =~= Seq::new(k as nat, |j: int| Access::Write8(addr_plus(tx, j), frame_bytes[j])));
    }
    let ghost copied = out@;
    if final_size < MIN_FRAME_LEN {
        let mut i: usize = final_size;
        while i < MIN_FRAME_LEN
            invariant
                final_size <= i <= MIN_FRAME_LEN,
                final_size == ARP_FRAME_SIZE - NET_HEADER_SIZE,
                tx == dev.tx_buffers,
                dev.wf(),
                out@ == copied + Seq::new((i - final_size) as nat, |j: int| Access::Write8(addr_plus(tx, NET_HEADER_SIZE + final_size + j), 0)),
            decreases MIN_FRAME_LEN - i,
        {
            out.push(Access::Write8(at_offset(tx, NET_HEADER_SIZE + i as u64), 0));
            i += 1;
            assert(out@ =~= copied + Seq::new((i - final_size) as nat, |j: int| Access::Write8(addr_plus(tx, NET_HEADER_SIZE + final_size + j), 0)));
        }
    }
    let d = VirtqDescriptor { addr: tx, len: size_of_frame as u32, flags: 0, next: 0 };
    push_desc(&mut out, dev.tx_queue, d);
    out.push(Access::Read16(at_offset(dev.tx_queue, AVAIL_OFFSET + 2)));
    assert(out@ =~= send_accesses(*dev, *data_arp_frame));
    out
}

/// An ARP frame takes 54 bytes in memory.
pub proof fn lemma_arp_frame_len(f: ArpFrame)
    ensures
        arp_frame_bytes(f).len() == ARP_FRAME_SIZE,
{
}

/// Finishes sending: offers descriptor 0 to the device and notifies the transmit queue.
/// `read_value` is the available ring's index that `send_packet` read.
pub fn send_packet_publish(dev: &VirtioNet, read_value: u64) -> (r: Vec<Access>)
    requires
        dev.wf(),
    ensures
        r@ == publish_accesses(*dev, read_value),
{
    let current_idx: u16 = truncate16(read_value);
    let avail_idx: u64 = current_idx as u64 % QUEUE_SIZE as u64;
    let mut out: Vec<Access> = Vec::new();
    out.push(Access::Write16(at_offset(dev.tx_queue, AVAIL_OFFSET + 4 + 2 * avail_idx), 0));
    out.push(Access::Fence);
    out.push(Access::Write16(at_offset(dev.tx_queue, AVAIL_OFFSET + 2), current_idx.wrapping_add(1)));
    out.push(Access::Fence);
    out.push(Access::Write32(dev.mmio + REG_QUEUE_NOTIFY, 1));
    assert(out@ =~= publish_accesses(*dev, read_value));
    out
}

/// Starts sending an ARP request for `target_ip` from `source_mac`, the device's MAC
/// address as read by `mac_addr_reads`; `send_packet_publish` finishes it.
pub fn send_arp_request(dev: &VirtioNet, source_mac: [u8; 6], target_ip: [u8; 4]) -> (r: Vec<Access>)
    requires
        dev.wf(),
    ensures
        r@ == send_accesses(*dev, arp_request(source_mac, target_ip)),
{
    let arp_frame = arp_request_frame(source_mac, target_ip);
    send_packet(dev, &arp_frame)
}

/// Where the handling of received packets stands: which read's value the next step takes,
/// and the descriptor of the packet at hand.
#[derive(PartialEq, Eq, Structural, Clone, Copy, Debug)]
pub enum RxPhase {
    Start,
    /// Waiting for the index of the used ring.
    AwaitUsedIdx,
    /// Waiting for the descriptor id of the next used entry.
    AwaitId,
    /// Waiting for the length of the used entry; holds its descriptor (`id % 256`).
    AwaitLen(u32),
    /// Waiting for the used entry's id as a 16-bit packet id.
    AwaitPacketId(u32),
    /// Waiting for the buffer address of the packet's descriptor.
    AwaitBufferAddr(u32),
    /// Waiting for the Ethernet type field; holds the Ethernet header's address.
    AwaitEtherType(u32, u64),
    /// Waiting for the byte shown for an ARP frame: the low byte of the operation field
    /// of an `ArpFrame` read from the Ethernet header's address, 32 bytes past it.
    AwaitArpOper(u32),
    /// Waiting for the index of the available ring, to give the descriptor back.
    AwaitAvailIdx(u32),
    /// No used entry is left to handle.
    Done,
}

/// The next phase of handling received packets, and the accesses to perform before it;
/// when they end with a read, its value goes to the next step.
pub struct RxStep {
    pub phase: RxPhase,
    pub accesses: Vec<Access>,
}

/// The message and reads that follow the Ethernet type of a received frame, with the
/// new used-ring position where the frame is done with.
pub open spec fn after_ether_type(dev: VirtioNet, d: u32, eth: u64, t: u16) -> (u16, RxPhase, Seq<Access>) {
    let last = dev.last_used_rx_idx;
    let next = vstd::wrapping::u16_specs::wrapping_add(last, 1);
    let read_avail = Access::Read16(avail_idx_addr(dev.rx_queue));
    match packet_type_of(t) {
        PacketType::ARP => (last, RxPhase::AwaitArpOper(d), seq![
            Access::Read8(vstd::wrapping::u64_specs::wrapping_add(eth, 32)),
        ]),
        PacketType::IPv4 => (next, RxPhase::AwaitAvailIdx(d), seq![Access::Print(Message::Ipv4Packet), read_avail]),
        PacketType::IPv6 => (next, RxPhase::AwaitAvailIdx(d), seq![Access::Print(Message::Ipv6Packet), read_avail]),
        PacketType::Unknown => (next, RxPhase::AwaitAvailIdx(d), seq![Access::Print(Message::UnknownPacket), read_avail]),
    }
}

/// A step of handling received packets: the new used-ring position, the next phase and
/// the accesses to perform; `v` is the value of the last read.
pub open spec fn rx_transition(dev: VirtioNet, phase: RxPhase, v: u64) -> (u16, RxPhase, Seq<Access>) {
    let q = dev.rx_queue;
    let last = dev.last_used_rx_idx;
    let r = last as int % 256;
    match phase {
        RxPhase::Start => (last, RxPhase::AwaitUsedIdx, seq![Access::Read16(used_idx_addr(q))]),
        RxPhase::AwaitUsedIdx => if low16(v) == last {
            (last, RxPhase::Done, Seq::empty())
        } else {
            (last, RxPhase::AwaitId, seq![Access::Fence, Access::Read32(used_elem_addr(q, r))])
        },
        RxPhase::AwaitId => (last, RxPhase::AwaitLen(low32(v) % 256), seq![
            Access::Read32(addr_plus(q, USED_OFFSET + 8 + 8 * r)),
        ]),
        RxPhase::AwaitLen(d) => {
            let len = low32(v);
            (last, RxPhase::AwaitPacketId(d), seq![
                Access::Print(Message::PacketReceived),
                Access::PrintHex((len / 256 % 256) as u8),
                Access::PrintHex((len % 256) as u8),
                Access::Print(Message::Newline),
                Access::Read16(used_elem_addr(q, r)),
            ])
        },
        RxPhase::AwaitPacketId(d) => (last, RxPhase::AwaitBufferAddr(d), seq![
            Access::Read64(desc_addr(q, low16(v) as int)),
        ]),
        RxPhase::AwaitBufferAddr(d) => {
            let eth = vstd::wrapping::u64_specs::wrapping_add(v, 12);
            (last, RxPhase::AwaitEtherType(d, eth), seq![
                Access::Read16(vstd::wrapping::u64_specs::wrapping_add(eth, 12)),
            ])
        },
        RxPhase::AwaitEtherType(d, eth) => after_ether_type(dev, d, eth, swap16(low16(v))),
        RxPhase::AwaitArpOper(d) => (vstd::wrapping::u16_specs::wrapping_add(last, 1), RxPhase::AwaitAvailIdx(d), seq![
            Access::Print(Message::ArpPacket),
            Access::PrintHex((v % 256) as u8),
            Access::Print(Message::Newline),
            Access::Read16(avail_idx_addr(q)),
        ]),
        RxPhase::AwaitAvailIdx(d) => {
            let ai = low16(v);
            (last, RxPhase::AwaitUsedIdx, seq![
                Access::Write16(avail_slot_addr(q, ai as int % 256), d as u16),
                Access::Fence,
                Access::Write16(avail_idx_addr(q), vstd::wrapping::u16_specs::wrapping_add(ai, 1)),
                Access::Fence,
                Access::Write32((dev.mmio + REG_QUEUE_NOTIFY) as u64, 0),
                Access::Read16(used_idx_addr(q)),
            ])
        },
        RxPhase::Done => (last, RxPhase::Done, Seq::empty()),
    }
}

/// Builds a vector from the given accesses.
fn accesses1(a: Access) -> (r: Vec<Access>)
    ensures
        r@ == seq![a],
{
    let mut out: Vec<Access> = Vec::new();
    out.push(a);
    assert(out@ =~= seq![a]);
    out
}

/// Builds a vector from the given accesses.
fn accesses2(a: Access, b: Access) -> (r: Vec<Access>)
    ensures
        r@ == seq![a, b],
{
    let mut out: Vec<Access> = Vec::new();
    out.push(a);
    out.push(b);
    assert(out@ =~= seq![a, b]);
    out
}

/// One step of handling the packets the device has received: while the used ring has
/// entries beyond the last one handled, take the next, report its length, find its
/// frame through its descriptor, report the frame's kind (and, for ARP, the byte that
/// `AwaitArpOper` describes), move past the entry and give the descriptor back to the
/// device through the available ring, notifying it. Of the frame, only the fields shown
/// are read. `read_value` is the value of the read the previous step ended with.
pub fn pull_rx(dev: &mut VirtioNet, phase: RxPhase, read_value: u64) -> (r: RxStep)
    requires
        old(dev).wf(),
    ensures
        (final(dev).last_used_rx_idx, r.phase, r.accesses@) == rx_transition(*old(dev), phase, read_value),
        *final(dev) == (VirtioNet { last_used_rx_idx: final(dev).last_used_rx_idx, ..*old(dev) }),
{
    let q = dev.rx_queue;
    let last = dev.last_used_rx_idx;
    let ring_idx: u64 = (last % QUEUE_SIZE as u16) as u64;
    let used_elem: u64 = at_offset(q, USED_OFFSET + 4 + 8 * ring_idx);
    let used_len: u64 = at_offset(q, USED_OFFSET + 8 + 8 * ring_idx);
    match phase {
        RxPhase::Start => RxStep {
            phase: RxPhase::AwaitUsedIdx,
            accesses: accesses1(Access::Read16(at_offset(q, USED_OFFSET + 2))),
        },
        RxPhase::AwaitUsedIdx => {
            let current_used_idx = truncate16(read_value);
            if current_used_idx == last {
                RxStep { phase: RxPhase::Done, accesses: Vec::new() }
            } else {
                RxStep { phase: RxPhase::AwaitId, accesses: accesses2(Access::Fence, Access::Read32(used_elem)) }
            }
        },
        RxPhase::AwaitId => {
            let desc_idx: u32 = truncate32(read_value) % QUEUE_SIZE as u32;
            RxStep { phase: RxPhase::AwaitLen(desc_idx), accesses: accesses1(Access::Read32(used_len)) }
        },
        RxPhase::AwaitLen(d) => {
            let len: u32 = truncate32(read_value);
            let mut out: Vec<Access> = Vec::new();
            out.push(Access::Print(Message::PacketReceived));
            out.push(Access::PrintHex((len / 256 % 256) as u8));
            out.push(Access::PrintHex((len % 256) as u8));
            out.push(Access::Print(Message::Newline));
            out.push(Access::Read16(used_elem));
            assert(out@ =~= rx_transition(*old(dev), phase, read_value).2);
            RxStep { phase: RxPhase::AwaitPacketId(d), accesses: out }
        },
        RxPhase::AwaitPacketId(d) => {
            let packet_id_from_ring: u64 = truncate16(read_value) as u64;
            RxStep {
                phase: RxPhase::AwaitBufferAddr(d),
                accesses: accesses1(Access::Read64(at_offset(q, DESC_SIZE * packet_id_from_ring))),
            }
        },
        RxPhase::AwaitBufferAddr(d) => {
            let eth_addr: u64 = read_value.wrapping_add(NET_HEADER_SIZE);
            RxStep {
                phase: RxPhase::AwaitEtherType(d, eth_addr),
                accesses: accesses1(Access::Read16(eth_addr.wrapping_add(12))),
            }
        },
        RxPhase::AwaitEtherType(d, eth_addr) => {
            let ether_type = from_be16(truncate16(read_value));
            let read_avail = Access::Read16(at_offset(q, AVAIL_OFFSET + 2));
            match identify_packet_type(ether_type) {
                PacketType::ARP => RxStep {
                    phase: RxPhase::AwaitArpOper(d),
                    accesses: accesses1(Access::Read8(eth_addr.wrapping_add(32))),
                },
                PacketType::IPv4 => {
                    dev.last_used_rx_idx = last.wrapping_add(1);
                    RxStep { phase: RxPhase::AwaitAvailIdx(d), accesses: accesses2(Access::Print(Message::Ipv4Packet), read_avail) }
                },
                PacketType::IPv6 => {
                    dev.last_used_rx_idx = last.wrapping_add(1);
                    RxStep { phase: RxPhase::AwaitAvailIdx(d), accesses: accesses2(Access::Print(Message::Ipv6Packet), read_avail) }
                },
                PacketType::Unknown => {
                    dev.last_used_rx_idx = last.wrapping_add(1);
                    RxStep { phase: RxPhase::AwaitAvailIdx(d), accesses: accesses2(Access::Print(Message::UnknownPacket), read_avail) }
                },
            }
        },
        RxPhase::AwaitArpOper(d) => {
            let oper_low: u8 = (read_value % 256) as u8;
            dev.last_used_rx_idx = last.wrapping_add(1);
            let mut out: Vec<Access> = Vec::new();
            out.push(Access::Print(Message::ArpPacket));
            out.push(Access::PrintHex(oper_low));
            out.push(Access::Print(Message::Newline));
            out.push(Access::Read16(at_offset(q, AVAIL_OFFSET + 2)));
            assert(out@ =~= rx_transition(*old(dev), phase, read_value).2);
            RxStep { phase: RxPhase::AwaitAvailIdx(d), accesses: out }
        },
        RxPhase::AwaitAvailIdx(d) => {
            let avail_idx: u16 = truncate16(read_value);
            let ring_avail_idx: u64 = (avail_idx % QUEUE_SIZE as u16) as u64;
            let mut out: Vec<Access> = Vec::new();
            out.push(Access::Write16(at_offset(q, AVAIL_OFFSET + 4 + 2 * ring_avail_idx), d as u16));
            out.push(Access::Fence);
            out.push(Access::Write16(at_offset(q, AVAIL_OFFSET + 2), avail_idx.wrapping_add(1)));
            out.push(Access::Fence);
            out.push(Access::Write32(dev.mmio + REG_QUEUE_NOTIFY, 0));
            out.push(Access::Read16(at_offset(q, USED_OFFSET + 2)));
            assert(out@ =~= rx_transition(*old(dev), phase, read_value).2);
            RxStep { phase: RxPhase::AwaitUsedIdx, accesses: out }
        },
        RxPhase::Done => RxStep { phase: RxPhase::Done, accesses: Vec::new() },
    }
}

/// The descriptor of the received packet at hand, in the phases that hold one.
pub open spec fn rx_desc(phase: RxPhase) -> Option<u32> {
    match phase {
        RxPhase::AwaitLen(d) => Some(d),
        RxPhase::AwaitPacketId(d) => Some(d),
        RxPhase::AwaitBufferAddr(d) => Some(d),
        RxPhase::AwaitEtherType(d, _) => Some(d),
        RxPhase::AwaitArpOper(d) => Some(d),
        RxPhase::AwaitAvailIdx(d) => Some(d),
        _ => None,
    }
}

/// Every received buffer goes back to the device: the descriptor named by the used
/// entry (taken modulo the ring size) is kept through the handling of its packet, then
/// written into the available ring's current slot, the available index is published
/// one further, and the device is notified.
pub proof fn lemma_rx_gives_descriptor_back(dev: VirtioNet, phase: RxPhase, v: u64)
    ensures
        rx_transition(dev, RxPhase::AwaitId, v).1 == RxPhase::AwaitLen(low32(v) % 256),
        rx_desc(phase) is Some && !(phase is AwaitAvailIdx) ==> rx_desc(rx_transition(dev, phase, v).1)
            == rx_desc(phase),
        phase matches RxPhase::AwaitAvailIdx(d) ==> ({
            let t = rx_transition(dev, phase, v);
            &&& t.2[0] == Access::Write16(avail_slot_addr(dev.rx_queue, low16(v) as int % 256), d as u16)
            &&& t.2[1] == Access::Fence
            &&& t.2[2] == Access::Write16(
                avail_idx_addr(dev.rx_queue),
                vstd::wrapping::u16_specs::wrapping_add(low16(v), 1),
            )
            &&& t.2[4] == Access::Write32((dev.mmio + REG_QUEUE_NOTIFY) as u64, 0)
        }),
{
}

/// Handling a received packet reads everything about it from the used-ring entry of the
/// packet at hand, entry `last_used_rx_idx % 256` (8 bytes each, 4 bytes into the used
/// ring at offset 8192 of the receive queue): the descriptor id, then the length at 4
/// bytes further, then the id again as the 16-bit packet id. It stops only once the used
/// index the device published equals the position handled. The packet id selects the
/// descriptor (16 bytes each) whose buffer address is read; the Ethernet header lies 12
/// bytes (the virtio header) into that buffer, and its type field 12 bytes further is
/// read in network byte order: 0x0806 is ARP, 0x0800 IPv4, 0x86DD IPv6. The reported
/// length shows its second and first bytes in hexadecimal.
pub proof fn lemma_rx_reads_packet_at_hand(dev: VirtioNet, d: u32, eth: u64, v: u64)
    ensures
        ({
            let q = dev.rx_queue;
            let last = dev.last_used_rx_idx;
            let entry = vstd::wrapping::u64_specs::wrapping_add(q, (8196 + 8 * (last as int % 256)) as u64);
            let v16 = (v % 0x1_0000) as u16;
            let v32 = (v % 0x1_0000_0000) as u32;
            let ether_type = (v16 as int % 256) * 256 + v16 as int / 256;
            &&& rx_transition(dev, RxPhase::AwaitUsedIdx, v) == (if v16 == last {
                (last, RxPhase::Done, Seq::<Access>::empty())
            } else {
                (last, RxPhase::AwaitId, seq![Access::Fence, Access::Read32(entry)])
            })
            &&& rx_transition(dev, RxPhase::AwaitId, v) == (last, RxPhase::AwaitLen(v32 % 256), seq![
                Access::Read32(vstd::wrapping::u64_specs::wrapping_add(q, (8200 + 8 * (last as int % 256)) as u64)),
            ])
            &&& rx_transition(dev, RxPhase::AwaitLen(d), v).1 == RxPhase::AwaitPacketId(d)
            &&& rx_transition(dev, RxPhase::AwaitLen(d), v).0 == last
            &&& rx_transition(dev, RxPhase::AwaitLen(d), v).2.last() == Access::Read16(entry)
            &&& rx_transition(dev, RxPhase::AwaitLen(d), v).2[1] == Access::PrintHex((v32 / 256 % 256) as u8)
            &&& rx_transition(dev, RxPhase::AwaitLen(d), v).2[2] == Access::PrintHex((v32 % 256) as u8)
            &&& rx_transition(dev, RxPhase::AwaitPacketId(d), v) == (last, RxPhase::AwaitBufferAddr(d), seq![
                Access::Read64(vstd::wrapping::u64_specs::wrapping_add(q, (16 * v16 as int) as u64)),
            ])
            &&& rx_transition(dev, RxPhase::AwaitBufferAddr(d), v).1 == RxPhase::AwaitEtherType(
                d,
                vstd::wrapping::u64_specs::wrapping_add(v, 12),
            )
            &&& rx_transition(dev, RxPhase::AwaitBufferAddr(d), v).2 == seq![
                Access::Read16(vstd::wrapping::u64_specs::wrapping_add(vstd::wrapping::u64_specs::wrapping_add(v, 12), 12)),
            ]
            &&& ether_type == 0x0806 ==> rx_transition(dev, RxPhase::AwaitEtherType(d, eth), v) == (
                last,
                RxPhase::AwaitArpOper(d),
                seq![Access::Read8(vstd::wrapping::u64_specs::wrapping_add(eth, 32))],
            )
            &&& ether_type != 0x0806 ==> rx_transition(dev, RxPhase::AwaitEtherType(d, eth), v).1 == RxPhase::AwaitAvailIdx(d)
            &&& ether_type != 0x0806 ==> rx_transition(dev, RxPhase::AwaitEtherType(d, eth), v).2[0] == Access::Print(
                if ether_type == 0x0800 {
                    Message::Ipv4Packet
                } else if ether_type == 0x86DD {
                    Message::Ipv6Packet
                } else {
                    Message::UnknownPacket
                },
            )
        }),
{
}

/// Only the step that gives a descriptor back writes anything; the others read, fence
/// or print.
pub proof fn lemma_rx_only_give_back_writes(dev: VirtioNet, phase: RxPhase, v: u64)
    ensures
        !(phase is AwaitAvailIdx) ==> forall|k: int| 0 <= k < rx_transition(dev, phase, v).2.len()
            ==> !(#[trigger] rx_transition(dev, phase, v).2[k] is Write8 || rx_transition(dev, phase, v).2[k] is Write16
            || rx_transition(dev, phase, v).2[k] is Write32 || rx_transition(dev, phase, v).2[k] is Write64),
{
}

/// A run of receive steps from `phase` with the driver state `dev`, while the receive
/// queue's available index in memory is `avail`: reads of that index return it (the
/// driver alone writes it), the step that gives a descriptor back stores it one further
/// (see `lemma_rx_gives_descriptor_back`), and every other read returns the next of
/// `reads`. Gives the driver state, the phase and the available index at the end.
pub open spec fn rx_run(dev: VirtioNet, phase: RxPhase, avail: u16, reads: Seq<u64>) -> (VirtioNet, RxPhase, u16)
    decreases reads.len(),
{
    if reads.len() == 0 {
        (dev, phase, avail)
    } else {
        let v = if phase is AwaitAvailIdx { avail as u64 } else { reads[0] };
        let t = rx_transition(dev, phase, v);
        let avail2 = if phase is AwaitAvailIdx { vstd::wrapping::u16_specs::wrapping_add(avail, 1) } else { avail };
        rx_run(VirtioNet { last_used_rx_idx: t.0, ..dev }, t.1, avail2, reads.drop_first())
    }
}

/// How many receive buffers the device holds: those the available index has offered
/// beyond the used-ring position handled, counting the one whose give-back is pending.
pub open spec fn rx_posted(last: u16, phase: RxPhase, avail: u16) -> int {
    (avail as int - last as int + (if phase is AwaitAvailIdx { 1int } else { 0int })) % 0x1_0000
}

/// One receive step keeps the number of buffers the device holds.
pub proof fn lemma_rx_step_keeps_posted(dev: VirtioNet, phase: RxPhase, avail: u16, v0: u64)
    ensures
        ({
            let v = if phase is AwaitAvailIdx { avail as u64 } else { v0 };
            let t = rx_transition(dev, phase, v);
            let avail2 = if phase is AwaitAvailIdx { vstd::wrapping::u16_specs::wrapping_add(avail, 1) } else { avail };
            rx_posted(t.0, t.1, avail2) == rx_posted(dev.last_used_rx_idx, phase, avail)
        }),
{
    let v = if phase is AwaitAvailIdx { avail as u64 } else { v0 };
    let t = rx_transition(dev, phase, v);
    if phase is AwaitAvailIdx {
        assert(low16(avail as u64) == avail);
    }
    lemma_rx_moves_one_entry_at_a_time(dev, phase, v);
    if let RxPhase::AwaitEtherType(d, eth) = phase {
        assert(t.1 is AwaitAvailIdx || t.1 is AwaitArpOper);
    }
}

/// Every buffer the device fills is offered again: over any run of receive steps, the
/// number of buffers the device holds stays what it was (256 after `plug_in_queues`,
/// which publishes available index 256 while the used position is 0).
pub proof fn lemma_rx_keeps_buffers_posted(dev: VirtioNet, phase: RxPhase, avail: u16, reads: Seq<u64>)
    ensures
        ({
            let end = rx_run(dev, phase, avail, reads);
            rx_posted(end.0.last_used_rx_idx, end.1, end.2) == rx_posted(dev.last_used_rx_idx, phase, avail)
        }),
    decreases reads.len(),
{
    if reads.len() > 0 {
        let v = if phase is AwaitAvailIdx { avail as u64 } else { reads[0] };
        let t = rx_transition(dev, phase, v);
        let avail2 = if phase is AwaitAvailIdx { vstd::wrapping::u16_specs::wrapping_add(avail, 1) } else { avail };
        lemma_rx_step_keeps_posted(dev, phase, avail, reads[0]);
        lemma_rx_keeps_buffers_posted(VirtioNet { last_used_rx_idx: t.0, ..dev }, t.1, avail2, reads.drop_first());
    }
}

/// The handling moves along the used ring one entry at a time: a step keeps the
/// position or advances it by one (modulo 2^16) as it finishes a packet, and the
/// handling stops only once the position has caught up with the device's used index.
pub proof fn lemma_rx_moves_one_entry_at_a_time(dev: VirtioNet, phase: RxPhase, v: u64)
    ensures
        ({
            let t = rx_transition(dev, phase, v);
            t.0 == dev.last_used_rx_idx || (t.0 == vstd::wrapping::u16_specs::wrapping_add(
                dev.last_used_rx_idx,
                1,
            ) && t.1 is AwaitAvailIdx)
        }),
        phase is AwaitUsedIdx && rx_transition(dev, phase, v).1 is Done ==> low16(v)
            == dev.last_used_rx_idx,
        phase is AwaitUsedIdx && low16(v) != dev.last_used_rx_idx ==> rx_transition(dev, phase, v).2
            == seq![Access::Fence, Access::Read32(used_elem_addr(dev.rx_queue, dev.last_used_rx_idx as int % 256))],
{
}

} // verus!
