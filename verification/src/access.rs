use vstd::prelude::*;

verus! {

/// The fixed console messages of the kernel.
#[derive(PartialEq, Eq, Structural, Clone, Copy, Debug)]
pub enum Message {
    VirtioFound,
    VirtioNotFound,
    NotNetworkCard,
    NoVersion1,
    FeaturesRejected,
    PacketReceived,
    Newline,
    ArpPacket,
    Ipv4Packet,
    Ipv6Packet,
    UnknownPacket,
}

impl Message {
    /// The text of the message.
    pub open spec fn spec_text(self) -> Seq<char> {
        match self {
            Message::VirtioFound => "Virtio network device found!\n"@,
            Message::VirtioNotFound => "No Virtio network device found.\n"@,
            Message::NotNetworkCard => "Device is not a network card!\n"@,
            Message::NoVersion1 => "Device does not support VIRTIO_F_VERSION_1!\n"@,
            Message::FeaturesRejected => "FEATURES_OK rejected by device!\n"@,
            Message::PacketReceived => "\nPacket Received! Length: "@,
            Message::Newline => "\n"@,
            Message::ArpPacket => "ARP Packet: "@,
            Message::Ipv4Packet => "IPv4 Packet\n"@,
            Message::Ipv6Packet => "IPv6 Packet\n"@,
            Message::UnknownPacket => "Unknown Packet Type\n"@,
        }
    }

    /// The bytes of the message's text.
    pub open spec fn spec_text_bytes(self) -> Seq<u8> {
        vstd::utf8::encode_utf8(self.spec_text())
    }

    /// The text of the message.
    pub fn text(&self) -> (r: &'static str)
        ensures
            r@ == self.spec_text(),
    {
        match self {
            Message::VirtioFound => "Virtio network device found!\n",
            Message::VirtioNotFound => "No Virtio network device found.\n",
            Message::NotNetworkCard => "Device is not a network card!\n",
            Message::NoVersion1 => "Device does not support VIRTIO_F_VERSION_1!\n",
            Message::FeaturesRejected => "FEATURES_OK rejected by device!\n",
            Message::PacketReceived => "\nPacket Received! Length: ",
            Message::Newline => "\n",
            Message::ArpPacket => "ARP Packet: ",
            Message::Ipv4Packet => "IPv4 Packet\n",
            Message::Ipv6Packet => "IPv6 Packet\n",
            Message::UnknownPacket => "Unknown Packet Type\n",
        }
    }
}

/// One access of the kernel to memory, to a device or to the console, at a physical
/// address. Values wider than a byte are stored little-endian, the byte order of the
/// machine and of virtio. A read's value is handed back to the step that asked for it.
#[derive(PartialEq, Eq, Structural, Clone, Copy, Debug)]
pub enum Access {
    Read8(u64),
    Read16(u64),
    Read32(u64),
    Read64(u64),
    Write8(u64, u8),
    Write16(u64, u16),
    Write32(u64, u32),
    Write64(u64, u64),
    /// A full memory fence: no access moves across it.
    Fence,
    /// Show a message on the console.
    Print(Message),
    /// Show a byte on the console as two hexadecimal digits.
    PrintHex(u8),
    /// Show one raw byte on the console.
    PrintByte(u8),
}

/// The low 16 bits of a value that a 16-bit read handed back.
pub open spec fn low16(v: u64) -> u16 {
    (v % 0x1_0000) as u16
}

/// The low 32 bits of a value that a 32-bit read handed back.
pub open spec fn low32(v: u64) -> u32 {
    (v % 0x1_0000_0000) as u32
}

/// The low 16 bits of `v`.
pub fn truncate16(v: u64) -> (r: u16)
    ensures
        r == low16(v),
{
    (v % 0x1_0000) as u16
}

/// The low 32 bits of `v`.
pub fn truncate32(v: u64) -> (r: u32)
    ensures
        r == low32(v),
{
    (v % 0x1_0000_0000) as u32
}

} // verus!
