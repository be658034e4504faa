use lib::access::{Access, Message};
use lib::bytes::{from_be16, to_be16};
use lib::virtio::{
    arp_request_frame, found_message, get_tx_reported, get_tx_used, identify_packet_type, init_virtio,
    mac_addr_reads, notify_rx_queue, plug_in_queues, print_mac_addr, pull_rx, send_arp_request,
    send_packet_publish, set_tx_reported, virtio_net_found, InitOutcome, InitPhase, PacketType, RxPhase,
    VirtioNet,
};

const RXQ: u64 = 0x4010_0000;
const TXQ: u64 = 0x4010_4000;
const RXB: u64 = 0x4020_0000;
const TXB: u64 = 0x4030_0000;
const BASE: u32 = 0x0a00_0000;

fn driver() -> VirtioNet {
    VirtioNet::new(RXQ, TXQ, RXB, TXB).unwrap()
}

fn running_driver() -> VirtioNet {
    let mut d = driver();
    d.mmio = BASE as u64;
    d
}

#[test]
fn new_driver_rejects_misaligned_queues() {
    assert!(VirtioNet::new(u64::MAX, TXQ, RXB, TXB).is_none());
    assert!(VirtioNet::new(0xffff_ffff_ffff_f000, TXQ, u64::MAX, TXB).is_some());
    assert!(VirtioNet::new(RXQ + 1, TXQ, RXB, TXB).is_none());
    assert!(VirtioNet::new(RXQ, TXQ + 0x800, RXB, TXB).is_none());
    assert!(VirtioNet::new(RXQ, TXQ, RXB + 3, TXB + 5).is_some());
    let d = driver();
    assert_eq!(d.mmio, 0);
    assert_eq!(d.last_used_rx_idx, 0);
    assert!(!virtio_net_found(&d));
    assert_eq!(found_message(&d), Message::VirtioNotFound);
    assert_eq!(found_message(&running_driver()), Message::VirtioFound);
}

#[test]
fn packet_types() {
    assert_eq!(identify_packet_type(0x0806), PacketType::ARP);
    assert_eq!(identify_packet_type(0x0800), PacketType::IPv4);
    assert_eq!(identify_packet_type(0x86DD), PacketType::IPv6);
    assert_eq!(identify_packet_type(0x0608), PacketType::Unknown);
    assert_eq!(identify_packet_type(0), PacketType::Unknown);
}

#[test]
fn big_endian_conversion() {
    assert_eq!(to_be16(0x0806), 0x0608);
    assert_eq!(from_be16(to_be16(0x86DD)), 0x86DD);
    assert_eq!(from_be16(0x0001), 0x0100);
}

#[test]
fn arp_request_wire_bytes() {
    let mac = [0x52, 0x54, 0x00, 0x12, 0x34, 0x56];
    let f = arp_request_frame(mac, [10, 0, 2, 2]);
    let bytes = f.to_bytes();
    let mut expected = vec![0u8; 12];
    expected.extend_from_slice(&[0xff; 6]);
    expected.extend_from_slice(&mac);
    expected.extend_from_slice(&[0x08, 0x06, 0x00, 0x01, 0x08, 0x00, 0x06, 0x04, 0x00, 0x01]);
    expected.extend_from_slice(&mac);
    expected.extend_from_slice(&[10, 0, 2, 15]);
    expected.extend_from_slice(&[0; 6]);
    expected.extend_from_slice(&[10, 0, 2, 2]);
    assert_eq!(bytes, expected);
    assert_eq!(bytes.len(), 54);
}

#[test]
fn tx_reported_flag() {
    let mut d = driver();
    assert!(!get_tx_reported(&d));
    set_tx_reported(&mut d);
    assert!(get_tx_reported(&d));
    assert_eq!(get_tx_used(&d), Access::Read16(TXQ + 8194));
}

#[test]
fn init_happy_path() {
    let mut d = driver();
    let s = init_virtio(&mut d, InitPhase::Start(BASE), 0);
    assert_eq!(s.phase, InitPhase::AwaitMagic(BASE));
    assert_eq!(s.accesses, vec![Access::Read32(0x0a00_0000)]);
    let s = init_virtio(&mut d, s.phase, 0x7472_6976);
    assert_eq!(s.accesses, vec![Access::Read32(0x0a00_0008)]);
    let s = init_virtio(&mut d, s.phase, 1);
    assert_eq!(s.accesses, vec![Access::Read32(0x0a00_0004)]);
    assert_eq!(d.mmio, 0);
    let s = init_virtio(&mut d, s.phase, 2);
    assert_eq!(d.mmio, 0x0a00_0000);
    assert_eq!(s.phase, InitPhase::AwaitFeatures0);
    assert_eq!(
        s.accesses,
        vec![
            Access::Write32(0x0a00_0070, 0),
            Access::Write32(0x0a00_0070, 1),
            Access::Write32(0x0a00_0070, 3),
            Access::Write32(0x0a00_0014, 0),
            Access::Read32(0x0a00_0010),
        ]
    );
    let s = init_virtio(&mut d, s.phase, 0xffff_ffff);
    assert_eq!(s.phase, InitPhase::AwaitFeatures1(0x1_8020));
    assert_eq!(s.accesses, vec![Access::Write32(0x0a00_0014, 1), Access::Read32(0x0a00_0010)]);
    let s = init_virtio(&mut d, s.phase, 0x0000_0003);
    assert_eq!(s.phase, InitPhase::AwaitStatus);
    assert_eq!(
        s.accesses,
        vec![
            Access::Write32(0x0a00_0024, 0),
            Access::Write32(0x0a00_0020, 0x1_8020),
            Access::Write32(0x0a00_0024, 1),
            Access::Write32(0x0a00_0020, 1),
            Access::Write32(0x0a00_0070, 11),
            Access::Read32(0x0a00_0070),
        ]
    );
    let s = init_virtio(&mut d, s.phase, 11);
    assert_eq!(s.phase, InitPhase::Done(InitOutcome::Ready));
    assert_eq!(s.accesses.len(), 18 + 1280 + 2 + 1 + 2);
    assert_eq!(s.accesses[1300], Access::Write32(0x0a00_0070, 15));
    assert_eq!(s.accesses[1301], Access::Fence);
    assert_eq!(s.accesses[1302], Access::Write32(0x0a00_0050, 0));
    assert!(virtio_net_found(&d));
}

#[test]
fn init_features_taken_are_offered() {
    let mut d = running_driver();
    let s = init_virtio(&mut d, InitPhase::AwaitFeatures0, 0x0000_8021);
    assert_eq!(s.phase, InitPhase::AwaitFeatures1(0x8020));
}

#[test]
fn init_failures() {
    let mut d = driver();
    let s = init_virtio(&mut d, InitPhase::AwaitMagic(BASE), 0x1234);
    assert_eq!(s.phase, InitPhase::Done(InitOutcome::NotVirtio));
    assert_eq!(s.accesses, vec![]);
    let s = init_virtio(&mut d, InitPhase::AwaitDeviceId(BASE), 2);
    assert_eq!(s.phase, InitPhase::Done(InitOutcome::NotNetworkCard));
    assert_eq!(s.accesses, vec![Access::Print(Message::NotNetworkCard)]);
    let s = init_virtio(&mut d, InitPhase::AwaitVersion(BASE), 1);
    assert_eq!(s.phase, InitPhase::Done(InitOutcome::UnsupportedVersion));
    assert_eq!(d.mmio, 0);
    let mut d = running_driver();
    let s = init_virtio(&mut d, InitPhase::AwaitFeatures1(0x20), 0x2);
    assert_eq!(s.phase, InitPhase::Done(InitOutcome::NoVersion1));
    assert_eq!(s.accesses, vec![Access::Print(Message::NoVersion1), Access::Write32(0x0a00_0070, 128)]);
    let s = init_virtio(&mut d, InitPhase::AwaitStatus, 0x3);
    assert_eq!(s.phase, InitPhase::Done(InitOutcome::FeaturesRejected));
    assert_eq!(s.accesses, vec![Access::Print(Message::FeaturesRejected), Access::Write32(0x0a00_0070, 0x83)]);
    let s = init_virtio(&mut d, InitPhase::Done(InitOutcome::Ready), 0);
    assert_eq!(s.phase, InitPhase::Done(InitOutcome::Ready));
    assert_eq!(s.accesses, vec![]);
}

#[test]
fn plug_in_queues_layout() {
    let d = running_driver();
    let a = plug_in_queues(&d);
    assert_eq!(a.len(), 1300);
    assert_eq!(a[0], Access::Write32(0x0a00_0030, 0));
    assert_eq!(a[1], Access::Write32(0x0a00_0038, 256));
    assert_eq!(a[2], Access::Write32(0x0a00_0080, RXQ as u32));
    assert_eq!(a[4], Access::Write32(0x0a00_0090, (RXQ + 4096) as u32));
    assert_eq!(a[6], Access::Write32(0x0a00_00a0, (RXQ + 8192) as u32));
    assert_eq!(a[8], Access::Write32(0x0a00_0044, 1));
    assert_eq!(a[9], Access::Write32(0x0a00_0030, 1));
    assert_eq!(a[11], Access::Write32(0x0a00_0080, TXQ as u32));
    // Descriptor 3: buffer 3 of 1526 bytes, device-writable, then its ring slot.
    let k = 18 + 5 * 3;
    assert_eq!(a[k], Access::Write64(RXQ + 48, RXB + 3 * 1526));
    assert_eq!(a[k + 1], Access::Write32(RXQ + 56, 1526));
    assert_eq!(a[k + 2], Access::Write16(RXQ + 60, 2));
    assert_eq!(a[k + 3], Access::Write16(RXQ + 62, 0));
    assert_eq!(a[k + 4], Access::Write16(RXQ + 4096 + 4 + 6, 3));
    assert_eq!(a[18 + 5 * 255 + 4], Access::Write16(RXQ + 4096 + 4 + 510, 255));
    assert_eq!(a[1298], Access::Fence);
    assert_eq!(a[1299], Access::Write16(RXQ + 4098, 256));
    assert_eq!(notify_rx_queue(&d), vec![Access::Fence, Access::Write32(0x0a00_0050, 0)]);
}

#[test]
fn send_arp_request_then_publish() {
    let d = running_driver();
    let mac = [1, 2, 3, 4, 5, 6];
    let a = send_arp_request(&d, mac, [10, 0, 2, 2]);
    let frame = arp_request_frame(mac, [10, 0, 2, 2]).to_bytes();
    assert_eq!(a.len(), 54 + 18 + 4 + 1);
    for k in 0..54 {
        assert_eq!(a[k], Access::Write8(TXB + k as u64, frame[k]));
    }
    for k in 0..18 {
        assert_eq!(a[54 + k], Access::Write8(TXB + 54 + k as u64, 0));
    }
    assert_eq!(a[72], Access::Write64(TXQ, TXB));
    assert_eq!(a[73], Access::Write32(TXQ + 8, 54));
    assert_eq!(a[74], Access::Write16(TXQ + 12, 0));
    assert_eq!(a[75], Access::Write16(TXQ + 14, 0));
    assert_eq!(a[76], Access::Read16(TXQ + 4098));
    assert_eq!(
        send_packet_publish(&d, 300),
        vec![
            Access::Write16(TXQ + 4096 + 4 + 2 * 44, 0),
            Access::Fence,
            Access::Write16(TXQ + 4098, 301),
            Access::Fence,
            Access::Write32(0x0a00_0050, 1),
        ]
    );
    let p = send_packet_publish(&d, 0xffff);
    assert_eq!(p[0], Access::Write16(TXQ + 4096 + 4 + 2 * 255, 0));
    assert_eq!(p[2], Access::Write16(TXQ + 4098, 0));
}

#[test]
fn mac_address_output() {
    let d = running_driver();
    assert_eq!(mac_addr_reads(&d)[0], Access::Read8(0x0a00_0100));
    assert_eq!(mac_addr_reads(&d)[5], Access::Read8(0x0a00_0105));
    // The ARP request reads the MAC address even with no device, from base 0.
    assert_eq!(mac_addr_reads(&driver())[0], Access::Read8(0x100));
    let mac = [0x52u64, 0x54, 0, 0x12, 0x34, 0x56];
    let s = print_mac_addr(&d, 0, 0);
    assert_eq!(s.accesses, vec![Access::Read8(0x0a00_0100)]);
    assert_eq!(s.next, Some(1));
    let s = print_mac_addr(&d, 1, mac[0]);
    assert_eq!(s.accesses, vec![Access::PrintHex(0x52), Access::PrintByte(b':'), Access::Read8(0x0a00_0101)]);
    assert_eq!(s.next, Some(2));
    let s = print_mac_addr(&d, 5, mac[4]);
    assert_eq!(s.accesses, vec![Access::PrintHex(0x34), Access::PrintByte(b':'), Access::Read8(0x0a00_0105)]);
    let s = print_mac_addr(&d, 6, mac[5]);
    assert_eq!(s.accesses, vec![Access::PrintHex(0x56), Access::PrintByte(b'\n')]);
    assert_eq!(s.next, None);
    let s = print_mac_addr(&driver(), 0, 0);
    assert_eq!(s.accesses, vec![]);
    assert_eq!(s.next, None);
}

#[test]
fn addresses_wrap_at_the_top_of_memory() {
    let mut d = VirtioNet::new(0xffff_ffff_ffff_f000, TXQ, 0xffff_ffff_ffff_ff00, TXB).unwrap();
    d.mmio = BASE as u64;
    let a = plug_in_queues(&d);
    assert_eq!(a[2], Access::Write32(0x0a00_0080, 0xffff_f000));
    assert_eq!(a[4], Access::Write32(0x0a00_0090, 0));
    assert_eq!(a[6], Access::Write32(0x0a00_00a0, 0x1000));
    assert_eq!(a[18], Access::Write64(0xffff_ffff_ffff_f000, 0xffff_ffff_ffff_ff00));
    assert_eq!(a[18 + 5], Access::Write64(0xffff_ffff_ffff_f010, 0xffff_ffff_ffff_ff00u64.wrapping_add(1526)));
    assert_eq!(a[18 + 4], Access::Write16(4, 0));
    assert_eq!(a[1299], Access::Write16(2, 256));
}

#[test]
fn pull_rx_handles_one_arp_packet() {
    let mut d = running_driver();
    let s = pull_rx(&mut d, RxPhase::Start, 0);
    assert_eq!(s.accesses, vec![Access::Read16(RXQ + 8194)]);
    let s = pull_rx(&mut d, s.phase, 1);
    assert_eq!(s.accesses, vec![Access::Fence, Access::Read32(RXQ + 8196)]);
    let s = pull_rx(&mut d, s.phase, 5);
    assert_eq!(s.phase, RxPhase::AwaitLen(5));
    assert_eq!(s.accesses, vec![Access::Read32(RXQ + 8200)]);
    let s = pull_rx(&mut d, s.phase, 0x13c);
    assert_eq!(
        s.accesses,
        vec![
            Access::Print(Message::PacketReceived),
            Access::PrintHex(0x01),
            Access::PrintHex(0x3c),
            Access::Print(Message::Newline),
            Access::Read16(RXQ + 8196),
        ]
    );
    let s = pull_rx(&mut d, s.phase, 5);
    assert_eq!(s.accesses, vec![Access::Read64(RXQ + 80)]);
    let buf = RXB + 5 * 1526;
    let s = pull_rx(&mut d, s.phase, buf);
    assert_eq!(s.phase, RxPhase::AwaitEtherType(5, buf + 12));
    assert_eq!(s.accesses, vec![Access::Read16(buf + 24)]);
    let s = pull_rx(&mut d, s.phase, 0x0608);
    assert_eq!(s.accesses, vec![Access::Read8(buf + 44)]);
    assert_eq!(d.last_used_rx_idx, 0);
    let s = pull_rx(&mut d, s.phase, 0x0001);
    assert_eq!(d.last_used_rx_idx, 1);
    assert_eq!(
        s.accesses,
        vec![
            Access::Print(Message::ArpPacket),
            Access::PrintHex(1),
            Access::Print(Message::Newline),
            Access::Read16(RXQ + 4098),
        ]
    );
    let s = pull_rx(&mut d, s.phase, 256);
    assert_eq!(
        s.accesses,
        vec![
            Access::Write16(RXQ + 4100, 5),
            Access::Fence,
            Access::Write16(RXQ + 4098, 257),
            Access::Fence,
            Access::Write32(0x0a00_0050, 0),
            Access::Read16(RXQ + 8194),
        ]
    );
    let s = pull_rx(&mut d, s.phase, 1);
    assert_eq!(s.phase, RxPhase::Done);
    assert_eq!(s.accesses, vec![]);
}

#[test]
fn pull_rx_other_kinds_and_wrapping() {
    let mut d = running_driver();
    d.last_used_rx_idx = 0xffff;
    let s = pull_rx(&mut d, RxPhase::AwaitUsedIdx, 0);
    assert_eq!(s.accesses, vec![Access::Fence, Access::Read32(RXQ + 8196 + 8 * 255)]);
    let s = pull_rx(&mut d, RxPhase::AwaitId, 0x1_0007);
    assert_eq!(s.phase, RxPhase::AwaitLen(7));
    let s = pull_rx(&mut d, RxPhase::AwaitEtherType(7, 0x1000), 0x0008);
    assert_eq!(s.accesses, vec![Access::Print(Message::Ipv4Packet), Access::Read16(RXQ + 4098)]);
    assert_eq!(d.last_used_rx_idx, 0);
    let s = pull_rx(&mut d, RxPhase::AwaitEtherType(7, 0x1000), 0xdd86);
    assert_eq!(s.accesses[0], Access::Print(Message::Ipv6Packet));
    let s = pull_rx(&mut d, RxPhase::AwaitEtherType(7, 0x1000), 0x1234);
    assert_eq!(s.accesses[0], Access::Print(Message::UnknownPacket));
    assert_eq!(s.phase, RxPhase::AwaitAvailIdx(7));
    let s = pull_rx(&mut d, s.phase, 0xffff);
    assert_eq!(s.accesses[0], Access::Write16(RXQ + 4100 + 510, 7));
    assert_eq!(s.accesses[2], Access::Write16(RXQ + 4098, 0));
}

#[test]
fn init_ends_within_seven_steps_whatever_the_answers() {
    for answers in [[0u64; 7], [0x7472_6976, 1, 2, 0, 1, 8, 0], [0x7472_6976, 1, 2, 0xffff, 0, 0, 0], [0x7472_6976, 3, 0, 0, 0, 0, 0]] {
        let mut d = driver();
        let mut phase = InitPhase::Start(BASE);
        let mut value = 0;
        let mut steps = 0;
        loop {
            let s = init_virtio(&mut d, phase, value);
            steps += 1;
            if let InitPhase::Done(_) = s.phase {
                break;
            }
            value = answers[steps - 1];
            phase = s.phase;
        }
        assert!(steps <= 7);
    }
}

#[test]
fn rx_buffers_do_not_overlap() {
    let d = running_driver();
    let a = plug_in_queues(&d);
    let mut addrs = Vec::new();
    for i in 0..256 {
        match (a[18 + 5 * i], a[18 + 5 * i + 1]) {
            (Access::Write64(_, addr), Access::Write32(_, len)) => addrs.push((addr, len as u64)),
            _ => panic!("descriptor stores expected"),
        }
    }
    for w in addrs.windows(2) {
        assert!(w[0].0 + w[0].1 <= w[1].0);
    }
}

#[test]
fn rx_run_keeps_256_buffers_posted() {
    // Memory model: the driver alone writes the available index.
    let mut d = running_driver();
    let mut avail: u16 = 256;
    let mut phase = RxPhase::Start;
    let answers = [2u64, 3, 60, 3, RXB + 3 * 1526, 0x0008, 2, 4, 100, 4, RXB + 4 * 1526, 0x0608, 1];
    let mut next = 0;
    loop {
        let v = if let RxPhase::AwaitAvailIdx(_) = phase {
            avail as u64
        } else if next < answers.len() {
            next += 1;
            answers[next - 1]
        } else {
            2
        };
        let was_give_back = matches!(phase, RxPhase::AwaitAvailIdx(_));
        let s = pull_rx(&mut d, phase, v);
        if was_give_back {
            assert_eq!(s.accesses[2], Access::Write16(RXQ + 4098, avail.wrapping_add(1)));
            avail = avail.wrapping_add(1);
            assert_eq!(avail.wrapping_sub(d.last_used_rx_idx), 256);
        }
        if s.phase == RxPhase::Done {
            break;
        }
        phase = s.phase;
    }
    assert_eq!(d.last_used_rx_idx, 2);
    assert_eq!(avail, 258);
}
