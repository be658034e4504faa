use lib::access::{Access, Message};
use lib::uart::{init_uart, render, send_byte, uart_getc, write_str, GetcEvent, GetcStep, Uart};

#[test]
fn write_str_before_setup_sends_nothing() {
    let u = Uart::new();
    assert_eq!(write_str(&u, "hello"), vec![]);
    assert_eq!(send_byte(&u, b'x'), None);
}

#[test]
fn write_str_sends_each_byte_in_order() {
    let mut u = Uart::new();
    init_uart(&mut u, 0x0900_0000);
    assert_eq!(u.addr, 0x0900_0000);
    assert_eq!(
        write_str(&u, "Hi\n"),
        vec![
            Access::Write8(0x0900_0000, b'H'),
            Access::Write8(0x0900_0000, b'i'),
            Access::Write8(0x0900_0000, b'\n'),
        ]
    );
    assert_eq!(send_byte(&u, 0x41), Some(Access::Write8(0x0900_0000, 0x41)));
}

#[test]
fn render_console_output() {
    let mut u = Uart::new();
    init_uart(&mut u, 0x1000);
    assert_eq!(render(&u, Access::PrintHex(0x3c)), vec![Access::Write8(0x1000, b'3'), Access::Write8(0x1000, b'c')]);
    assert_eq!(render(&u, Access::PrintByte(b':')), vec![Access::Write8(0x1000, b':')]);
    let text = render(&u, Access::Print(Message::Ipv4Packet));
    let bytes: Vec<u8> = text
        .iter()
        .map(|a| match a {
            Access::Write8(0x1000, b) => *b,
            _ => panic!("unexpected access"),
        })
        .collect();
    assert_eq!(bytes, b"IPv4 Packet\n".to_vec());
    assert_eq!(render(&u, Access::Fence), vec![Access::Fence]);
    assert_eq!(render(&u, Access::Read32(8)), vec![Access::Read32(8)]);
}

#[test]
fn message_texts() {
    assert_eq!(Message::PacketReceived.text(), "\nPacket Received! Length: ");
    assert_eq!(Message::NotNetworkCard.text(), "Device is not a network card!\n");
    assert_eq!(Message::VirtioNotFound.text(), "No Virtio network device found.\n");
}

#[test]
fn getc_polls_until_data() {
    let u = Uart::new();
    assert_eq!(uart_getc(&u, GetcEvent::Start), GetcStep::Return(0));
    let mut u = Uart::new();
    init_uart(&mut u, 0x0900_0000);
    assert_eq!(uart_getc(&u, GetcEvent::Start), GetcStep::ReadFlag(0x0900_0018));
    assert_eq!(uart_getc(&u, GetcEvent::FlagRead(0x10)), GetcStep::ReadFlag(0x0900_0018));
    assert_eq!(uart_getc(&u, GetcEvent::FlagRead(0x90)), GetcStep::ReadFlag(0x0900_0018));
    assert_eq!(uart_getc(&u, GetcEvent::FlagRead(0x80)), GetcStep::ReadData(0x0900_0000));
    assert_eq!(uart_getc(&u, GetcEvent::DataRead(b'q')), GetcStep::Return(b'q'));
}
