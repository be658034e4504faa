use vstd::prelude::*;
use crate::access::Access;
use crate::utils::{hex_char, hex_digits};
use vstd::string::StringSliceAdditionalSpecFns;

verus! {

/// Offset of the PL011 flag register from the UART's base.
pub const UART_FLAG_OFFSET: u32 = 0x18;

/// Flag-register bit that is set while the receive FIFO is empty.
pub const UART_RX_FIFO_EMPTY: u8 = 0x10;

/// The console UART: its base address, or 0 while none was found.
#[derive(PartialEq, Eq, Structural, Clone, Copy, Debug)]
pub struct Uart {
    pub addr: u32,
}

impl Uart {
    /// A UART not yet set up.
    pub fn new() -> (r: Uart)
        ensures
            r.addr == 0,
    {
        Uart { addr: 0 }
    }
}

/// Sets up the UART at `base_address`.
pub fn init_uart(uart: &mut Uart, base_address: u32)
    ensures
        final(uart).addr == base_address,
{
    uart.addr = base_address;
}

/// The write that sends one byte: a store to the data register, or nothing while
/// the UART is not set up.
pub open spec fn byte_write(uart: Uart, byte: u8) -> Seq<Access> {
    if uart.addr != 0 {
        seq![Access::Write8(uart.addr as u64, byte)]
    } else {
        Seq::empty()
    }
}

/// The writes that send the bytes of `bytes`, one after the other.
pub open spec fn bytes_writes(uart: Uart, bytes: Seq<u8>) -> Seq<Access> {
    if uart.addr != 0 {
        Seq::new(bytes.len(), |i: int| Access::Write8(uart.addr as u64, bytes[i]))
    } else {
        Seq::empty()
    }
}

/// Sending bytes stores each of them, in order and once, into the data register at the
/// UART's base; before the UART is set up nothing is stored.
pub proof fn lemma_bytes_writes_in_order(uart: Uart, bytes: Seq<u8>, b: u8)
    ensures
        uart.addr != 0 ==> bytes_writes(uart, bytes).len() == bytes.len() && forall|i: int|
            0 <= i < bytes.len() ==> #[trigger] bytes_writes(uart, bytes)[i] == Access::Write8(uart.addr as u64, bytes[i]),
        uart.addr == 0 ==> bytes_writes(uart, bytes).len() == 0,
        byte_write(uart, b) == bytes_writes(uart, seq![b]),
{
    assert(byte_write(uart, b) =~= bytes_writes(uart, seq![b]));
}

/// Sends one byte to the console.
pub fn send_byte(uart: &Uart, byte: u8) -> (r: Option<Access>)
    ensures
        r == (if uart.addr != 0 { Some(Access::Write8(uart.addr as u64, byte)) } else { None::<Access> }),
{
    if uart.addr != 0 {
        Some(Access::Write8(uart.addr as u64, byte))
    } else {
        None
    }
}

/// Sends the bytes of `bytes` to the console.
pub fn write_bytes(uart: &Uart, bytes: &[u8]) -> (r: Vec<Access>)
    ensures
        r@ == bytes_writes(*uart, bytes@),
{
    let mut out: Vec<Access> = Vec::new();
    let mut i: usize = 0;
    while i < bytes.len()
        invariant
            i <= bytes@.len(),
            uart.addr != 0 ==> out@ == bytes_writes(*uart, bytes@.subrange(0, i as int)),
            uart.addr == 0 ==> out@ == Seq::<Access>::empty(),
        decreases bytes@.len() - i,
    {
        match send_byte(uart, bytes[i]) {
            Some(a) => out.push(a),
            None => {},
        }
        i += 1;
        assert(uart.addr != 0 ==> out@ =~= bytes_writes(*uart, bytes@.subrange(0, i as int)));
    }
    assert(bytes@.subrange(0, bytes@.len() as int) =~= bytes@);
    if uart.addr == 0 {
        assert(out@ =~= bytes_writes(*uart, bytes@));
    }
    out
}

/// Sends the bytes of `s` to the console, in order; nothing while the UART is not set up.
pub fn write_str(uart: &Uart, s: &str) -> (r: Vec<Access>)
    ensures
        r@ == bytes_writes(*uart, s.spec_bytes()),
{
    write_bytes(uart, s.as_bytes())
}

/// The console writes that show `a`, or `a` itself when it is no console output.
pub open spec fn rendered(uart: Uart, a: Access) -> Seq<Access> {
    match a {
        Access::Print(m) => bytes_writes(uart, m.spec_text_bytes()),
        Access::PrintHex(b) => bytes_writes(uart, seq![hex_char(b as int / 16), hex_char(b as int % 16)]),
        Access::PrintByte(b) => byte_write(uart, b),
        _ => seq![a],
    }
}

/// Turns console output into the UART writes that show it; other accesses stay as they are.
pub fn render(uart: &Uart, a: Access) -> (r: Vec<Access>)
    ensures
        r@ == rendered(*uart, a),
{
    match a {
        Access::Print(m) => write_str(uart, m.text()),
        Access::PrintHex(b) => {
            let digits = hex_digits(b);
            let r = write_bytes(uart, &digits);
            assert(digits@ =~= seq![hex_char(b as int / 16), hex_char(b as int % 16)]);
            r
        },
        Access::PrintByte(b) => {
            let mut out: Vec<Access> = Vec::new();
            match send_byte(uart, b) {
                Some(w) => out.push(w),
                None => {},
            }
            assert(out@ =~= byte_write(*uart, b));
            out
        },
        _ => {
            let mut out: Vec<Access> = Vec::new();
            out.push(a);
            assert(out@ =~= seq![a]);
            out
        },
    }
}

/// What `uart_getc` is told: that it starts, or the value a read handed back.
#[derive(PartialEq, Eq, Structural, Clone, Copy, Debug)]
pub enum GetcEvent {
    Start,
    FlagRead(u8),
    DataRead(u8),
}

/// What `uart_getc` asks for next: a read of the flag or data register, or to return a byte.
#[derive(PartialEq, Eq, Structural, Clone, Copy, Debug)]
pub enum GetcStep {
    ReadFlag(u64),
    ReadData(u64),
    Return(u8),
}

/// The next step of reading a byte from the console: poll the flag register while the
/// receive FIFO is empty, then read the data register; 0 while the UART is not set up.
pub open spec fn getc_step(uart: Uart, event: GetcEvent) -> GetcStep {
    if uart.addr == 0 {
        GetcStep::Return(0)
    } else {
        match event {
            GetcEvent::Start => GetcStep::ReadFlag((uart.addr + UART_FLAG_OFFSET) as u64),
            GetcEvent::FlagRead(f) => if f & UART_RX_FIFO_EMPTY != 0 {
                GetcStep::ReadFlag((uart.addr + UART_FLAG_OFFSET) as u64)
            } else {
                GetcStep::ReadData(uart.addr as u64)
            },
            GetcEvent::DataRead(b) => GetcStep::Return(b),
        }
    }
}

/// Reading a byte polls the PL011 flag register (at offset 0x18) for as long as,
/// and only as long as, its receive-FIFO-empty bit (0x10) is set, whatever the other
/// flag bits; then it reads the data register at the UART's base and returns that byte.
/// With no UART set up it returns 0 at once.
pub proof fn lemma_getc_polls_while_rx_empty(uart: Uart, f: u8, b: u8)
    ensures
        uart.addr == 0 ==> getc_step(uart, GetcEvent::Start) == GetcStep::Return(0)
            && getc_step(uart, GetcEvent::FlagRead(f)) == GetcStep::Return(0)
            && getc_step(uart, GetcEvent::DataRead(b)) == GetcStep::Return(0),
        uart.addr != 0 ==> getc_step(uart, GetcEvent::Start) == GetcStep::ReadFlag((uart.addr + 0x18) as u64),
        uart.addr != 0 ==> getc_step(uart, GetcEvent::FlagRead(f)) == (if f & 0x10 != 0 {
            GetcStep::ReadFlag((uart.addr + 0x18) as u64)
        } else {
            GetcStep::ReadData(uart.addr as u64)
        }),
        uart.addr != 0 ==> getc_step(uart, GetcEvent::DataRead(b)) == GetcStep::Return(b),
{
}

/// One step of reading a byte from the console.
pub fn uart_getc(uart: &Uart, event: GetcEvent) -> (r: GetcStep)
    requires
        uart.addr <= u32::MAX - UART_FLAG_OFFSET,
    ensures
        r == getc_step(*uart, event),
{
    if uart.addr == 0 {
        return GetcStep::Return(0);
    }
    let flag_reg: u32 = uart.addr + UART_FLAG_OFFSET;
    match event {
        GetcEvent::Start => GetcStep::ReadFlag(flag_reg as u64),
        GetcEvent::FlagRead(f) => {
            if f & UART_RX_FIFO_EMPTY != 0 {
                GetcStep::ReadFlag(flag_reg as u64)
            } else {
                GetcStep::ReadData(uart.addr as u64)
            }
        },
        GetcEvent::DataRead(b) => GetcStep::Return(b),
    }
}

} // verus!
