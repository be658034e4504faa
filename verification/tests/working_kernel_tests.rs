use lib::utils::FdtToken;
use lib::access::Access;
use lib::working_kernel::{parse_token, select_dtb_address, uart_greeting, uart_probe_address};

fn push_word(out: &mut Vec<u8>, v: u32) {
    out.extend_from_slice(&v.to_be_bytes());
}

fn pad4(out: &mut Vec<u8>) {
    while out.len() % 4 != 0 {
        out.push(0);
    }
}

fn begin_node(st: &mut Vec<u8>, name: &str) {
    push_word(st, 1);
    st.extend_from_slice(name.as_bytes());
    st.push(0);
    pad4(st);
}

fn prop(st: &mut Vec<u8>, name_off: u32, value: &[u8]) {
    push_word(st, 3);
    push_word(st, value.len() as u32);
    push_word(st, name_off);
    st.extend_from_slice(value);
    pad4(st);
}

fn cells(words: &[u32]) -> Vec<u8> {
    let mut v = Vec::new();
    for w in words {
        v.extend_from_slice(&w.to_be_bytes());
    }
    v
}

fn blob(structure: &[u8]) -> Vec<u8> {
    let strings = b"reg\0compatible\0";
    let off_struct = 40u32;
    let off_strings = off_struct + structure.len() as u32;
    let mut out = Vec::new();
    for w in [0xd00d_feedu32, off_strings + 15, off_struct, off_strings, 0, 0, 17, 16, 15, structure.len() as u32] {
        push_word(&mut out, w);
    }
    out.extend_from_slice(structure);
    out.extend_from_slice(strings);
    out
}

#[test]
fn option_parse_token() {
    assert_eq!(parse_token(1), Some(FdtToken::BeginNode));
    assert_eq!(parse_token(2), Some(FdtToken::EndNode));
    assert_eq!(parse_token(3), Some(FdtToken::Prop));
    assert_eq!(parse_token(4), Some(FdtToken::Nop));
    assert_eq!(parse_token(9), Some(FdtToken::End));
    assert_eq!(parse_token(0), None);
    assert_eq!(parse_token(0xdead_beef), None);
}

#[test]
fn dtb_address_defaults() {
    assert_eq!(select_dtb_address(0), 0x4000_0000);
    assert_eq!(select_dtb_address(0x3fff_ffff), 0x4000_0000);
    assert_eq!(select_dtb_address(0x4000_0000), 0x4000_0000);
    assert_eq!(select_dtb_address(0x4800_0000), 0x4800_0000);
    // Only the low 32 bits are compared.
    assert_eq!(select_dtb_address(0x1_0000_1000), 0x4000_0000);
    assert_eq!(select_dtb_address(0x1_4000_1000), 0x1_4000_1000);
}

#[test]
fn probe_finds_pl011_with_two_address_cells() {
    let mut st = Vec::new();
    begin_node(&mut st, "");
    begin_node(&mut st, "pl011@9000000");
    prop(&mut st, 4, b"arm,pl011\0arm,primecell\0");
    prop(&mut st, 0, &cells(&[0, 0x0900_0000, 0, 0x1000]));
    push_word(&mut st, 2);
    push_word(&mut st, 2);
    push_word(&mut st, 9);
    assert_eq!(uart_probe_address(&blob(&st)), Some(0x0900_0000));
}

#[test]
fn probe_with_single_cell_reg() {
    let mut st = Vec::new();
    begin_node(&mut st, "uart");
    prop(&mut st, 0, &cells(&[0x0900_0000]));
    push_word(&mut st, 4);
    prop(&mut st, 4, b"arm,pl011\0");
    push_word(&mut st, 2);
    push_word(&mut st, 9);
    assert_eq!(uart_probe_address(&blob(&st)), Some(0x0900_0000));
}

#[test]
fn probe_skips_other_nodes() {
    let mut st = Vec::new();
    begin_node(&mut st, "virtio_mmio@a000000");
    prop(&mut st, 4, b"virtio,mmio\0");
    prop(&mut st, 0, &cells(&[0, 0x0a00_0000, 0, 0x200]));
    push_word(&mut st, 2);
    begin_node(&mut st, "pl011");
    prop(&mut st, 4, b"arm,pl011\0");
    push_word(&mut st, 2);
    push_word(&mut st, 9);
    // The UART node has no reg, so nothing is found before the end.
    assert_eq!(uart_probe_address(&blob(&st)), None);
}

#[test]
fn probe_without_magic_or_on_bad_token() {
    let mut st = Vec::new();
    begin_node(&mut st, "uart");
    prop(&mut st, 4, b"arm,pl011\0");
    prop(&mut st, 0, &cells(&[0x0900_0000, 0x1000]));
    push_word(&mut st, 2);
    push_word(&mut st, 9);
    let good = blob(&st);
    // With two or more cells, the second one is taken.
    assert_eq!(uart_probe_address(&good), Some(0x1000));
    let mut bad = good.clone();
    bad[3] = 0xee;
    assert_eq!(uart_probe_address(&bad), None);
    let mut st2 = Vec::new();
    push_word(&mut st2, 5);
    st2.extend_from_slice(&st);
    assert_eq!(uart_probe_address(&blob(&st2)), None);
    assert_eq!(uart_probe_address(&good[..20]), None);
}

#[test]
fn greeting_is_an_h_word_at_the_uart() {
    let mut st = Vec::new();
    begin_node(&mut st, "pl011");
    prop(&mut st, 4, b"arm,pl011\0");
    prop(&mut st, 0, &cells(&[0x0900_0000]));
    push_word(&mut st, 2);
    push_word(&mut st, 9);
    assert_eq!(uart_greeting(&blob(&st)), Some(Access::Write32(0x0900_0000, 0x48)));
    let mut st = Vec::new();
    push_word(&mut st, 9);
    assert_eq!(uart_greeting(&blob(&st)), None);
}
