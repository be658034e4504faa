use lib::fdt::{has_fdt_magic, set_special_addresses_from_dtb, DeviceInit, ScanEnd};

fn push_word(out: &mut Vec<u8>, v: u32) {
    out.extend_from_slice(&v.to_be_bytes());
}

fn pad4(out: &mut Vec<u8>) {
    while out.len() % 4 != 0 {
        out.push(0);
    }
}

fn begin_node(st: &mut Vec<u8>, name: &str) {
    push_word(st, 1);
    st.extend_from_slice(name.as_bytes());
    st.push(0);
    pad4(st);
}

fn end_node(st: &mut Vec<u8>) {
    push_word(st, 2);
}

fn prop(st: &mut Vec<u8>, name_off: u32, value: &[u8]) {
    push_word(st, 3);
    push_word(st, value.len() as u32);
    push_word(st, name_off);
    st.extend_from_slice(value);
    pad4(st);
}

fn cells(words: &[u32]) -> Vec<u8> {
    let mut v = Vec::new();
    for w in words {
        v.extend_from_slice(&w.to_be_bytes());
    }
    v
}

const REG: u32 = 0;
const COMPATIBLE: u32 = 4;

fn blob(structure: &[u8]) -> Vec<u8> {
    let strings = b"reg\0compatible\0";
    let off_struct = 40u32;
    let off_strings = off_struct + structure.len() as u32;
    let total = off_strings + strings.len() as u32;
    let mut out = Vec::new();
    for w in [0xd00d_feedu32, total, off_struct, off_strings, 0, 0, 17, 16, strings.len() as u32, structure.len() as u32] {
        push_word(&mut out, w);
    }
    out.extend_from_slice(structure);
    out.extend_from_slice(strings);
    out
}

fn qemu_like_tree() -> Vec<u8> {
    let mut st = Vec::new();
    begin_node(&mut st, "");
    begin_node(&mut st, "pl011@9000000");
    prop(&mut st, COMPATIBLE, b"arm,pl011\0arm,primecell\0");
    prop(&mut st, REG, &cells(&[0, 0x0900_0000, 0, 0x1000]));
    end_node(&mut st);
    push_word(&mut st, 4);
    begin_node(&mut st, "virtio_mmio@a000000");
    prop(&mut st, COMPATIBLE, b"virtio,mmio\0");
    prop(&mut st, REG, &cells(&[0, 0x0a00_0000, 0, 0x200]));
    end_node(&mut st);
    end_node(&mut st);
    push_word(&mut st, 9);
    blob(&st)
}

#[test]
fn scan_finds_uart_and_virtio() {
    let b = qemu_like_tree();
    assert!(has_fdt_magic(&b));
    let r = set_special_addresses_from_dtb(&b);
    assert_eq!(r.end, ScanEnd::Completed);
    // The root's end repeats the last node's device: flags are reset only when a node begins.
    assert_eq!(
        r.inits,
        vec![DeviceInit::Uart(0x0900_0000), DeviceInit::Virtio(0x0a00_0000), DeviceInit::Virtio(0x0a00_0000)]
    );
}

#[test]
fn scan_reg_of_two_cells_takes_the_first() {
    let mut st = Vec::new();
    begin_node(&mut st, "serial");
    prop(&mut st, COMPATIBLE, b"arm,pl011\0");
    prop(&mut st, REG, &cells(&[0x0900_0000, 0x1000]));
    end_node(&mut st);
    push_word(&mut st, 9);
    let r = set_special_addresses_from_dtb(&blob(&st));
    assert_eq!(r.inits, vec![DeviceInit::Uart(0x0900_0000)]);
    assert_eq!(r.end, ScanEnd::Completed);
}

#[test]
fn scan_ignores_nodes_without_address() {
    let mut st = Vec::new();
    begin_node(&mut st, "serial");
    prop(&mut st, COMPATIBLE, b"arm,pl011\0");
    prop(&mut st, REG, &cells(&[0, 0]));
    end_node(&mut st);
    begin_node(&mut st, "other");
    prop(&mut st, COMPATIBLE, b"arm,gic\0");
    prop(&mut st, REG, &cells(&[0x0800_0000, 0x1000]));
    end_node(&mut st);
    push_word(&mut st, 9);
    let r = set_special_addresses_from_dtb(&blob(&st));
    assert_eq!(r.inits, vec![]);
    assert_eq!(r.end, ScanEnd::Completed);
}

#[test]
fn scan_stops_at_invalid_token() {
    let mut st = Vec::new();
    begin_node(&mut st, "serial");
    prop(&mut st, COMPATIBLE, b"arm,pl011\0");
    prop(&mut st, REG, &cells(&[0x0900_0000, 0x1000]));
    end_node(&mut st);
    push_word(&mut st, 7);
    end_node(&mut st);
    let r = set_special_addresses_from_dtb(&blob(&st));
    assert_eq!(r.inits, vec![DeviceInit::Uart(0x0900_0000)]);
    assert_eq!(r.end, ScanEnd::InvalidToken);
    assert!(r.halts());
    assert!(!set_special_addresses_from_dtb(&qemu_like_tree()).halts());
}

#[test]
fn scan_of_truncated_blob() {
    let b = qemu_like_tree();
    let r = set_special_addresses_from_dtb(&b[..12]);
    assert_eq!(r.inits, vec![]);
    assert_eq!(r.end, ScanEnd::Truncated);
    let r = set_special_addresses_from_dtb(&b[..50]);
    assert_eq!(r.end, ScanEnd::Truncated);
    let r = set_special_addresses_from_dtb(&b[..60]);
    assert_eq!(r.end, ScanEnd::Truncated);
}

#[test]
fn scan_node_name_skip_for_every_length() {
    for len in 0..9 {
        let name: String = std::iter::repeat('n').take(len).collect();
        let mut st = Vec::new();
        begin_node(&mut st, &name);
        prop(&mut st, COMPATIBLE, b"virtio,mmio\0");
        prop(&mut st, REG, &cells(&[0x0a00_0200, 0x200]));
        end_node(&mut st);
        push_word(&mut st, 9);
        let r = set_special_addresses_from_dtb(&blob(&st));
        assert_eq!(r.inits, vec![DeviceInit::Virtio(0x0a00_0200)]);
        assert_eq!(r.end, ScanEnd::Completed);
    }
}

#[test]
fn magic_check() {
    let b = qemu_like_tree();
    assert!(has_fdt_magic(&b));
    assert!(!has_fdt_magic(&b[..3]));
    let mut bad = b.clone();
    bad[0] = 0;
    assert!(!has_fdt_magic(&bad));
}
