use bootinfo::parsers::linux::{valid, Header, MAGIC};
use bootinfo::report::{Line, Value};
use bytes::Bytes;

fn put16(image: &mut Vec<u8>, at: usize, value: u16) {
    image[at..at + 2].copy_from_slice(&value.to_le_bytes());
}

fn put32(image: &mut Vec<u8>, at: usize, value: u32) {
    image[at..at + 4].copy_from_slice(&value.to_le_bytes());
}

fn put64(image: &mut Vec<u8>, at: usize, value: u64) {
    image[at..at + 8].copy_from_slice(&value.to_le_bytes());
}

/// A boot sector of `len` bytes that declares `version`, with a recognisable
/// value in every field that is read and 0xcc in every field that is not.
fn boot_sector(len: usize, setup_sects: u8, version: u16) -> Vec<u8> {
    let mut image = vec![0u8; len];
    for at in 0x1f2..0x260 {
        image[at] = 0xcc;
    }
    image[0x1f1] = setup_sects;
    put32(&mut image, 0x1f4, 0x0001_2345);
    put32(&mut image, 0x202, MAGIC);
    put16(&mut image, 0x206, version);
    put32(&mut image, 0x208, 0x1111_0001);
    put16(&mut image, 0x20e, 0);
    image[0x211] = 0x81;
    put32(&mut image, 0x214, 0x0010_0000);
    put32(&mut image, 0x22c, 0x7fff_ffff);
    put32(&mut image, 0x230, 0x0020_0000);
    image[0x234] = 1;
    image[0x235] = 21;
    put16(&mut image, 0x236, 0x003f);
    put32(&mut image, 0x238, 2047);
    put32(&mut image, 0x240, 0x0000_0400);
    put32(&mut image, 0x244, 0x0055_0000);
    put64(&mut image, 0x250, 0x0000_0001_0100_0000);
    put32(&mut image, 0x258, 0x0234_5000);
    put32(&mut image, 0x25c, 0x0000_0190);
    image
}

fn parse(image: Vec<u8>) -> Option<Header> {
    Header::parse(Bytes::from(image))
}

fn multiboot1_image() -> Vec<u8> {
    let mut image = vec![0u8; 40000];
    put32(&mut image, 0, 0x1BADB002);
    put32(&mut image, 4, 0);
    put32(&mut image, 8, 0u32.wrapping_sub(0x1BADB002));
    image
}

fn multiboot2_image() -> Vec<u8> {
    let mut image = vec![0u8; 40000];
    put32(&mut image, 0, 0xE85250D6);
    put32(&mut image, 4, 0);
    put32(&mut image, 8, 24);
    put32(&mut image, 12, 0u32.wrapping_sub(0xE85250D6).wrapping_sub(24));
    put32(&mut image, 20, 8);
    image
}

fn linux_image() -> Vec<u8> {
    let mut image = boot_sector(40000, 30, 0x020d);
    put16(&mut image, 0x20e, 0x3000);
    let name = b"4.19.0 (builder@host) #1 SMP\0";
    image[0x3200..0x3200 + name.len()].copy_from_slice(name);
    image
}

#[test]
#[should_panic]
fn parse_invalid_multiboot1() {
    let image = multiboot1_image();
    let bytes = Bytes::from(image[..8192].to_vec());
    Header::parse(bytes).unwrap();
}

#[test]
#[should_panic]
fn parse_invalid_multiboot2() {
    let image = multiboot2_image();
    let bytes = Bytes::from(image[..32768].to_vec());
    Header::parse(bytes).unwrap();
}

#[test]
fn parse_valid_linuxboot() {
    let image = linux_image();
    let bytes = Bytes::from(image[..32768].to_vec());
    Header::parse(bytes).unwrap();
}

#[test]
fn linux_fields_at_their_offsets() {
    let header = parse(boot_sector(0x260, 1, 0x020f)).unwrap();
    assert_eq!(
        header,
        Header {
            setup_sects: 1,
            syssize: 0x0001_2345,
            header: 0x53726448,
            version_major: 2,
            version_minor: 15,
            realmode_swtch: Some(0x1111_0001),
            kernel_version: None,
            load_flags: Some(0x81),
            code32_start: Some(0x0010_0000),
            initrd_addr_max: Some(0x7fff_ffff),
            kernel_alignment: Some(0x0020_0000),
            relocatable_kernel: Some(true),
            min_alignment: Some(1 << 21),
            xloadflags: Some(0x003f),
            cmdline_size: Some(2047),
            payload_offset: Some(0x0000_0400),
            payload_length: Some(0x0055_0000),
            pref_address: Some(0x0000_0001_0100_0000),
            init_size: Some(0x0234_5000),
            handover_offset: Some(0x0000_0190),
        }
    );
}

#[test]
fn linux_version_2_10_gates_fields() {
    let header = parse(boot_sector(1024, 1, 0x020a)).unwrap();
    assert_eq!((header.version_major, header.version_minor), (2, 10));
    assert_eq!(header.kernel_alignment, Some(0x0020_0000));
    assert_eq!(header.relocatable_kernel, Some(true));
    assert_eq!(header.min_alignment, Some(0x0020_0000));
    assert_eq!(header.pref_address, Some(0x0000_0001_0100_0000));
    assert_eq!(header.init_size, Some(0x0234_5000));
    assert_eq!(header.xloadflags, None);
    assert_eq!(header.handover_offset, None);
}

#[test]
fn linux_fields_appear_from_their_version_on() {
    for minor in 0u8..=20 {
        let header = parse(boot_sector(1024, 1, 0x0200 | minor as u16)).unwrap();
        assert_eq!(header.version_major, 2);
        assert_eq!(header.version_minor, minor);
        assert!(header.realmode_swtch.is_some());
        assert!(header.load_flags.is_some());
        assert!(header.code32_start.is_some());
        assert_eq!(header.initrd_addr_max.is_some(), minor >= 3, "initrd_addr_max at 2.{}", minor);
        assert_eq!(header.kernel_alignment.is_some(), minor >= 5, "kernel_alignment at 2.{}", minor);
        assert_eq!(header.relocatable_kernel.is_some(), minor >= 5, "relocatable_kernel at 2.{}", minor);
        assert_eq!(header.cmdline_size.is_some(), minor >= 6, "cmdline_size at 2.{}", minor);
        assert_eq!(header.payload_offset.is_some(), minor >= 8, "payload_offset at 2.{}", minor);
        assert_eq!(header.payload_length.is_some(), minor >= 8, "payload_length at 2.{}", minor);
        assert_eq!(header.min_alignment.is_some(), minor >= 10, "min_alignment at 2.{}", minor);
        assert_eq!(header.pref_address.is_some(), minor >= 10, "pref_address at 2.{}", minor);
        assert_eq!(header.init_size.is_some(), minor >= 10, "init_size at 2.{}", minor);
        assert_eq!(header.handover_offset.is_some(), minor >= 11, "handover_offset at 2.{}", minor);
        assert_eq!(header.xloadflags.is_some(), minor >= 12, "xloadflags at 2.{}", minor);
    }
}

#[test]
fn linux_later_major_version_has_every_field() {
    let header = parse(boot_sector(1024, 1, 0x0300)).unwrap();
    assert_eq!((header.version_major, header.version_minor), (3, 0));
    assert!(header.initrd_addr_max.is_some());
    assert!(header.handover_offset.is_some());
    assert!(header.xloadflags.is_some());
    let header = parse(boot_sector(1024, 1, 0xffff)).unwrap();
    assert_eq!((header.version_major, header.version_minor), (255, 255));
    assert!(header.xloadflags.is_some());
}

#[test]
fn linux_older_major_version_is_no_match() {
    assert_eq!(parse(boot_sector(1024, 1, 0x01ff)), None);
    assert_eq!(parse(boot_sector(1024, 1, 0x0100)), None);
    assert_eq!(parse(boot_sector(1024, 1, 0x0000)), None);
}

#[test]
fn linux_without_magic_is_no_match() {
    let mut image = boot_sector(1024, 1, 0x020c);
    put32(&mut image, 0x202, 0x53726449);
    assert_eq!(parse(image), None);
    assert_eq!(parse(vec![0u8; 32768]), None);
    // The magic anywhere but at its place does not count.
    let mut shifted = vec![0u8; 1024];
    put32(&mut shifted, 0x200, MAGIC);
    put16(&mut shifted, 0x206, 0x020c);
    assert_eq!(parse(shifted), None);
}

#[test]
fn linux_short_windows_are_no_match() {
    let whole = boot_sector(0x260, 1, 0x020c);
    assert!(parse(whole.clone()).is_some());
    for len in [0usize, 1, 0x1f1, 0x1f2, 0x1f3, 0x206, 0x208, 0x25f] {
        assert_eq!(parse(whole[..len].to_vec()), None, "window of {} bytes", len);
    }
}

#[test]
fn linux_window_must_cover_setup_sectors() {
    assert!(parse(boot_sector(1024, 2, 0x020c)).is_some());
    assert_eq!(parse(boot_sector(1023, 2, 0x020c)), None);
    assert_eq!(parse(boot_sector(32768, 255, 0x020c)), None);
    assert!(parse(boot_sector(255 * 512, 255, 0x020c)).is_some());
}

#[test]
fn linux_zero_setup_sectors_parse_and_show_as_four() {
    let header = parse(boot_sector(0x260, 0, 0x020c)).unwrap();
    assert_eq!(header.setup_sects, 0);
    assert_eq!(header.kernel_version, None);
    let lines = header.lines();
    let sectors: Vec<&Line> = lines.iter().filter(|line| line.label == "Setup Sectors").collect();
    assert_eq!(sectors.len(), 1);
    assert_eq!(sectors[0].value, Value::Number(4));
}

#[test]
fn linux_kernel_version_string() {
    let mut image = boot_sector(4096, 4, 0x020c);
    put16(&mut image, 0x20e, 0x0400);
    image[0x600..0x606].copy_from_slice(b"5.10.1");
    image[0x606] = 0;
    image[0x607] = b'x';
    let header = parse(image).unwrap();
    assert_eq!(header.kernel_version, Some(b"5.10.1".to_vec()));
}

#[test]
fn linux_kernel_version_string_edges() {
    // An offset of zero, or one at or behind the setup sectors: no string.
    let mut image = boot_sector(4096, 2, 0x020c);
    put16(&mut image, 0x20e, 0x0400);
    image[0x600] = b'a';
    assert_eq!(parse(image.clone()).unwrap().kernel_version, None);
    put16(&mut image, 0x20e, 0x03ff);
    image[0x5ff] = 0;
    assert_eq!(parse(image.clone()).unwrap().kernel_version, Some(vec![]));
    // A string that runs to the end of the window.
    let mut open_ended = boot_sector(2048, 4, 0x020c);
    put16(&mut open_ended, 0x20e, 0x05fd);
    open_ended[0x7fd..0x800].copy_from_slice(b"abc");
    assert_eq!(parse(open_ended).unwrap().kernel_version, Some(b"abc".to_vec()));
    // A string that starts just at the end of the window is empty.
    let mut at_end = boot_sector(2048, 4, 0x020c);
    put16(&mut at_end, 0x20e, 0x0600);
    assert_eq!(parse(at_end).unwrap().kernel_version, Some(vec![]));
    // A string that would start behind the window: no match.
    let mut beyond = boot_sector(2048, 4, 0x020c);
    put16(&mut beyond, 0x20e, 0x0601);
    assert_eq!(parse(beyond), None);
}

#[test]
fn linux_kernel_version_offset_with_many_sectors() {
    // 200 sectors are 102400 bytes: more than a 16-bit product would hold.
    let mut image = boot_sector(200 * 512, 200, 0x020c);
    put16(&mut image, 0x20e, 0xf000);
    image[0xf200..0xf203].copy_from_slice(b"6.1");
    image[0xf203] = 0;
    assert_eq!(parse(image).unwrap().kernel_version, Some(b"6.1".to_vec()));
}

#[test]
fn linux_preferred_address_of_zero_is_absent() {
    let mut image = boot_sector(1024, 1, 0x020c);
    put64(&mut image, 0x250, 0);
    let header = parse(image).unwrap();
    assert_eq!(header.pref_address, None);
    assert_eq!(header.init_size, Some(0x0234_5000));
    let mut high = boot_sector(1024, 1, 0x020c);
    put64(&mut high, 0x250, 0x0100_0000_0000_0000);
    assert_eq!(parse(high).unwrap().pref_address, Some(0x0100_0000_0000_0000));
}

#[test]
fn linux_alignment_shift() {
    let cases = [(0u8, 1u32), (1, 2), (12, 4096), (31, 0x8000_0000), (32, 1), (33, 2), (255, 0x8000_0000)];
    for (shift, alignment) in cases {
        let mut image = boot_sector(1024, 1, 0x020c);
        image[0x235] = shift;
        assert_eq!(parse(image).unwrap().min_alignment, Some(alignment), "shift {}", shift);
    }
}

#[test]
fn linux_relocatable_is_any_nonzero_byte() {
    for (byte, truth) in [(0u8, false), (1, true), (2, true), (0xff, true)] {
        let mut image = boot_sector(1024, 1, 0x020c);
        image[0x234] = byte;
        assert_eq!(parse(image).unwrap().relocatable_kernel, Some(truth));
    }
}

#[test]
fn linux_valid_compares_major_then_minor() {
    assert_eq!(valid(0x020a, (2, 10), 7u32), Some(7));
    assert_eq!(valid(0x0209, (2, 10), 7u32), None);
    assert_eq!(valid(0x020b, (2, 10), "x"), Some("x"));
    assert_eq!(valid(0x0300, (2, 10), true), Some(true));
    assert_eq!(valid(0x01ff, (2, 0), 1u8), None);
    assert_eq!(valid(0x0200, (2, 0), 1u8), Some(1));
    assert_eq!(valid(0xff00, (255, 1), 1u8), None);
    assert_eq!(valid(0xffff, (255, 255), 1u8), Some(1));
}

#[test]
fn linux_lines_of_a_full_header() {
    let mut image = boot_sector(4096, 4, 0x020c);
    put16(&mut image, 0x20e, 0x0400);
    image[0x600..0x604].copy_from_slice(b"6.6\0");
    let lines = parse(image).unwrap().lines();
    let shape: Vec<(u8, &str)> = lines.iter().map(|line| (line.indent, line.label)).collect();
    assert_eq!(
        shape,
        vec![
            (0, "Linux Boot Protocol"),
            (1, "Kernel Version"),
            (1, "Header"),
            (1, "Version"),
            (1, "Setup Sectors"),
            (1, "PM Code Size"),
            (1, "Realmode Switch"),
            (1, "Loaded"),
            (1, "Code32 Start"),
            (1, "Initrd Addr Max"),
            (1, "Kernel Alignment"),
            (1, "Min. Kernel Alignment"),
            (1, "Relocatable?"),
            (1, "xloadflags"),
            (1, "Max Cmdline Size"),
            (1, "Payload Offset"),
            (1, "Payload length"),
            (1, "init size"),
            (1, "Preferred load address"),
            (1, "EFI Handover Offset"),
        ]
    );
    assert_eq!(lines[0].value, Value::Heading);
    assert_eq!(lines[1].value, Value::Text(b"6.6".to_vec()));
    assert_eq!(lines[2].value, Value::Hex { value: 0x53726448, digits: 1 });
    assert_eq!(lines[3].value, Value::Version { major: 2, minor: 12 });
    assert_eq!(lines[4].value, Value::Number(4));
    assert_eq!(lines[5].value, Value::Bytes(0x0001_2345 * 16));
    assert_eq!(lines[7].value, Value::Word("HIGH"));
    assert_eq!(lines[11].value, Value::Hex { value: 1 << 21, digits: 1 });
    assert_eq!(lines[12].value, Value::Truth(true));
    assert_eq!(lines[13].value, Value::Hex { value: 0x3f, digits: 1 });
    assert_eq!(lines[14].value, Value::Bytes(2047));
    assert_eq!(lines[18].value, Value::Hex { value: 0x0000_0001_0100_0000, digits: 1 });
}

#[test]
fn linux_lines_leave_absent_fields_out() {
    let mut image = boot_sector(1024, 1, 0x0200);
    image[0x211] = 0x80;
    put32(&mut image, 0x1f4, 0xffff_ffff);
    let lines = parse(image).unwrap().lines();
    let labels: Vec<&str> = lines.iter().map(|line| line.label).collect();
    assert_eq!(
        labels,
        vec![
            "Linux Boot Protocol",
            "Header",
            "Version",
            "Setup Sectors",
            "PM Code Size",
            "Realmode Switch",
            "Loaded",
            "Code32 Start"
        ]
    );
    assert_eq!(lines[3].value, Value::Number(1));
    assert_eq!(lines[4].value, Value::Bytes(0xffff_ffff * 16));
    assert_eq!(lines[6].value, Value::Word("LOW"));
}
