use bootinfo::parsers::multiboot2::{ending_tag, Flags, Header, Tag, TagVariant, MAGIC, OPTIONAL};
use bootinfo::report::Value;
use bytes::Bytes;

fn push16(image: &mut Vec<u8>, value: u16) {
    image.extend_from_slice(&value.to_le_bytes());
}

fn push32(image: &mut Vec<u8>, value: u32) {
    image.extend_from_slice(&value.to_le_bytes());
}

/// A tag with its header, its payload words, and zero padding up to the next
/// multiple of 8.
fn tag(typ: u16, flags: u16, size: u32, payload: &[u32]) -> Vec<u8> {
    let mut bytes = Vec::new();
    push16(&mut bytes, typ);
    push16(&mut bytes, flags);
    push32(&mut bytes, size);
    for word in payload {
        push32(&mut bytes, *word);
    }
    while bytes.len() % 8 != 0 {
        bytes.push(0);
    }
    bytes
}

fn ending() -> Vec<u8> {
    tag(0, 0, 8, &[])
}

/// The four header words for a tag stream of `stream` bytes, and the stream.
fn image(architecture: u32, stream: &[u8]) -> Vec<u8> {
    let header_length = 16 + stream.len() as u32;
    let checksum = 0u32.wrapping_sub(MAGIC).wrapping_sub(architecture).wrapping_sub(header_length);
    let mut image = Vec::new();
    push32(&mut image, MAGIC);
    push32(&mut image, architecture);
    push32(&mut image, header_length);
    push32(&mut image, checksum);
    image.extend_from_slice(stream);
    image
}

fn parse(image: Vec<u8>) -> Option<Header> {
    Header::parse(Bytes::from(image))
}

#[test]
fn multiboot2_one_framebuffer_tag() {
    let mut stream = tag(5, 0, 20, &[1024, 768, 32]);
    stream.extend(ending());
    let header = parse(image(0, &stream)).unwrap();
    assert_eq!(header.magic, 0xE85250D6);
    assert_eq!(header.architecture, 0);
    assert_eq!(header.header_length, 48);
    assert_eq!(header.checksum, 0u32.wrapping_sub(0xE85250D6).wrapping_sub(48));
    assert_eq!(
        header.tags,
        vec![Tag {
            typ: 5,
            flags: Flags { bits: 0 },
            size: 20,
            variant: TagVariant::Framebuffer { width: 1024, height: 768, depth: 32 },
        }]
    );
}

#[test]
fn multiboot2_only_ending_tag() {
    let header = parse(image(4, &ending())).unwrap();
    assert_eq!(header.architecture, 4);
    assert_eq!(header.header_length, 24);
    assert!(header.tags.is_empty());
}

#[test]
fn multiboot2_checksum_sums_to_zero() {
    let header = parse(image(0x1234_5678, &ending())).unwrap();
    let sum = 0xE85250D6u64 + header.architecture as u64 + header.header_length as u64 + header.checksum as u64;
    assert_eq!(sum % (1u64 << 32), 0);
}

#[test]
fn multiboot2_bad_checksum_is_no_match() {
    let mut bytes = image(0, &ending());
    bytes[12] ^= 1;
    assert_eq!(parse(bytes), None);
}

#[test]
fn multiboot2_without_magic_is_no_match() {
    assert_eq!(parse(vec![0u8; 32768]), None);
    assert_eq!(parse(Vec::new()), None);
    // The magic of the other protocol is not this one's.
    let mut other = vec![0u8; 64];
    other[..4].copy_from_slice(&0x1BADB002u32.to_le_bytes());
    assert_eq!(parse(other), None);
}

#[test]
fn multiboot2_header_after_leading_words() {
    let mut bytes = vec![0u8; 4096];
    bytes.extend(image(0, &ending()));
    bytes.extend(vec![0xaau8; 100]);
    let header = parse(bytes).unwrap();
    assert_eq!(header.header_length, 24);
    assert!(header.tags.is_empty());
}

#[test]
fn multiboot2_every_known_tag() {
    let mut stream = Vec::new();
    stream.extend(tag(1, 0, 20, &[6, 8, 1]));
    stream.extend(tag(2, 0, 24, &[0x10, 0x20, 0x30, 0x40]));
    stream.extend(tag(3, 1, 12, &[0x1000]));
    stream.extend(tag(4, 0, 12, &[3]));
    stream.extend(tag(5, 1, 20, &[80, 25, 0]));
    stream.extend(tag(6, 0, 8, &[]));
    stream.extend(tag(7, 1, 8, &[]));
    stream.extend(tag(8, 0, 12, &[0x2000]));
    stream.extend(tag(9, 0, 12, &[0x3000]));
    stream.extend(tag(10, 0, 24, &[0x100000, 0x200000, 4096, 2]));
    stream.extend(ending());
    let header = parse(image(0, &stream)).unwrap();
    let variants: Vec<&TagVariant> = header.tags.iter().map(|tag| &tag.variant).collect();
    assert_eq!(
        variants,
        vec![
            &TagVariant::InformationRequest { mbi_tag_types: vec![6, 8, 1] },
            &TagVariant::Address { header_addr: 0x10, load_addr: 0x20, load_end_addr: 0x30, bss_end_addr: 0x40 },
            &TagVariant::Entry { entry_addr: 0x1000 },
            &TagVariant::Flags { console_flags: 3 },
            &TagVariant::Framebuffer { width: 80, height: 25, depth: 0 },
            &TagVariant::ModuleAlignment,
            &TagVariant::EfiBootServices,
            &TagVariant::EfiI386Entry { entry_addr: 0x2000 },
            &TagVariant::EfiAmd64Entry { entry_addr: 0x3000 },
            &TagVariant::Relocatable { min_addr: 0x100000, max_addr: 0x200000, align: 4096, preference: 2 },
        ]
    );
    let types: Vec<u16> = header.tags.iter().map(|tag| tag.typ).collect();
    assert_eq!(types, vec![1, 2, 3, 4, 5, 6, 7, 8, 9, 10]);
    let sizes: Vec<u32> = header.tags.iter().map(|tag| tag.size).collect();
    assert_eq!(sizes, vec![20, 24, 12, 12, 20, 8, 8, 12, 12, 24]);
    let flags: Vec<u16> = header.tags.iter().map(|tag| tag.flags.bits()).collect();
    assert_eq!(flags, vec![0, 0, 1, 0, 1, 0, 1, 0, 0, 0]);
}

#[test]
fn multiboot2_walk_steps_by_padded_sizes() {
    // Sizes 12, 20, 13 and 9 take 16, 24, 16 and 16 bytes: each next tag is
    // found only if the walk steps by the size rounded up to 8.
    let mut stream = Vec::new();
    stream.extend(tag(3, 0, 12, &[0xdead]));
    stream.extend(tag(5, 0, 20, &[1, 2, 3]));
    stream.extend(tag(77, 0, 13, &[0xffff_ffff, 0xee]));
    stream.extend(tag(78, 0, 9, &[0xdd]));
    stream.extend(ending());
    assert_eq!(stream.len(), 16 + 24 + 16 + 16 + 8);
    let header = parse(image(0, &stream)).unwrap();
    assert_eq!(header.header_length as usize, 16 + stream.len());
    let sizes: Vec<u32> = header.tags.iter().map(|tag| tag.size).collect();
    assert_eq!(sizes, vec![12, 20, 13, 9]);
    let padded: u32 = sizes.iter().map(|size| (size + 7) / 8 * 8).sum();
    assert_eq!(16 + padded as usize + 8, header.header_length as usize);
    assert_eq!(header.tags[2].variant, TagVariant::Unknown);
    assert_eq!(header.tags[3].variant, TagVariant::Unknown);
    assert_eq!(header.tags[3].typ, 78);
}

#[test]
fn multiboot2_unknown_type_is_skipped_uninterpreted() {
    let mut stream = tag(0x1234, 0xfffe, 24, &[1, 2, 3, 4]);
    stream.extend(tag(3, 0, 12, &[7]));
    stream.extend(ending());
    let header = parse(image(0, &stream)).unwrap();
    assert_eq!(
        header.tags,
        vec![
            Tag { typ: 0x1234, flags: Flags { bits: 0xfffe }, size: 24, variant: TagVariant::Unknown },
            Tag { typ: 3, flags: Flags { bits: 0 }, size: 12, variant: TagVariant::Entry { entry_addr: 7 } },
        ]
    );
}

#[test]
fn multiboot2_type_zero_with_other_size_is_not_the_end() {
    let mut stream = tag(0, 0, 16, &[9, 9]);
    stream.extend(ending());
    let header = parse(image(0, &stream)).unwrap();
    assert_eq!(header.tags.len(), 1);
    assert_eq!(header.tags[0].typ, 0);
    assert_eq!(header.tags[0].size, 16);
    assert_eq!(header.tags[0].variant, TagVariant::Unknown);
}

#[test]
fn multiboot2_size_eight_with_other_type_is_not_the_end() {
    let mut stream = tag(6, 0, 8, &[]);
    stream.extend(ending());
    let header = parse(image(0, &stream)).unwrap();
    assert_eq!(header.tags.len(), 1);
    assert_eq!(header.tags[0].variant, TagVariant::ModuleAlignment);
}

#[test]
fn multiboot2_payload_beyond_fixed_fields_is_skipped() {
    let mut stream = tag(3, 0, 20, &[0x42, 0xaaaa, 0xbbbb]);
    stream.extend(tag(1, 0, 14, &[5, 0x0000_ffff]));
    stream.extend(ending());
    let header = parse(image(0, &stream)).unwrap();
    assert_eq!(header.tags.len(), 2);
    assert_eq!(header.tags[0].variant, TagVariant::Entry { entry_addr: 0x42 });
    assert_eq!(header.tags[1].size, 14);
    assert_eq!(header.tags[1].variant, TagVariant::InformationRequest { mbi_tag_types: vec![5] });
}

#[test]
fn multiboot2_empty_information_request() {
    let mut stream = tag(1, 0, 8, &[]);
    stream.extend(ending());
    let header = parse(image(0, &stream)).unwrap();
    assert_eq!(header.tags[0].variant, TagVariant::InformationRequest { mbi_tag_types: vec![] });
}

#[test]
fn multiboot2_unterminated_stream_is_no_match() {
    let stream = tag(5, 0, 20, &[1, 2, 3]);
    assert_eq!(parse(image(0, &stream)), None);
    assert_eq!(parse(image(0, &[])), None);
}

#[test]
fn multiboot2_truncated_stream_is_no_match() {
    let mut stream = tag(5, 0, 20, &[1, 2, 3]);
    stream.extend(ending());
    let whole = image(0, &stream);
    assert!(parse(whole.clone()).is_some());
    for len in 0..whole.len() {
        assert_eq!(parse(whole[..len].to_vec()), None, "window of {} bytes", len);
    }
}

#[test]
fn multiboot2_malformed_sizes_are_no_match() {
    for (typ, size) in [(5u16, 7u32), (5, 0), (1, 4), (2, 20), (3, 8), (5, 16), (10, 23), (9, 11)] {
        let mut stream = tag(typ, 0, size, &[1, 2, 3, 4]);
        stream.extend(ending());
        assert_eq!(parse(image(0, &stream)), None, "type {} size {}", typ, size);
    }
    // A size that reaches beyond the window.
    let mut stream = tag(77, 0, 0xffff_fff8, &[]);
    stream.extend(ending());
    assert_eq!(parse(image(0, &stream)), None);
}

#[test]
fn multiboot2_declared_length_must_fit() {
    // A header that declares less than its own four words.
    let mut short = Vec::new();
    push32(&mut short, MAGIC);
    push32(&mut short, 0);
    push32(&mut short, 8);
    push32(&mut short, 0u32.wrapping_sub(MAGIC).wrapping_sub(8));
    short.extend(ending());
    assert_eq!(parse(short), None);
    // A header that declares more than the window holds.
    let mut long = Vec::new();
    push32(&mut long, MAGIC);
    push32(&mut long, 0);
    push32(&mut long, 25);
    push32(&mut long, 0u32.wrapping_sub(MAGIC).wrapping_sub(25));
    long.extend(ending());
    assert_eq!(parse(long.clone()), None);
    long.push(0);
    assert!(parse(long).is_some());
}

#[test]
fn multiboot2_ending_tag_test() {
    assert!(ending_tag(0, 8));
    assert!(!ending_tag(0, 0));
    assert!(!ending_tag(0, 16));
    assert!(!ending_tag(1, 8));
    assert!(!ending_tag(0xffff, 8));
}

#[test]
fn multiboot2_flags_keep_every_bit() {
    assert_eq!(Flags::from_bits_truncate(0xffff).bits(), 0xffff);
    assert_eq!(Flags::from_bits_truncate(0x8000).bits(), 0x8000);
    assert!(Flags::from_bits_truncate(3).contains(OPTIONAL));
    assert!(!Flags::from_bits_truncate(2).contains(OPTIONAL));
    assert_eq!(Flags { bits: 1 }.names(), vec!["optional"]);
    assert_eq!(Flags { bits: 0xfffe }.names(), vec!["required"]);
}

#[test]
fn multiboot2_variant_names() {
    assert_eq!(TagVariant::InformationRequest { mbi_tag_types: vec![] }.name(), "Information Request");
    assert_eq!(
        TagVariant::Address { header_addr: 0, load_addr: 0, load_end_addr: 0, bss_end_addr: 0 }.name(),
        "Address"
    );
    assert_eq!(TagVariant::Entry { entry_addr: 0 }.name(), "Entry");
    assert_eq!(TagVariant::EfiI386Entry { entry_addr: 0 }.name(), "EFI i386 Entry");
    assert_eq!(TagVariant::EfiAmd64Entry { entry_addr: 0 }.name(), "EFI amd64 Entry");
    assert_eq!(TagVariant::Flags { console_flags: 0 }.name(), "Flags");
    assert_eq!(TagVariant::Framebuffer { width: 0, height: 0, depth: 0 }.name(), "Framebuffer");
    assert_eq!(TagVariant::EfiBootServices.name(), "EFI Boot Services");
    assert_eq!(TagVariant::ModuleAlignment.name(), "Module Alignment");
    assert_eq!(TagVariant::Relocatable { min_addr: 0, max_addr: 0, align: 0, preference: 0 }.name(), "Relocatable");
    assert_eq!(TagVariant::Unknown.name(), "Unknown");
}

#[test]
fn multiboot2_lines_of_header_and_tags() {
    let mut stream = tag(5, 1, 20, &[1024, 768, 32]);
    stream.extend(tag(10, 0, 24, &[0x100000, 0x200000, 4096, 1]));
    stream.extend(tag(1, 0, 16, &[3, 4]));
    stream.extend(tag(6, 0, 8, &[]));
    stream.extend(ending());
    let header = parse(image(0, &stream)).unwrap();
    let lines = header.lines();
    let shape: Vec<(u8, &str)> = lines.iter().map(|line| (line.indent, line.label)).collect();
    assert_eq!(
        shape,
        vec![
            (0, "Multiboot2 Header"),
            (1, "Magic"),
            (1, "Arch"),
            (1, "Header Len"),
            (1, "Checksum"),
            (1, "Tag"),
            (2, "Flags"),
            (2, "Size"),
            (2, "Width"),
            (2, "Height"),
            (2, "Depth"),
            (1, "Tag"),
            (2, "Flags"),
            (2, "Size"),
            (2, "Min Addr"),
            (2, "Max Addr"),
            (2, "Align"),
            (2, "Preference"),
            (1, "Tag"),
            (2, "Flags"),
            (2, "Size"),
            (2, "Types"),
            (1, "Tag"),
            (2, "Flags"),
            (2, "Size"),
        ]
    );
    assert_eq!(lines[1].value, Value::Hex { value: 0xE85250D6, digits: 8 });
    assert_eq!(lines[3].value, Value::Hex { value: 16 + stream.len() as u64, digits: 8 });
    assert_eq!(lines[5].value, Value::Coded { name: "Framebuffer", code: 5 });
    assert_eq!(lines[6].value, Value::Flagged { names: vec!["optional"], bits: 1, digits: 4 });
    assert_eq!(lines[7].value, Value::Bytes(20));
    assert_eq!(lines[8].value, Value::Number(1024));
    assert_eq!(lines[12].value, Value::Flagged { names: vec!["required"], bits: 0, digits: 4 });
    assert_eq!(lines[14].value, Value::Hex { value: 0x100000, digits: 1 });
    assert_eq!(lines[17].value, Value::Word("minimum"));
    assert_eq!(lines[21].value, Value::Codes(vec![3, 4]));
    assert_eq!(lines[22].value, Value::Coded { name: "Module Alignment", code: 6 });
}

#[test]
fn multiboot2_preference_names() {
    for (code, name) in [(0u32, "none"), (1, "minimum"), (2, "maximum"), (3, "unknown")] {
        let tag = Tag {
            typ: 10,
            flags: Flags { bits: 0 },
            size: 24,
            variant: TagVariant::Relocatable { min_addr: 0, max_addr: 0, align: 0, preference: code },
        };
        let mut lines = Vec::new();
        tag.put_lines(&mut lines);
        assert_eq!(lines.len(), 7);
        assert_eq!(lines[6].label, "Preference");
        assert_eq!(lines[6].value, Value::Word(name));
    }
}
