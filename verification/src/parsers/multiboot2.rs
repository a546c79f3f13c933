//! Multiboot2: a fixed header of four words followed by a stream of tagged,
//! padded records that ends with a sentinel tag.

use vstd::prelude::*;
use crate::parsers::{Descriptor, Protocol};
use crate::report::{line, line_views, put, word_views, Line, LineView, Value, ValueView};
use crate::window::{
    at_offset, contents, first_magic, has_magic, le16, le32, no_magic_no_first, open, read_u16,
    read_u32, remaining, seek_magic, skip,
};

verus! {

/// The word that opens a Multiboot2 header.
pub const MAGIC: u32 = 0xE85250D6;

/// Tag flag: the boot loader may ignore the tag when it does not support it.
pub const OPTIONAL: u16 = 0x0001;

/// Tag flags to which the format gives no meaning.
pub const UNKNOWN_FLAGS: u16 = 0xfffe;

pub const TAG_ENDING: u16 = 0;
pub const TAG_INFORMATION_REQUEST: u16 = 1;
pub const TAG_ADDRESS: u16 = 2;
pub const TAG_ENTRY_ADDRESS: u16 = 3;
pub const TAG_FLAGS: u16 = 4;
pub const TAG_FRAMEBUFFER: u16 = 5;
pub const TAG_MODULE_ALIGNMENT: u16 = 6;
pub const TAG_EFI_BOOT_SERVICES: u16 = 7;
pub const TAG_EFI_I386_ENTRY_ADDRESS: u16 = 8;
pub const TAG_EFI_AMD64_ENTRY_ADDRESS: u16 = 9;
pub const TAG_RELOCATABLE: u16 = 10;

/// The flag bits of one tag.
#[derive(Clone, Copy, Debug, PartialEq, Eq, Structural)]
pub struct Flags {
    pub bits: u16,
}

impl Flags {
    /// The flag set with exactly the bits of `bits`: every bit of a 16-bit
    /// word is either `OPTIONAL` or one of `UNKNOWN_FLAGS`, so none is dropped.
    pub fn from_bits_truncate(bits: u16) -> (flags: Flags)
        ensures
            flags.bits == bits,
    {
        assert(bits & (OPTIONAL | UNKNOWN_FLAGS) == bits) by (bit_vector);
        Flags { bits: bits & (OPTIONAL | UNKNOWN_FLAGS) }
    }

    /// The raw bits.
    pub fn bits(&self) -> (bits: u16)
        ensures
            bits == self.bits,
    {
        self.bits
    }

    /// Every bit of `mask` is set.
    pub open spec fn has(self, mask: u16) -> bool {
        self.bits & mask == mask
    }

    /// Whether every bit of `mask` is set.
    pub fn contains(&self, mask: u16) -> (all: bool)
        ensures
            all == self.has(mask),
    {
        self.bits & mask == mask
    }

    /// The one name under which the flags are shown: a tag is optional or
    /// it is required.
    pub open spec fn set_names(self) -> Seq<Seq<char>> {
        if self.has(OPTIONAL) {
            seq!["optional"@]
        } else {
            seq!["required"@]
        }
    }

    /// The name under which the flags are shown.
    pub fn names(&self) -> (names: Vec<&'static str>)
        ensures
            word_views(names@) == self.set_names(),
    {
        let mut names: Vec<&'static str> = Vec::new();
        if self.contains(OPTIONAL) {
            names.push("optional");
        } else {
            names.push("required");
        }
        assert(word_views(names@) =~= self.set_names());
        names
    }
}

/// What a tag carries, by its type code.
#[derive(Debug, PartialEq, Eq)]
pub enum TagVariant {
    InformationRequest { mbi_tag_types: Vec<u32> },
    Address { header_addr: u32, load_addr: u32, load_end_addr: u32, bss_end_addr: u32 },
    Entry { entry_addr: u32 },
    EfiI386Entry { entry_addr: u32 },
    EfiAmd64Entry { entry_addr: u32 },
    Flags { console_flags: u32 },
    Framebuffer { width: u32, height: u32, depth: u32 },
    EfiBootServices,
    ModuleAlignment,
    Relocatable { min_addr: u32, max_addr: u32, align: u32, preference: u32 },
    Unknown,
}

/// The mathematical value of a [`TagVariant`].
pub enum TagVariantView {
    InformationRequest { mbi_tag_types: Seq<u32> },
    Address { header_addr: u32, load_addr: u32, load_end_addr: u32, bss_end_addr: u32 },
    Entry { entry_addr: u32 },
    EfiI386Entry { entry_addr: u32 },
    EfiAmd64Entry { entry_addr: u32 },
    Flags { console_flags: u32 },
    Framebuffer { width: u32, height: u32, depth: u32 },
    EfiBootServices,
    ModuleAlignment,
    Relocatable { min_addr: u32, max_addr: u32, align: u32, preference: u32 },
    Unknown,
}

impl View for TagVariant {
    type V = TagVariantView;

    open spec fn view(&self) -> TagVariantView {
        match *self {
            TagVariant::InformationRequest { mbi_tag_types } => TagVariantView::InformationRequest {
                mbi_tag_types: mbi_tag_types@,
            },
            TagVariant::Address { header_addr, load_addr, load_end_addr, bss_end_addr } => TagVariantView::Address {
                header_addr,
                load_addr,
                load_end_addr,
                bss_end_addr,
            },
            TagVariant::Entry { entry_addr } => TagVariantView::Entry { entry_addr },
            TagVariant::EfiI386Entry { entry_addr } => TagVariantView::EfiI386Entry { entry_addr },
            TagVariant::EfiAmd64Entry { entry_addr } => TagVariantView::EfiAmd64Entry { entry_addr },
            TagVariant::Flags { console_flags } => TagVariantView::Flags { console_flags },
            TagVariant::Framebuffer { width, height, depth } => TagVariantView::Framebuffer { width, height, depth },
            TagVariant::EfiBootServices => TagVariantView::EfiBootServices,
            TagVariant::ModuleAlignment => TagVariantView::ModuleAlignment,
            TagVariant::Relocatable { min_addr, max_addr, align, preference } => TagVariantView::Relocatable {
                min_addr,
                max_addr,
                align,
                preference,
            },
            TagVariant::Unknown => TagVariantView::Unknown,
        }
    }
}

/// One record of the tag stream.
#[derive(Debug, PartialEq, Eq)]
pub struct Tag {
    pub typ: u16,
    pub flags: Flags,
    /// The record's length in bytes, its own eight-byte header included.
    pub size: u32,
    pub variant: TagVariant,
}

/// The mathematical value of a [`Tag`].
pub struct TagView {
    pub typ: u16,
    pub flags: Flags,
    pub size: u32,
    pub variant: TagVariantView,
}

impl View for Tag {
    type V = TagView;

    open spec fn view(&self) -> TagView {
        TagView { typ: self.typ, flags: self.flags, size: self.size, variant: self.variant@ }
    }
}

/// A decoded Multiboot2 header: the four fixed words and the tags in stream
/// order, the ending tag left out.
#[derive(Debug, PartialEq, Eq)]
pub struct Header {
    pub magic: u32,
    pub architecture: u32,
    pub header_length: u32,
    pub checksum: u32,
    pub tags: Vec<Tag>,
}

/// The mathematical value of a [`Header`].
pub struct HeaderView {
    pub magic: u32,
    pub architecture: u32,
    pub header_length: u32,
    pub checksum: u32,
    pub tags: Seq<TagView>,
}

/// The values of a sequence of tags, in order.
pub open spec fn tag_views(tags: Seq<Tag>) -> Seq<TagView> {
    Seq::new(tags.len(), |i: int| tags[i]@)
}

impl View for Header {
    type V = HeaderView;

    open spec fn view(&self) -> HeaderView {
        HeaderView {
            magic: self.magic,
            architecture: self.architecture,
            header_length: self.header_length,
            checksum: self.checksum,
            tags: tag_views(self.tags@),
        }
    }
}

/// The sentinel that closes a tag stream: type 0 with a size of exactly 8.
pub open spec fn is_ending_tag(typ: u16, size: u32) -> bool {
    typ == TAG_ENDING && size == 8
}

/// Whether a tag header is the sentinel that closes the stream.
pub fn ending_tag(typ: u16, size: u32) -> (ending: bool)
    ensures
        ending == is_ending_tag(typ, size),
{
    typ == TAG_ENDING && size == 8
}

/// `size` rounded up to the next multiple of 8: the bytes that a tag of that
/// size takes in the stream, its padding included.
pub open spec fn round_up8(size: int) -> int {
    size + (8 - size % 8) % 8
}

/// `round_up8` gives the least multiple of 8 that is not below `size`.
pub proof fn round_up8_is_next_multiple(size: int)
    requires
        0 <= size,
    ensures
        round_up8(size) % 8 == 0,
        size <= round_up8(size) < size + 8,
{
}

/// The bytes of payload that a tag of this type must at least declare: the
/// width of its fixed fields.
pub open spec fn fixed_len(typ: u16) -> int {
    if typ == TAG_ADDRESS || typ == TAG_RELOCATABLE {
        16
    } else if typ == TAG_FRAMEBUFFER {
        12
    } else if typ == TAG_ENTRY_ADDRESS || typ == TAG_FLAGS || typ == TAG_EFI_I386_ENTRY_ADDRESS || typ
        == TAG_EFI_AMD64_ENTRY_ADDRESS {
        4
    } else {
        0
    }
}

/// The payload of a tag of type `typ` and size `size` whose payload starts at
/// byte `at` of `s`. Fields are little-endian words in stream order; an
/// information request holds as many whole words as its payload has; a type
/// that is not known carries nothing.
pub open spec fn variant_at(s: Seq<u8>, typ: u16, size: u32, at: int) -> TagVariantView {
    if typ == TAG_INFORMATION_REQUEST {
        TagVariantView::InformationRequest {
            mbi_tag_types: Seq::new(((size - 8) / 4) as nat, |i: int| le32(s, at + 4 * i)),
        }
    } else if typ == TAG_ADDRESS {
        TagVariantView::Address {
            header_addr: le32(s, at),
            load_addr: le32(s, at + 4),
            load_end_addr: le32(s, at + 8),
            bss_end_addr: le32(s, at + 12),
        }
    } else if typ == TAG_ENTRY_ADDRESS {
        TagVariantView::Entry { entry_addr: le32(s, at) }
    } else if typ == TAG_FLAGS {
        TagVariantView::Flags { console_flags: le32(s, at) }
    } else if typ == TAG_FRAMEBUFFER {
        TagVariantView::Framebuffer { width: le32(s, at), height: le32(s, at + 4), depth: le32(s, at + 8) }
    } else if typ == TAG_MODULE_ALIGNMENT {
        TagVariantView::ModuleAlignment
    } else if typ == TAG_EFI_BOOT_SERVICES {
        TagVariantView::EfiBootServices
    } else if typ == TAG_EFI_I386_ENTRY_ADDRESS {
        TagVariantView::EfiI386Entry { entry_addr: le32(s, at) }
    } else if typ == TAG_EFI_AMD64_ENTRY_ADDRESS {
        TagVariantView::EfiAmd64Entry { entry_addr: le32(s, at) }
    } else if typ == TAG_RELOCATABLE {
        TagVariantView::Relocatable {
            min_addr: le32(s, at),
            max_addr: le32(s, at + 4),
            align: le32(s, at + 8),
            preference: le32(s, at + 12),
        }
    } else {
        TagVariantView::Unknown
    }
}

/// The tag whose header starts at byte `at` of `s`.
pub open spec fn tag_at(s: Seq<u8>, at: int) -> TagView {
    TagView {
        typ: le16(s, at),
        flags: Flags { bits: le16(s, at + 2) },
        size: le32(s, at + 4),
        variant: variant_at(s, le16(s, at), le32(s, at + 4), at + 8),
    }
}

/// A tag header of type `typ` and size `size` at byte `at` of `s` opens a
/// record that can be decoded: the size covers the header and the fixed
/// fields of the type, and the record with its padding lies inside `s`.
pub open spec fn tag_fits(s: Seq<u8>, typ: u16, size: u32, at: int) -> bool {
    size >= 8 && size - 8 >= fixed_len(typ) && at + round_up8(size as int) <= s.len()
}

/// The walk over the tag stream that starts at byte `at` of `s`: the tags
/// before the ending tag, and the offset just behind the ending tag. `None`
/// when `s` ends before an ending tag is met, or a record cannot be decoded.
pub open spec fn walk(s: Seq<u8>, at: int) -> Option<(Seq<TagView>, int)>
    decreases s.len() - at,
{
    if at < 0 || at + 8 > s.len() {
        None
    } else if is_ending_tag(le16(s, at), le32(s, at + 4)) {
        Some((Seq::empty(), at + 8))
    } else if !tag_fits(s, le16(s, at), le32(s, at + 4), at) {
        None
    } else {
        match walk(s, at + round_up8(le32(s, at + 4) as int)) {
            Some((rest, end)) => Some((seq![tag_at(s, at)] + rest, end)),
            None => None,
        }
    }
}

/// The four header words sum to zero modulo 2^32.
pub open spec fn checksum_ok(architecture: u32, header_length: u32, checksum: u32) -> bool {
    (MAGIC + architecture + header_length + checksum) % 0x1_0000_0000 == 0
}

/// The header that the bytes `s` decode to, if any.
///
/// The magic is looked for in the aligned words of `s`; the first one found
/// decides. Three more words must follow it, the four must sum to zero, the
/// declared length must cover the four words, `s` must hold as many bytes
/// behind them as the length declares, and the tag stream must reach its
/// ending tag inside `s`.
pub open spec fn decode(s: Seq<u8>) -> Option<HeaderView> {
    match first_magic(s, MAGIC, 0) {
        None => None,
        Some(word) => {
            let at = 4 * word + 4;
            let architecture = le32(s, at);
            let header_length = le32(s, at + 4);
            let checksum = le32(s, at + 8);
            if at + 12 > s.len() || !checksum_ok(architecture, header_length, checksum) || header_length < 16
                || s.len() - (at + 12) < header_length - 16 {
                None
            } else {
                match walk(s, at + 12) {
                    Some((tags, end)) => Some(
                        HeaderView { magic: MAGIC, architecture, header_length, checksum, tags },
                    ),
                    None => None,
                }
            }
        },
    }
}

/// The offset in `s` at which the tag stream of its header starts: behind
/// the first magic word and the three words that follow it.
pub open spec fn stream_start(s: Seq<u8>) -> int {
    4 * first_magic(s, MAGIC, 0).unwrap() + 16
}

/// The bytes that the tags take in the stream: the sum of their sizes, each
/// rounded up to the next multiple of 8.
pub open spec fn padded_len(tags: Seq<TagView>) -> int
    decreases tags.len(),
{
    if tags.len() == 0 {
        0
    } else {
        round_up8(tags[0].size as int) + padded_len(tags.skip(1))
    }
}

/// A window without the magic in any aligned word decodes to nothing.
pub proof fn no_magic_no_header(s: Seq<u8>)
    requires
        !has_magic(s, MAGIC),
    ensures
        decode(s) is None,
{
    no_magic_no_first(s, MAGIC);
}

/// The magic, the architecture, the length and the checksum of a decoded
/// header sum to zero modulo 2^32.
pub proof fn checksum_invariant(s: Seq<u8>)
    requires
        decode(s) is Some,
    ensures
        decode(s).unwrap().magic == 0xE85250D6u32,
        (0xE85250D6 + decode(s).unwrap().architecture + decode(s).unwrap().header_length + decode(
            s,
        ).unwrap().checksum) % 0x1_0000_0000 == 0,
{
}

/// A walk that succeeds ends just behind an ending tag, and the bytes between
/// its start and its end are those of the tags it found, each rounded up to a
/// multiple of 8, and the 8 of the ending tag.
pub proof fn walk_offsets(s: Seq<u8>, start: int)
    requires
        walk(s, start) is Some,
    ensures
        walk(s, start).unwrap().1 == start + padded_len(walk(s, start).unwrap().0) + 8,
        walk(s, start).unwrap().1 <= s.len(),
        is_ending_tag(le16(s, walk(s, start).unwrap().1 - 8), le32(s, walk(s, start).unwrap().1 - 4)),
    decreases s.len() - start,
{
    if !is_ending_tag(le16(s, start), le32(s, start + 4)) {
        let next = start + round_up8(le32(s, start + 4) as int);
        walk_offsets(s, next);
        let rest = walk(s, next).unwrap().0;
        let tags = walk(s, start).unwrap().0;
        assert(tags =~= seq![tag_at(s, start)] + rest);
        assert(tags.skip(1) =~= rest);
    }
}

/// The tags of a decoded header are those of the walk from the start of its
/// tag stream, so the stream ends at the start plus the padded sizes of the
/// tags and of the ending tag, and its last record is an ending tag.
pub proof fn tag_walk_invariant(s: Seq<u8>)
    requires
        decode(s) is Some,
    ensures
        walk(s, stream_start(s)) is Some,
        walk(s, stream_start(s)).unwrap().0 == decode(s).unwrap().tags,
        walk(s, stream_start(s)).unwrap().1 == stream_start(s) + padded_len(decode(s).unwrap().tags) + 8,
        is_ending_tag(
            le16(s, walk(s, stream_start(s)).unwrap().1 - 8),
            le32(s, walk(s, stream_start(s)).unwrap().1 - 4),
        ),
{
    walk_offsets(s, stream_start(s));
}

/// The width of the fixed fields of a tag of type `typ`.
fn fixed_payload(typ: u16) -> (len: u32)
    ensures
        len == fixed_len(typ),
{
    if typ == TAG_ADDRESS || typ == TAG_RELOCATABLE {
        16
    } else if typ == TAG_FRAMEBUFFER {
        12
    } else if typ == TAG_ENTRY_ADDRESS || typ == TAG_FLAGS || typ == TAG_EFI_I386_ENTRY_ADDRESS || typ
        == TAG_EFI_AMD64_ENTRY_ADDRESS {
        4
    } else {
        0
    }
}

/// Reads `count` little-endian words that are known to be there.
fn words(
    cursor: &mut std::io::Cursor<bytes::Bytes>,
    count: u32,
    Ghost(s): Ghost<Seq<u8>>,
    Ghost(at): Ghost<int>,
) -> (values: Vec<u32>)
    requires
        at_offset(*old(cursor), s, at),
        at + 4 * count <= s.len(),
    ensures
        values@ =~= Seq::new(count as nat, |i: int| le32(s, at + 4 * i)),
        at_offset(*final(cursor), s, at + 4 * count),
{
    let mut values: Vec<u32> = Vec::new();
    let mut done: u32 = 0;
    while done < count
        invariant
            done <= count,
            at + 4 * count <= s.len(),
            at_offset(*cursor, s, at + 4 * done),
            values@ =~= Seq::new(done as nat, |i: int| le32(s, at + 4 * i)),
        decreases count - done,
    {
        let value = read_u32(cursor, Ghost(s), Ghost(at + 4 * done));
        values.push(value);
        done = done + 1;
    }
    values
}

/// Reads the payload of the tag whose header starts at byte `at` and has just
/// been read, and moves past what is left of the record and its padding.
fn read_variant(
    cursor: &mut std::io::Cursor<bytes::Bytes>,
    typ: u16,
    size: u32,
    Ghost(s): Ghost<Seq<u8>>,
    Ghost(at): Ghost<int>,
) -> (variant: TagVariant)
    requires
        at_offset(*old(cursor), s, at + 8),
        tag_fits(s, typ, size, at),
    ensures
        variant@ == variant_at(s, typ, size, at + 8),
        at_offset(*final(cursor), s, at + round_up8(size as int)),
{
    let ghost from = at + 8;
    let declared: u32 = size - 8;
    let read: u32 = if typ == TAG_INFORMATION_REQUEST {
        declared / 4 * 4
    } else {
        fixed_payload(typ)
    };
    let variant = if typ == TAG_INFORMATION_REQUEST {
        let mbi_tag_types = words(cursor, declared / 4, Ghost(s), Ghost(from));
        TagVariant::InformationRequest { mbi_tag_types }
    } else if typ == TAG_ADDRESS {
        let header_addr = read_u32(cursor, Ghost(s), Ghost(from));
        let load_addr = read_u32(cursor, Ghost(s), Ghost(from + 4));
        let load_end_addr = read_u32(cursor, Ghost(s), Ghost(from + 8));
        let bss_end_addr = read_u32(cursor, Ghost(s), Ghost(from + 12));
        TagVariant::Address { header_addr, load_addr, load_end_addr, bss_end_addr }
    } else if typ == TAG_ENTRY_ADDRESS {
        let entry_addr = read_u32(cursor, Ghost(s), Ghost(from));
        TagVariant::Entry { entry_addr }
    } else if typ == TAG_FLAGS {
        let console_flags = read_u32(cursor, Ghost(s), Ghost(from));
        TagVariant::Flags { console_flags }
    } else if typ == TAG_FRAMEBUFFER {
        let width = read_u32(cursor, Ghost(s), Ghost(from));
        let height = read_u32(cursor, Ghost(s), Ghost(from + 4));
        let depth = read_u32(cursor, Ghost(s), Ghost(from + 8));
        TagVariant::Framebuffer { width, height, depth }
    } else if typ == TAG_MODULE_ALIGNMENT {
        TagVariant::ModuleAlignment
    } else if typ == TAG_EFI_BOOT_SERVICES {
        TagVariant::EfiBootServices
    } else if typ == TAG_EFI_I386_ENTRY_ADDRESS {
        let entry_addr = read_u32(cursor, Ghost(s), Ghost(from));
        TagVariant::EfiI386Entry { entry_addr }
    } else if typ == TAG_EFI_AMD64_ENTRY_ADDRESS {
        let entry_addr = read_u32(cursor, Ghost(s), Ghost(from));
        TagVariant::EfiAmd64Entry { entry_addr }
    } else if typ == TAG_RELOCATABLE {
        let min_addr = read_u32(cursor, Ghost(s), Ghost(from));
        let max_addr = read_u32(cursor, Ghost(s), Ghost(from + 4));
        let align = read_u32(cursor, Ghost(s), Ghost(from + 8));
        let preference = read_u32(cursor, Ghost(s), Ghost(from + 12));
        TagVariant::Relocatable { min_addr, max_addr, align, preference }
    } else {
        TagVariant::Unknown
    };
    let padding: u32 = (8 - size % 8) % 8;
    let left: u64 = (declared - read) as u64 + padding as u64;
    skip(cursor, left as usize, Ghost(s), Ghost(from + read));
    variant
}

/// `walk(s, at)` with `before` put in front of its tags.
pub open spec fn walk_after(before: Seq<TagView>, s: Seq<u8>, at: int) -> Option<(Seq<TagView>, int)> {
    match walk(s, at) {
        Some((rest, end)) => Some((before + rest, end)),
        None => None,
    }
}

/// Walks the tag stream that starts at byte `start`, up to and including its
/// ending tag.
fn read_tags(
    cursor: &mut std::io::Cursor<bytes::Bytes>,
    Ghost(s): Ghost<Seq<u8>>,
    Ghost(start): Ghost<int>,
) -> (tags: Option<Vec<Tag>>)
    requires
        at_offset(*old(cursor), s, start),
    ensures
        match tags {
            Some(tags) => walk(s, start) matches Some((found, end)) && tag_views(tags@) == found && at_offset(
                *final(cursor),
                s,
                end,
            ),
            None => walk(s, start) is None,
        },
{
    let mut tags: Vec<Tag> = Vec::new();
    let ghost mut at = start;
    proof {
        assert(tag_views(tags@) =~= Seq::empty());
        assert(walk_after(Seq::empty(), s, at) == walk(s, at)) by {
            if let Some((rest, end)) = walk(s, at) {
                assert(Seq::<TagView>::empty() + rest =~= rest);
            }
        }
    }
    loop
        invariant
            at_offset(*cursor, s, at),
            walk(s, start) == walk_after(tag_views(tags@), s, at),
        decreases s.len() - at,
    {
        if remaining(cursor) < 8 {
            return None;
        }
        let typ = read_u16(cursor, Ghost(s), Ghost(at));
        let flags = read_u16(cursor, Ghost(s), Ghost(at + 2));
        let size = read_u32(cursor, Ghost(s), Ghost(at + 4));
        if ending_tag(typ, size) {
            proof {
                assert(tag_views(tags@) + Seq::<TagView>::empty() =~= tag_views(tags@));
            }
            return Some(tags);
        }
        if size < 8 || size - 8 < fixed_payload(typ) {
            return None;
        }
        let padded: u64 = size as u64 + ((8 - size % 8) % 8) as u64;
        if (remaining(cursor) as u64) < padded - 8 {
            return None;
        }
        let variant = read_variant(cursor, typ, size, Ghost(s), Ghost(at));
        let ghost before = tag_views(tags@);
        tags.push(Tag { typ, flags: Flags::from_bits_truncate(flags), size, variant });
        proof {
            let next = at + round_up8(size as int);
            assert(tag_views(tags@) =~= before + seq![tag_at(s, at)]);
            if let Some((rest, end)) = walk(s, next) {
                assert(before + (seq![tag_at(s, at)] + rest) =~= (before + seq![tag_at(s, at)]) + rest);
            }
            at = next;
        }
    }
}

impl Header {
    /// Decodes the Multiboot2 header in `buf`, if it holds one.
    pub fn parse(buf: bytes::Bytes) -> (header: Option<Header>)
        ensures
            match header {
                Some(header) => decode(contents(buf)) == Some(header@),
                None => decode(contents(buf)) is None,
            },
    {
        let ghost s = contents(buf);
        let mut cursor = open(buf);
        if !seek_magic(&mut cursor, MAGIC, Ghost(s)) {
            return None;
        }
        let ghost at = 4 * first_magic(s, MAGIC, 0).unwrap() + 4;
        if remaining(&cursor) < 12 {
            return None;
        }
        let architecture = read_u32(&mut cursor, Ghost(s), Ghost(at));
        let header_length = read_u32(&mut cursor, Ghost(s), Ghost(at + 4));
        let checksum = read_u32(&mut cursor, Ghost(s), Ghost(at + 8));
        if MAGIC.wrapping_add(architecture).wrapping_add(header_length).wrapping_add(checksum) != 0 {
            return None;
        }
        if header_length < 16 || (remaining(&cursor) as u64) < (header_length - 16) as u64 {
            return None;
        }
        match read_tags(&mut cursor, Ghost(s), Ghost(at + 12)) {
            Some(tags) => Some(Header { magic: MAGIC, architecture, header_length, checksum, tags }),
            None => None,
        }
    }
}

impl TagVariantView {
    /// The name of the kind of tag.
    pub open spec fn name(self) -> Seq<char> {
        match self {
            TagVariantView::InformationRequest { .. } => "Information Request"@,
            TagVariantView::Address { .. } => "Address"@,
            TagVariantView::Entry { .. } => "Entry"@,
            TagVariantView::EfiI386Entry { .. } => "EFI i386 Entry"@,
            TagVariantView::EfiAmd64Entry { .. } => "EFI amd64 Entry"@,
            TagVariantView::Flags { .. } => "Flags"@,
            TagVariantView::Framebuffer { .. } => "Framebuffer"@,
            TagVariantView::EfiBootServices => "EFI Boot Services"@,
            TagVariantView::ModuleAlignment => "Module Alignment"@,
            TagVariantView::Relocatable { .. } => "Relocatable"@,
            TagVariantView::Unknown => "Unknown"@,
        }
    }

    /// The lines that show the payload.
    pub open spec fn report(self) -> Seq<LineView> {
        match self {
            TagVariantView::InformationRequest { mbi_tag_types } => seq![
                line(2, "Types", ValueView::Codes(mbi_tag_types)),
            ],
            TagVariantView::Address { header_addr, load_addr, load_end_addr, bss_end_addr } => seq![
                line(2, "Header", ValueView::Hex { value: header_addr as u64, digits: 1 }),
                line(2, "Load", ValueView::Hex { value: load_addr as u64, digits: 1 }),
                line(2, "Load End", ValueView::Hex { value: load_end_addr as u64, digits: 1 }),
                line(2, "BSS End", ValueView::Hex { value: bss_end_addr as u64, digits: 1 }),
            ],
            TagVariantView::Entry { entry_addr } => seq![
                line(2, "Entry", ValueView::Hex { value: entry_addr as u64, digits: 1 }),
            ],
            TagVariantView::EfiI386Entry { entry_addr } => seq![
                line(2, "Entry", ValueView::Hex { value: entry_addr as u64, digits: 1 }),
            ],
            TagVariantView::EfiAmd64Entry { entry_addr } => seq![
                line(2, "Entry", ValueView::Hex { value: entry_addr as u64, digits: 1 }),
            ],
            TagVariantView::Flags { console_flags } => seq![
                line(2, "Console", ValueView::Hex { value: console_flags as u64, digits: 1 }),
            ],
            TagVariantView::Framebuffer { width, height, depth } => seq![
                line(2, "Width", ValueView::Number(width as u64)),
                line(2, "Height", ValueView::Number(height as u64)),
                line(2, "Depth", ValueView::Number(depth as u64)),
            ],
            TagVariantView::Relocatable { min_addr, max_addr, align, preference } => seq![
                line(2, "Min Addr", ValueView::Hex { value: min_addr as u64, digits: 1 }),
                line(2, "Max Addr", ValueView::Hex { value: max_addr as u64, digits: 1 }),
                line(2, "Align", ValueView::Hex { value: align as u64, digits: 1 }),
                line(2, "Preference", ValueView::Word(preference_name(preference))),
            ],
            _ => seq![],
        }
    }
}

/// The name of a load preference of a relocatable image.
pub open spec fn preference_name(preference: u32) -> Seq<char> {
    if preference == 0 {
        "none"@
    } else if preference == 1 {
        "minimum"@
    } else if preference == 2 {
        "maximum"@
    } else {
        "unknown"@
    }
}

impl TagVariant {
    /// The name of the kind of tag.
    pub fn name(&self) -> (name: &'static str)
        ensures
            name@ == self@.name(),
    {
        match self {
            TagVariant::InformationRequest { .. } => "Information Request",
            TagVariant::Address { .. } => "Address",
            TagVariant::Entry { .. } => "Entry",
            TagVariant::EfiI386Entry { .. } => "EFI i386 Entry",
            TagVariant::EfiAmd64Entry { .. } => "EFI amd64 Entry",
            TagVariant::Flags { .. } => "Flags",
            TagVariant::Framebuffer { .. } => "Framebuffer",
            TagVariant::EfiBootServices => "EFI Boot Services",
            TagVariant::ModuleAlignment => "Module Alignment",
            TagVariant::Relocatable { .. } => "Relocatable",
            TagVariant::Unknown => "Unknown",
        }
    }
}

impl TagView {
    /// The lines that the tag shows: its kind and type code, its flags, its
    /// size, and its payload.
    pub open spec fn report(self) -> Seq<LineView> {
        seq![
            line(1, "Tag", ValueView::Coded { name: self.variant.name(), code: self.typ as u32 }),
            line(
                2,
                "Flags",
                ValueView::Flagged { names: self.flags.set_names(), bits: self.flags.bits as u32, digits: 4 },
            ),
            line(2, "Size", ValueView::Bytes(self.size as u64)),
        ] + self.variant.report()
    }
}

impl Tag {
    /// Appends the lines that the tag shows to `lines`.
    pub fn put_lines(&self, lines: &mut Vec<Line>)
        ensures
            line_views(final(lines)@) == line_views(old(lines)@) + self@.report(),
    {
        put(lines, 1, "Tag", Value::Coded { name: self.variant.name(), code: self.typ as u32 });
        put(lines, 2, "Flags", Value::Flagged { names: self.flags.names(), bits: self.flags.bits() as u32, digits: 4 });
        put(lines, 2, "Size", Value::Bytes(self.size as u64));
        match &self.variant {
            TagVariant::InformationRequest { mbi_tag_types } => {
                put(lines, 2, "Types", Value::Codes(mbi_tag_types.clone()));
            },
            TagVariant::Address { header_addr, load_addr, load_end_addr, bss_end_addr } => {
                put(lines, 2, "Header", Value::Hex { value: *header_addr as u64, digits: 1 });
                put(lines, 2, "Load", Value::Hex { value: *load_addr as u64, digits: 1 });
                put(lines, 2, "Load End", Value::Hex { value: *load_end_addr as u64, digits: 1 });
                put(lines, 2, "BSS End", Value::Hex { value: *bss_end_addr as u64, digits: 1 });
            },
            TagVariant::Entry { entry_addr } => {
                put(lines, 2, "Entry", Value::Hex { value: *entry_addr as u64, digits: 1 });
            },
            TagVariant::EfiI386Entry { entry_addr } => {
                put(lines, 2, "Entry", Value::Hex { value: *entry_addr as u64, digits: 1 });
            },
            TagVariant::EfiAmd64Entry { entry_addr } => {
                put(lines, 2, "Entry", Value::Hex { value: *entry_addr as u64, digits: 1 });
            },
            TagVariant::Flags { console_flags } => {
                put(lines, 2, "Console", Value::Hex { value: *console_flags as u64, digits: 1 });
            },
            TagVariant::Framebuffer { width, height, depth } => {
                put(lines, 2, "Width", Value::Number(*width as u64));
                put(lines, 2, "Height", Value::Number(*height as u64));
                put(lines, 2, "Depth", Value::Number(*depth as u64));
            },
            TagVariant::Relocatable { min_addr, max_addr, align, preference } => {
                put(lines, 2, "Min Addr", Value::Hex { value: *min_addr as u64, digits: 1 });
                put(lines, 2, "Max Addr", Value::Hex { value: *max_addr as u64, digits: 1 });
                put(lines, 2, "Align", Value::Hex { value: *align as u64, digits: 1 });
                let name = if *preference == 0 {
                    "none"
                } else if *preference == 1 {
                    "minimum"
                } else if *preference == 2 {
                    "maximum"
                } else {
                    "unknown"
                };
                put(lines, 2, "Preference", Value::Word(name));
            },
            _ => {},
        }
        assert(line_views(lines@) =~= line_views(old(lines)@) + self@.report());
    }
}

/// The lines of the tags of `tags`, tag after tag.
pub open spec fn tags_report(tags: Seq<TagView>) -> Seq<LineView>
    decreases tags.len(),
{
    if tags.len() == 0 {
        seq![]
    } else {
        tags_report(tags.drop_last()) + tags.last().report()
    }
}

impl HeaderView {
    /// The lines that the header shows: its four words, then its tags in
    /// stream order.
    pub open spec fn report(self) -> Seq<LineView> {
        seq![
            line(0, "Multiboot2 Header", ValueView::Heading),
            line(1, "Magic", ValueView::Hex { value: self.magic as u64, digits: 8 }),
            line(1, "Arch", ValueView::Hex { value: self.architecture as u64, digits: 8 }),
            line(1, "Header Len", ValueView::Hex { value: self.header_length as u64, digits: 8 }),
            line(1, "Checksum", ValueView::Hex { value: self.checksum as u64, digits: 8 }),
        ] + tags_report(self.tags)
    }
}

impl Header {
    /// The lines that the header shows.
    pub fn lines(&self) -> (lines: Vec<Line>)
        ensures
            line_views(lines@) == self@.report(),
    {
        let mut lines: Vec<Line> = Vec::new();
        put(&mut lines, 0, "Multiboot2 Header", Value::Heading);
        put(&mut lines, 1, "Magic", Value::Hex { value: self.magic as u64, digits: 8 });
        put(&mut lines, 1, "Arch", Value::Hex { value: self.architecture as u64, digits: 8 });
        put(&mut lines, 1, "Header Len", Value::Hex { value: self.header_length as u64, digits: 8 });
        put(&mut lines, 1, "Checksum", Value::Hex { value: self.checksum as u64, digits: 8 });
        let ghost head = line_views(lines@);
        let mut i: usize = 0;
        assert(tag_views(self.tags@).take(0) =~= seq![]);
        assert(head + tags_report(seq![]) =~= head);
        while i < self.tags.len()
            invariant
                i <= self.tags.len(),
                line_views(lines@) == head + tags_report(tag_views(self.tags@).take(i as int)),
            decreases self.tags.len() - i,
        {
            let ghost before = tags_report(tag_views(self.tags@).take(i as int));
            self.tags[i].put_lines(&mut lines);
            proof {
                let upto = tag_views(self.tags@).take(i + 1);
                assert(upto.drop_last() =~= tag_views(self.tags@).take(i as int));
                assert(upto.last() == self.tags@[i as int]@);
                let added = self.tags@[i as int]@.report();
                assert((head + before) + added =~= head + (before + added));
            }
            i = i + 1;
        }
        assert(tag_views(self.tags@).take(self.tags.len() as int) =~= tag_views(self.tags@));
        assert(line_views(lines@) =~= self@.report());
        lines
    }
}

/// The registry entry of this protocol: its header lies within the first
/// 32768 bytes of an image.
pub open spec fn descriptor() -> Descriptor {
    Descriptor { name: "multiboot2", max_range: 32768, protocol: Protocol::Multiboot2 }
}

/// Appends the registry entry of this protocol to `descs`.
pub fn register(descs: &mut Vec<Descriptor>)
    ensures
        final(descs)@ == old(descs)@.push(descriptor()),
{
    descs.push(Descriptor { name: "multiboot2", max_range: 32768, protocol: Protocol::Multiboot2 })
}

} // verus!
