//! Multiboot: a header of twelve words that opens with a magic word and
//! whose first three words sum to zero.

use vstd::prelude::*;
use crate::parsers::{Descriptor, Protocol};
use crate::report::{line, line_views, put, word_views, Line, LineView, Value, ValueView};
use crate::window::{
    at_offset, contents, first_magic, has_magic, le32, no_magic_no_first, open, read_u32,
    remaining, seek_magic,
};

verus! {

/// The word that opens a Multiboot header.
pub const MAGIC: u32 = 0x1BADB002;

/// Header flag: modules are to be loaded on page boundaries.
pub const PAGE_ALIGNED_MODULES: u32 = 0x0000_0001;

/// Header flag: the kernel asks for the memory map.
pub const REQUEST_MEMORY_MAP: u32 = 0x0000_0002;

/// Header flag: the kernel asks for a video mode; the graphics fields count.
pub const REQUEST_VIDEO_MODE: u32 = 0x0000_0004;

/// Header flag: the address fields of the header count.
pub const ENTRY_ADDRS_VALID: u32 = 0x0001_0000;

/// Header flags to which the format gives no meaning.
pub const UNKNOWN_FLAGS: u32 = 0xfffe_fff8;

/// Graphics mode type: linear graphics.
pub const GRAPHICS_MODE_TYPE_LINEAR: u32 = 0;

/// Graphics mode type: EGA text.
pub const GRAPHICS_MODE_TYPE_EGA_TEXT: u32 = 1;

/// Width, height or depth for which the kernel states no preference.
pub const GRAPHICS_NO_PREFERENCE: u32 = 0;

/// The flag word of a header.
#[derive(Clone, Copy, Debug, PartialEq, Eq, Structural)]
pub struct Flags {
    pub bits: u32,
}

impl Flags {
    /// The flag set with exactly the bits of `bits`: every bit of a 32-bit
    /// word is one of the named flags or one of `UNKNOWN_FLAGS`, so none is
    /// dropped.
    pub fn from_bits_truncate(bits: u32) -> (flags: Flags)
        ensures
            flags.bits == bits,
    {
        assert(bits & (PAGE_ALIGNED_MODULES | REQUEST_MEMORY_MAP | REQUEST_VIDEO_MODE | ENTRY_ADDRS_VALID
            | UNKNOWN_FLAGS) == bits) by (bit_vector);
        Flags {
            bits: bits & (PAGE_ALIGNED_MODULES | REQUEST_MEMORY_MAP | REQUEST_VIDEO_MODE | ENTRY_ADDRS_VALID
                | UNKNOWN_FLAGS),
        }
    }

    /// The raw bits.
    pub fn bits(&self) -> (bits: u32)
        ensures
            bits == self.bits,
    {
        self.bits
    }

    /// Every bit of `mask` is set.
    pub open spec fn has(self, mask: u32) -> bool {
        self.bits & mask == mask
    }

    /// Whether every bit of `mask` is set.
    pub fn contains(&self, mask: u32) -> (all: bool)
        ensures
            all == self.has(mask),
    {
        self.bits & mask == mask
    }

    /// The names of the flags that are set, the named flags only, in the
    /// order of their bits.
    pub open spec fn set_names(self) -> Seq<Seq<char>> {
        (if self.has(PAGE_ALIGNED_MODULES) {
            seq!["page-aligned-modules"@]
        } else {
            seq![]
        }) + (if self.has(REQUEST_MEMORY_MAP) {
            seq!["request-memory-map"@]
        } else {
            seq![]
        }) + (if self.has(REQUEST_VIDEO_MODE) {
            seq!["request-video-mode"@]
        } else {
            seq![]
        }) + (if self.has(ENTRY_ADDRS_VALID) {
            seq!["entry-addrs-valid"@]
        } else {
            seq![]
        })
    }

    /// The names of the flags that are set.
    pub fn names(&self) -> (names: Vec<&'static str>)
        ensures
            word_views(names@) == self.set_names(),
    {
        let mut names: Vec<&'static str> = Vec::new();
        if self.contains(PAGE_ALIGNED_MODULES) {
            names.push("page-aligned-modules");
        }
        if self.contains(REQUEST_MEMORY_MAP) {
            names.push("request-memory-map");
        }
        if self.contains(REQUEST_VIDEO_MODE) {
            names.push("request-video-mode");
        }
        if self.contains(ENTRY_ADDRS_VALID) {
            names.push("entry-addrs-valid");
        }
        assert(word_views(names@) =~= self.set_names());
        names
    }
}

/// A decoded Multiboot header. The nine words behind the checksum are always
/// there; the flags say which of them count.
#[derive(Clone, Copy, Debug, PartialEq, Eq, Structural)]
pub struct Header {
    pub magic: u32,
    pub flags: Flags,
    pub checksum: u32,
    pub header_addr: u32,
    pub load_addr: u32,
    pub load_end_addr: u32,
    pub bss_end_addr: u32,
    pub entry_addr: u32,
    pub mode_type: u32,
    pub width: u32,
    pub height: u32,
    pub depth: u32,
}

/// The magic, the flags and the checksum sum to zero modulo 2^32.
pub open spec fn checksum_ok(flags: u32, checksum: u32) -> bool {
    (MAGIC + flags + checksum) % 0x1_0000_0000 == 0
}

/// The header that the bytes `s` decode to, if any.
///
/// The magic is looked for in the aligned words of `s`; the first one found
/// decides. Eleven more words must follow it, and the magic, the flags and
/// the checksum must sum to zero.
pub open spec fn decode(s: Seq<u8>) -> Option<Header> {
    match first_magic(s, MAGIC, 0) {
        None => None,
        Some(word) => {
            let at = 4 * word + 4;
            if at + 44 > s.len() || !checksum_ok(le32(s, at), le32(s, at + 4)) {
                None
            } else {
                Some(
                    Header {
                        magic: MAGIC,
                        flags: Flags { bits: le32(s, at) },
                        checksum: le32(s, at + 4),
                        header_addr: le32(s, at + 8),
                        load_addr: le32(s, at + 12),
                        load_end_addr: le32(s, at + 16),
                        bss_end_addr: le32(s, at + 20),
                        entry_addr: le32(s, at + 24),
                        mode_type: le32(s, at + 28),
                        width: le32(s, at + 32),
                        height: le32(s, at + 36),
                        depth: le32(s, at + 40),
                    },
                )
            }
        },
    }
}

/// A window without the magic in any aligned word decodes to nothing.
pub proof fn no_magic_no_header(s: Seq<u8>)
    requires
        !has_magic(s, MAGIC),
    ensures
        decode(s) is None,
{
    no_magic_no_first(s, MAGIC);
}

/// The magic, the flags and the checksum of a decoded header sum to zero
/// modulo 2^32.
pub proof fn checksum_invariant(s: Seq<u8>)
    requires
        decode(s) is Some,
    ensures
        decode(s).unwrap().magic == 0x1BADB002u32,
        (0x1BADB002 + decode(s).unwrap().flags.bits + decode(s).unwrap().checksum) % 0x1_0000_0000 == 0,
{
}

impl Header {
    /// Decodes the Multiboot header in `buf`, if it holds one.
    pub fn parse(buf: bytes::Bytes) -> (header: Option<Header>)
        ensures
            header == decode(contents(buf)),
    {
        let ghost s = contents(buf);
        let mut cursor = open(buf);
        if !seek_magic(&mut cursor, MAGIC, Ghost(s)) {
            return None;
        }
        let ghost at = 4 * first_magic(s, MAGIC, 0).unwrap() + 4;
        if remaining(&cursor) < 44 {
            return None;
        }
        let flags = read_u32(&mut cursor, Ghost(s), Ghost(at));
        let checksum = read_u32(&mut cursor, Ghost(s), Ghost(at + 4));
        if MAGIC.wrapping_add(flags).wrapping_add(checksum) != 0 {
            return None;
        }
        let header_addr = read_u32(&mut cursor, Ghost(s), Ghost(at + 8));
        let load_addr = read_u32(&mut cursor, Ghost(s), Ghost(at + 12));
        let load_end_addr = read_u32(&mut cursor, Ghost(s), Ghost(at + 16));
        let bss_end_addr = read_u32(&mut cursor, Ghost(s), Ghost(at + 20));
        let entry_addr = read_u32(&mut cursor, Ghost(s), Ghost(at + 24));
        let mode_type = read_u32(&mut cursor, Ghost(s), Ghost(at + 28));
        let width = read_u32(&mut cursor, Ghost(s), Ghost(at + 32));
        let height = read_u32(&mut cursor, Ghost(s), Ghost(at + 36));
        let depth = read_u32(&mut cursor, Ghost(s), Ghost(at + 40));
        Some(
            Header {
                magic: MAGIC,
                flags: Flags::from_bits_truncate(flags),
                checksum,
                header_addr,
                load_addr,
                load_end_addr,
                bss_end_addr,
                entry_addr,
                mode_type,
                width,
                height,
                depth,
            },
        )
    }
}

/// The name of a graphics mode type.
pub open spec fn mode_name(mode_type: u32) -> Seq<char> {
    if mode_type == GRAPHICS_MODE_TYPE_LINEAR {
        "linear"@
    } else if mode_type == GRAPHICS_MODE_TYPE_EGA_TEXT {
        "ega"@
    } else {
        "unknown"@
    }
}

/// How a width, height or depth is shown: as a number, or as the kernel
/// having no preference when it is zero.
pub open spec fn preference(extent: u32) -> ValueView {
    if extent == GRAPHICS_NO_PREFERENCE {
        ValueView::Word("no preference"@)
    } else {
        ValueView::Number(extent as u64)
    }
}

fn preferred(extent: u32) -> (value: Value)
    ensures
        value@ == preference(extent),
{
    if extent == GRAPHICS_NO_PREFERENCE {
        Value::Word("no preference")
    } else {
        Value::Number(extent as u64)
    }
}

impl Header {
    /// The address fields count and are shown.
    pub open spec fn shows_addresses(self) -> bool {
        self.flags.has(ENTRY_ADDRS_VALID)
    }

    /// The graphics fields count and are shown.
    pub open spec fn shows_video(self) -> bool {
        self.flags.has(REQUEST_VIDEO_MODE)
    }

    /// The lines that the header shows: the magic, the flags and the
    /// checksum always, the four addresses only if the flags say they are
    /// valid, and the graphics fields only if the flags ask for a video mode.
    pub open spec fn report(self) -> Seq<LineView> {
        seq![
            line(0, "Multiboot Header", ValueView::Heading),
            line(1, "Magic", ValueView::Hex { value: self.magic as u64, digits: 8 }),
            line(1, "Flags", ValueView::Flagged { names: self.flags.set_names(), bits: self.flags.bits, digits: 8 }),
            line(1, "Checksum", ValueView::Hex { value: self.checksum as u64, digits: 8 }),
        ] + (if self.shows_addresses() {
            seq![
                line(1, "Header", ValueView::Hex { value: self.header_addr as u64, digits: 8 }),
                line(1, "Load", ValueView::Hex { value: self.load_addr as u64, digits: 8 }),
                line(1, "Load End", ValueView::Hex { value: self.load_end_addr as u64, digits: 8 }),
                line(1, "BSS End", ValueView::Hex { value: self.bss_end_addr as u64, digits: 8 }),
            ]
        } else {
            seq![]
        }) + (if self.shows_video() {
            seq![
                line(1, "Mode", ValueView::Coded { name: mode_name(self.mode_type), code: self.mode_type }),
                line(1, "Width", preference(self.width)),
                line(1, "Height", preference(self.height)),
                line(1, "Depth", preference(self.depth)),
            ]
        } else {
            seq![]
        })
    }

    /// The lines that the header shows.
    pub fn lines(&self) -> (lines: Vec<Line>)
        ensures
            line_views(lines@) == self.report(),
    {
        let mut lines: Vec<Line> = Vec::new();
        put(&mut lines, 0, "Multiboot Header", Value::Heading);
        put(&mut lines, 1, "Magic", Value::Hex { value: self.magic as u64, digits: 8 });
        put(&mut lines, 1, "Flags", Value::Flagged { names: self.flags.names(), bits: self.flags.bits(), digits: 8 });
        put(&mut lines, 1, "Checksum", Value::Hex { value: self.checksum as u64, digits: 8 });
        if self.flags.contains(ENTRY_ADDRS_VALID) {
            put(&mut lines, 1, "Header", Value::Hex { value: self.header_addr as u64, digits: 8 });
            put(&mut lines, 1, "Load", Value::Hex { value: self.load_addr as u64, digits: 8 });
            put(&mut lines, 1, "Load End", Value::Hex { value: self.load_end_addr as u64, digits: 8 });
            put(&mut lines, 1, "BSS End", Value::Hex { value: self.bss_end_addr as u64, digits: 8 });
        }
        if self.flags.contains(REQUEST_VIDEO_MODE) {
            let name = if self.mode_type == GRAPHICS_MODE_TYPE_LINEAR {
                "linear"
            } else if self.mode_type == GRAPHICS_MODE_TYPE_EGA_TEXT {
                "ega"
            } else {
                "unknown"
            };
            put(&mut lines, 1, "Mode", Value::Coded { name, code: self.mode_type });
            put(&mut lines, 1, "Width", preferred(self.width));
            put(&mut lines, 1, "Height", preferred(self.height));
            put(&mut lines, 1, "Depth", preferred(self.depth));
        }
        assert(line_views(lines@) =~= self.report());
        lines
    }
}

/// The registry entry of this protocol: its header lies within the first
/// 8192 bytes of an image.
pub open spec fn descriptor() -> Descriptor {
    Descriptor { name: "multiboot1", max_range: 8192, protocol: Protocol::Multiboot1 }
}

/// Appends the registry entry of this protocol to `descs`.
pub fn register(descs: &mut Vec<Descriptor>)
    ensures
        final(descs)@ == old(descs)@.push(descriptor()),
{
    descs.push(Descriptor { name: "multiboot1", max_range: 8192, protocol: Protocol::Multiboot1 })
}

} // verus!
