//! The Linux boot protocol: one header at fixed offsets in the boot sector,
//! whose fields count from the protocol version that introduced them.

use vstd::prelude::*;
use crate::parsers::{Descriptor, Protocol};
use crate::report::{
    byte_count, bytes_view, hex_value, hex_view, line, line_views, optional, put, put_optional,
    some_view, Line, LineView, Value, ValueView,
};
use crate::window::{
    at_offset, contents, duplicate, le16, le32, le64, open, read_u16, read_u32, read_u64, read_u8,
    remaining, skip,
};

verus! {

/// The word `HdrS` that marks the header, at offset 0x202.
pub const MAGIC: u32 = 0x53726448;

/// The offset just behind the last field that is read.
pub const HEADER_END: usize = 0x260;

/// A decoded header. A field that a protocol version introduced is `None`
/// when the header declares an older version.
#[derive(Debug, PartialEq, Eq)]
pub struct Header {
    pub setup_sects: u8,
    pub syssize: u32,
    pub header: u32,
    pub version_major: u8,
    pub version_minor: u8,
    pub realmode_swtch: Option<u32>,
    /// The kernel version string, without its closing zero byte.
    pub kernel_version: Option<Vec<u8>>,
    pub load_flags: Option<u8>,
    pub code32_start: Option<u32>,
    pub initrd_addr_max: Option<u32>,
    pub kernel_alignment: Option<u32>,
    pub relocatable_kernel: Option<bool>,
    pub min_alignment: Option<u32>,
    pub xloadflags: Option<u16>,
    pub cmdline_size: Option<u32>,
    pub payload_offset: Option<u32>,
    pub payload_length: Option<u32>,
    pub pref_address: Option<u64>,
    pub init_size: Option<u32>,
    pub handover_offset: Option<u32>,
}

/// The mathematical value of a [`Header`].
pub struct HeaderView {
    pub setup_sects: u8,
    pub syssize: u32,
    pub header: u32,
    pub version_major: u8,
    pub version_minor: u8,
    pub realmode_swtch: Option<u32>,
    pub kernel_version: Option<Seq<u8>>,
    pub load_flags: Option<u8>,
    pub code32_start: Option<u32>,
    pub initrd_addr_max: Option<u32>,
    pub kernel_alignment: Option<u32>,
    pub relocatable_kernel: Option<bool>,
    pub min_alignment: Option<u32>,
    pub xloadflags: Option<u16>,
    pub cmdline_size: Option<u32>,
    pub payload_offset: Option<u32>,
    pub payload_length: Option<u32>,
    pub pref_address: Option<u64>,
    pub init_size: Option<u32>,
    pub handover_offset: Option<u32>,
}

impl View for Header {
    type V = HeaderView;

    open spec fn view(&self) -> HeaderView {
        HeaderView {
            setup_sects: self.setup_sects,
            syssize: self.syssize,
            header: self.header,
            version_major: self.version_major,
            version_minor: self.version_minor,
            realmode_swtch: self.realmode_swtch,
            kernel_version: match self.kernel_version {
                Some(name) => Some(name@),
                None => None,
            },
            load_flags: self.load_flags,
            code32_start: self.code32_start,
            initrd_addr_max: self.initrd_addr_max,
            kernel_alignment: self.kernel_alignment,
            relocatable_kernel: self.relocatable_kernel,
            min_alignment: self.min_alignment,
            xloadflags: self.xloadflags,
            cmdline_size: self.cmdline_size,
            payload_offset: self.payload_offset,
            payload_length: self.payload_length,
            pref_address: self.pref_address,
            init_size: self.init_size,
            handover_offset: self.handover_offset,
        }
    }
}

/// The major version of a version word: its high byte.
pub open spec fn major_of(version: u16) -> u8 {
    (version / 256) as u8
}

/// The minor version of a version word: its low byte.
pub open spec fn minor_of(version: u16) -> u8 {
    (version % 256) as u8
}

/// Version `major.minor` is `least` or later.
pub open spec fn reaches(major: u8, minor: u8, least: (u8, u8)) -> bool {
    major > least.0 || (major == least.0 && minor >= least.1)
}

/// `value` if the version word is `allowed` or later, nothing if it is not.
pub open spec fn gated<V>(version: u16, allowed: (u8, u8), value: V) -> Option<V> {
    if reaches(major_of(version), minor_of(version), allowed) {
        Some(value)
    } else {
        None
    }
}

/// Keeps `value` only if the version word `version` is `allowed` or later.
pub fn valid<V>(version: u16, allowed: (u8, u8), value: V) -> (kept: Option<V>)
    ensures
        kept == gated(version, allowed, value),
{
    let major: u8 = (version >> 8) as u8;
    let minor: u8 = (version & 0xff) as u8;
    assert((version >> 8) as u8 == (version / 256) as u8) by (bit_vector);
    assert((version & 0xff) as u8 == (version % 256) as u8) by (bit_vector);
    if major > allowed.0 || (major == allowed.0 && minor >= allowed.1) {
        Some(value)
    } else {
        None
    }
}

/// The offset of the first zero byte of `s` at or after `at`, or the length
/// of `s` when there is none.
pub open spec fn string_end(s: Seq<u8>, at: int) -> int
    decreases s.len() - at,
{
    if at < 0 || at >= s.len() {
        s.len() as int
    } else if s[at] == 0 {
        at
    } else {
        string_end(s, at + 1)
    }
}

/// The bytes of `s` from `at` up to, and without, the first zero byte.
pub open spec fn string_at(s: Seq<u8>, at: int) -> Seq<u8> {
    s.subrange(at, string_end(s, at))
}

/// The header points at a kernel version string: the offset at 0x20e is not
/// zero and lies inside the setup sectors.
pub open spec fn names_version(s: Seq<u8>) -> bool {
    le16(s, 0x20e) != 0 && le16(s, 0x20e) < 512 * s[0x1f1]
}

/// The header that the bytes `s` decode to, if any.
///
/// `s` must reach to the end of the header and cover the setup sectors that
/// the byte at 0x1f1 counts, the word at 0x202 must be the magic, and the
/// major version at least 2. Where the header points at a version string, the
/// place it points at, 0x200 behind the offset, must lie inside `s`. Every
/// field is taken from its fixed offset and kept if the version at 0x206
/// reaches the one that introduced it; the preferred address is also dropped
/// when it is zero. The alignment shift is taken modulo 32.
pub open spec fn decode(s: Seq<u8>) -> Option<HeaderView> {
    if s.len() < HEADER_END {
        None
    } else {
        let version = le16(s, 0x206);
        if s.len() < s[0x1f1] * 512 || le32(s, 0x202) != MAGIC || major_of(version) < 2 || (names_version(s)
            && le16(s, 0x20e) + 0x200 > s.len()) {
            None
        } else {
            Some(
                HeaderView {
                    setup_sects: s[0x1f1],
                    syssize: le32(s, 0x1f4),
                    header: le32(s, 0x202),
                    version_major: major_of(version),
                    version_minor: minor_of(version),
                    realmode_swtch: gated(version, (2, 0), le32(s, 0x208)),
                    kernel_version: if names_version(s) {
                        Some(string_at(s, le16(s, 0x20e) + 0x200))
                    } else {
                        None
                    },
                    load_flags: gated(version, (2, 0), s[0x211]),
                    code32_start: gated(version, (2, 0), le32(s, 0x214)),
                    initrd_addr_max: gated(version, (2, 3), le32(s, 0x22c)),
                    kernel_alignment: gated(version, (2, 5), le32(s, 0x230)),
                    relocatable_kernel: gated(version, (2, 5), s[0x234] != 0),
                    min_alignment: gated(version, (2, 10), 1u32 << ((s[0x235] as u32) % 32)),
                    xloadflags: gated(version, (2, 12), le16(s, 0x236)),
                    cmdline_size: gated(version, (2, 6), le32(s, 0x238)),
                    payload_offset: gated(version, (2, 8), le32(s, 0x240)),
                    payload_length: gated(version, (2, 8), le32(s, 0x244)),
                    pref_address: if le64(s, 0x250) != 0 {
                        gated(version, (2, 10), le64(s, 0x250))
                    } else {
                        None
                    },
                    init_size: gated(version, (2, 10), le32(s, 0x258)),
                    handover_offset: gated(version, (2, 11), le32(s, 0x25c)),
                },
            )
        }
    }
}

/// The bytes `s` hold the magic where the protocol puts it.
pub open spec fn holds_magic(s: Seq<u8>) -> bool {
    0x206 <= s.len() && le32(s, 0x202) == MAGIC
}

/// A window without the magic at its place decodes to nothing.
pub proof fn no_magic_no_header(s: Seq<u8>)
    requires
        !holds_magic(s),
    ensures
        decode(s) is None,
{
}

/// A decoded header declares a major version of at least 2, and each of its
/// gated fields is there exactly when the declared version reaches the one
/// that introduced the field. The preferred address is the one exception:
/// it is there exactly when, besides, the eight bytes read for it are not
/// all zero.
pub proof fn version_gating(s: Seq<u8>)
    requires
        decode(s) is Some,
    ensures
        ({
            let h = decode(s).unwrap();
            let major = h.version_major;
            let minor = h.version_minor;
            &&& major >= 2
            &&& major == major_of(le16(s, 0x206)) && minor == minor_of(le16(s, 0x206))
            &&& h.realmode_swtch is Some <==> reaches(major, minor, (2, 0))
            &&& h.load_flags is Some <==> reaches(major, minor, (2, 0))
            &&& h.code32_start is Some <==> reaches(major, minor, (2, 0))
            &&& h.initrd_addr_max is Some <==> reaches(major, minor, (2, 3))
            &&& h.kernel_alignment is Some <==> reaches(major, minor, (2, 5))
            &&& h.relocatable_kernel is Some <==> reaches(major, minor, (2, 5))
            &&& h.cmdline_size is Some <==> reaches(major, minor, (2, 6))
            &&& h.payload_offset is Some <==> reaches(major, minor, (2, 8))
            &&& h.payload_length is Some <==> reaches(major, minor, (2, 8))
            &&& h.min_alignment is Some <==> reaches(major, minor, (2, 10))
            &&& h.init_size is Some <==> reaches(major, minor, (2, 10))
            &&& h.handover_offset is Some <==> reaches(major, minor, (2, 11))
            &&& h.xloadflags is Some <==> reaches(major, minor, (2, 12))
            &&& h.pref_address is Some <==> reaches(major, minor, (2, 10)) && le64(s, 0x250) != 0
        }),
{
}

/// Collects the bytes from offset `at` up to the first zero byte, or to the
/// end of the window.
fn read_string(
    cursor: &mut std::io::Cursor<bytes::Bytes>,
    Ghost(s): Ghost<Seq<u8>>,
    Ghost(at): Ghost<int>,
) -> (name: Vec<u8>)
    requires
        at_offset(*old(cursor), s, at),
    ensures
        name@ == string_at(s, at),
{
    let mut name: Vec<u8> = Vec::new();
    let ghost mut next = at;
    while remaining(cursor) > 0
        invariant
            0 <= at <= next,
            at_offset(*cursor, s, next),
            name@ =~= s.subrange(at, next),
            string_end(s, at) == string_end(s, next),
        decreases s.len() - next,
    {
        let byte = read_u8(cursor, Ghost(s), Ghost(next));
        if byte == 0 {
            return name;
        }
        name.push(byte);
        proof {
            next = next + 1;
        }
    }
    name
}

impl Header {
    /// Decodes the Linux boot header in `buf`, if it holds one.
    pub fn parse(buf: bytes::Bytes) -> (header: Option<Header>)
        ensures
            match header {
                Some(header) => decode(contents(buf)) == Some(header@),
                None => decode(contents(buf)) is None,
            },
    {
        let ghost s = contents(buf);
        let mut version_cursor = open(duplicate(&buf));
        let mut cursor = open(buf);

        if remaining(&cursor) < 0x1f2 {
            return None;
        }
        skip(&mut cursor, 0x1f1, Ghost(s), Ghost(0));
        let setup_sects = read_u8(&mut cursor, Ghost(s), Ghost(0x1f1));
        let left = remaining(&cursor);
        if (left as u64) + 0x1f2 < (setup_sects as u64) * 512 || left < HEADER_END - 0x1f2 {
            return None;
        }
        // root_flags
        skip(&mut cursor, 2, Ghost(s), Ghost(0x1f2));
        let syssize = read_u32(&mut cursor, Ghost(s), Ghost(0x1f4));
        // ram_size, vid_mode, root_dev, boot_flag and the jump
        skip(&mut cursor, 10, Ghost(s), Ghost(0x1f8));
        let header = read_u32(&mut cursor, Ghost(s), Ghost(0x202));
        if header != MAGIC {
            return None;
        }
        let version = read_u16(&mut cursor, Ghost(s), Ghost(0x206));
        let major: u8 = (version >> 8) as u8;
        let minor: u8 = (version & 0xff) as u8;
        assert((version >> 8) as u8 == (version / 256) as u8) by (bit_vector);
        assert((version & 0xff) as u8 == (version % 256) as u8) by (bit_vector);
        if major < 2 {
            return None;
        }
        let realmode_swtch = read_u32(&mut cursor, Ghost(s), Ghost(0x208));
        // start_sys_seg
        skip(&mut cursor, 2, Ghost(s), Ghost(0x20c));
        let name_at = read_u16(&mut cursor, Ghost(s), Ghost(0x20e));
        let kernel_version = if name_at != 0 && (name_at as u32) < 512 * (setup_sects as u32) {
            let target: usize = name_at as usize + 0x200;
            if remaining(&version_cursor) < target {
                return None;
            }
            skip(&mut version_cursor, target, Ghost(s), Ghost(0));
            Some(read_string(&mut version_cursor, Ghost(s), Ghost(target as int)))
        } else {
            None
        };
        // type_of_loader
        skip(&mut cursor, 1, Ghost(s), Ghost(0x210));
        let load_flags = read_u8(&mut cursor, Ghost(s), Ghost(0x211));
        // setup_move_size
        skip(&mut cursor, 2, Ghost(s), Ghost(0x212));
        let code32_start = read_u32(&mut cursor, Ghost(s), Ghost(0x214));
        // ramdisk_image, ramdisk_size, bootsect_kludge, heap_end_ptr,
        // ext_loader_ver, ext_loader_type, cmdline_ptr
        skip(&mut cursor, 20, Ghost(s), Ghost(0x218));
        let initrd_addr_max = read_u32(&mut cursor, Ghost(s), Ghost(0x22c));
        let kernel_alignment = read_u32(&mut cursor, Ghost(s), Ghost(0x230));
        let relocatable_kernel = read_u8(&mut cursor, Ghost(s), Ghost(0x234)) != 0;
        let shift = read_u8(&mut cursor, Ghost(s), Ghost(0x235));
        let min_alignment: u32 = 1u32.wrapping_shl(shift as u32);
        let xloadflags = read_u16(&mut cursor, Ghost(s), Ghost(0x236));
        let cmdline_size = read_u32(&mut cursor, Ghost(s), Ghost(0x238));
        // hardware_subarch
        skip(&mut cursor, 4, Ghost(s), Ghost(0x23c));
        let payload_offset = read_u32(&mut cursor, Ghost(s), Ghost(0x240));
        let payload_length = read_u32(&mut cursor, Ghost(s), Ghost(0x244));
        // setup_data
        skip(&mut cursor, 8, Ghost(s), Ghost(0x248));
        let address = read_u64(&mut cursor, Ghost(s), Ghost(0x250));
        let pref_address = if address != 0 {
            valid(version, (2, 10), address)
        } else {
            None
        };
        let init_size = read_u32(&mut cursor, Ghost(s), Ghost(0x258));
        let handover_offset = read_u32(&mut cursor, Ghost(s), Ghost(0x25c));

        Some(
            Header {
                setup_sects,
                syssize,
                header,
                version_major: major,
                version_minor: minor,
                realmode_swtch: valid(version, (2, 0), realmode_swtch),
                kernel_version,
                load_flags: valid(version, (2, 0), load_flags),
                code32_start: valid(version, (2, 0), code32_start),
                initrd_addr_max: valid(version, (2, 3), initrd_addr_max),
                kernel_alignment: valid(version, (2, 5), kernel_alignment),
                relocatable_kernel: valid(version, (2, 5), relocatable_kernel),
                min_alignment: valid(version, (2, 10), min_alignment),
                xloadflags: valid(version, (2, 12), xloadflags),
                cmdline_size: valid(version, (2, 6), cmdline_size),
                payload_offset: valid(version, (2, 8), payload_offset),
                payload_length: valid(version, (2, 8), payload_length),
                pref_address,
                init_size: valid(version, (2, 10), init_size),
                handover_offset: valid(version, (2, 11), handover_offset),
            },
        )
    }
}

/// The number of setup sectors that a count stands for: a count of zero
/// stands for four.
pub open spec fn setup_sectors(setup_sects: u8) -> u8 {
    if setup_sects == 0 {
        4
    } else {
        setup_sects
    }
}

/// Where the kernel is loaded, by the lowest of the load flags.
pub open spec fn loaded_view(load_flags: Option<u8>) -> Option<ValueView> {
    match load_flags {
        Some(flags) => Some(
            ValueView::Word(
                if flags & 1 == 1 {
                    "HIGH"@
                } else {
                    "LOW"@
                },
            ),
        ),
        None => None,
    }
}

fn loaded(load_flags: Option<u8>) -> (value: Option<Value>)
    ensures
        some_view(value) == loaded_view(load_flags),
{
    match load_flags {
        Some(flags) => Some(
            Value::Word(
                if flags & 1 == 1 {
                    "HIGH"
                } else {
                    "LOW"
                },
            ),
        ),
        None => None,
    }
}

impl HeaderView {
    /// The lines that the header shows: the version string if there is one,
    /// the magic, the version, the setup sectors and the size of the
    /// protected-mode code in bytes, then each gated field that is there.
    pub open spec fn report(self) -> Seq<LineView> {
        seq![line(0, "Linux Boot Protocol", ValueView::Heading)] + optional(
            "Kernel Version",
            match self.kernel_version {
                Some(name) => Some(ValueView::Text(name)),
                None => None,
            },
        ) + seq![
            line(1, "Header", ValueView::Hex { value: self.header as u64, digits: 1 }),
            line(1, "Version", ValueView::Version { major: self.version_major, minor: self.version_minor }),
            line(1, "Setup Sectors", ValueView::Number(setup_sectors(self.setup_sects) as u64)),
            line(1, "PM Code Size", ValueView::Bytes((self.syssize * 16) as u64)),
        ] + optional("Realmode Switch", hex_view(self.realmode_swtch)) + optional(
            "Loaded",
            loaded_view(self.load_flags),
        ) + optional("Code32 Start", hex_view(self.code32_start)) + optional(
            "Initrd Addr Max",
            hex_view(self.initrd_addr_max),
        ) + optional("Kernel Alignment", hex_view(self.kernel_alignment)) + optional(
            "Min. Kernel Alignment",
            hex_view(self.min_alignment),
        ) + optional(
            "Relocatable?",
            match self.relocatable_kernel {
                Some(truth) => Some(ValueView::Truth(truth)),
                None => None,
            },
        ) + optional(
            "xloadflags",
            match self.xloadflags {
                Some(flags) => Some(ValueView::Hex { value: flags as u64, digits: 1 }),
                None => None,
            },
        ) + optional("Max Cmdline Size", bytes_view(self.cmdline_size)) + optional(
            "Payload Offset",
            hex_view(self.payload_offset),
        ) + optional("Payload length", bytes_view(self.payload_length)) + optional(
            "init size",
            bytes_view(self.init_size),
        ) + optional(
            "Preferred load address",
            match self.pref_address {
                Some(address) => Some(ValueView::Hex { value: address, digits: 1 }),
                None => None,
            },
        ) + optional("EFI Handover Offset", hex_view(self.handover_offset))
    }
}

impl Header {
    /// The lines that the header shows.
    pub fn lines(&self) -> (lines: Vec<Line>)
        ensures
            line_views(lines@) == self@.report(),
    {
        let mut lines: Vec<Line> = Vec::new();
        put(&mut lines, 0, "Linux Boot Protocol", Value::Heading);
        assert(line_views(lines@) =~= seq![line(0, "Linux Boot Protocol", ValueView::Heading)]);
        put_optional(
            &mut lines,
            "Kernel Version",
            match &self.kernel_version {
                Some(name) => Some(Value::Text(name.clone())),
                None => None,
            },
        );
        let ghost top = line_views(lines@);
        put(&mut lines, 1, "Header", Value::Hex { value: self.header as u64, digits: 1 });
        put(&mut lines, 1, "Version", Value::Version { major: self.version_major, minor: self.version_minor });
        let sectors: u8 = if self.setup_sects == 0 {
            4
        } else {
            self.setup_sects
        };
        put(&mut lines, 1, "Setup Sectors", Value::Number(sectors as u64));
        put(&mut lines, 1, "PM Code Size", Value::Bytes(self.syssize as u64 * 16));
        assert(line_views(lines@) =~= top + seq![
            line(1, "Header", ValueView::Hex { value: self.header as u64, digits: 1 }),
            line(1, "Version", ValueView::Version { major: self.version_major, minor: self.version_minor }),
            line(1, "Setup Sectors", ValueView::Number(setup_sectors(self.setup_sects) as u64)),
            line(1, "PM Code Size", ValueView::Bytes((self.syssize * 16) as u64)),
        ]);
        put_optional(&mut lines, "Realmode Switch", hex_value(self.realmode_swtch));
        put_optional(&mut lines, "Loaded", loaded(self.load_flags));
        put_optional(&mut lines, "Code32 Start", hex_value(self.code32_start));
        put_optional(&mut lines, "Initrd Addr Max", hex_value(self.initrd_addr_max));
        put_optional(&mut lines, "Kernel Alignment", hex_value(self.kernel_alignment));
        put_optional(&mut lines, "Min. Kernel Alignment", hex_value(self.min_alignment));
        put_optional(
            &mut lines,
            "Relocatable?",
            match self.relocatable_kernel {
                Some(truth) => Some(Value::Truth(truth)),
                None => None,
            },
        );
        put_optional(
            &mut lines,
            "xloadflags",
            match self.xloadflags {
                Some(flags) => Some(Value::Hex { value: flags as u64, digits: 1 }),
                None => None,
            },
        );
        put_optional(&mut lines, "Max Cmdline Size", byte_count(self.cmdline_size));
        put_optional(&mut lines, "Payload Offset", hex_value(self.payload_offset));
        put_optional(&mut lines, "Payload length", byte_count(self.payload_length));
        put_optional(&mut lines, "init size", byte_count(self.init_size));
        put_optional(
            &mut lines,
            "Preferred load address",
            match self.pref_address {
                Some(address) => Some(Value::Hex { value: address, digits: 1 }),
                None => None,
            },
        );
        put_optional(&mut lines, "EFI Handover Offset", hex_value(self.handover_offset));
        lines
    }
}

/// The registry entry of this protocol: its header lies within the first
/// 32768 bytes of an image.
pub open spec fn descriptor() -> Descriptor {
    Descriptor { name: "linux", max_range: 32768, protocol: Protocol::Linux }
}

/// Appends the registry entry of this protocol to `descs`.
pub fn register(descs: &mut Vec<Descriptor>)
    ensures
        final(descs)@ == old(descs)@.push(descriptor()),
{
    descs.push(Descriptor { name: "linux", max_range: 32768, protocol: Protocol::Linux })
}

} // verus!
