//! The byte window that all decoders read, and the read cursor over it.
//!
//! The window is a `bytes::Bytes`; a decoder walks it through a
//! `std::io::Cursor`. Both are opaque to the verifier. What they hold is named
//! by [`contents`] and [`unread`], and the functions below state what each
//! cursor operation does to those two sequences.

use vstd::prelude::*;
use bytes::Buf;
use bytes::IntoBuf;

verus! {

/// `bytes::Bytes`, taken as it is: nothing is known of a value but what
/// [`contents`] names.
#[verifier::external_type_specification]
#[verifier::external_body]
pub struct ExBytes(bytes::Bytes);

/// `std::io::Cursor`, taken as it is: nothing is known of a cursor over a
/// window but what [`unread`] names.
#[verifier::external_type_specification]
#[verifier::external_body]
#[verifier::reject_recursive_types(T)]
pub struct ExCursor<T>(std::io::Cursor<T>);

/// The bytes of a window, first to last.
pub uninterp spec fn contents(window: bytes::Bytes) -> Seq<u8>;

/// The bytes of the underlying window that lie at and after a cursor's
/// position: what is still to be read.
pub uninterp spec fn unread(cursor: std::io::Cursor<bytes::Bytes>) -> Seq<u8>;

/// The 16-bit value whose little-endian encoding starts at `at`.
pub open spec fn le16(s: Seq<u8>, at: int) -> u16 {
    (s[at] as u16) | (s[at + 1] as u16) << 8
}

/// The 32-bit value whose little-endian encoding starts at `at`.
pub open spec fn le32(s: Seq<u8>, at: int) -> u32 {
    (s[at] as u32) | (s[at + 1] as u32) << 8 | (s[at + 2] as u32) << 16 | (s[at + 3] as u32) << 24
}

/// The 64-bit value whose little-endian encoding starts at `at`.
pub open spec fn le64(s: Seq<u8>, at: int) -> u64 {
    (le32(s, at) as u64) | (le32(s, at + 4) as u64) << 32
}

/// `bytes::IntoBuf::into_buf` on a `Bytes`: a cursor at position zero, so
/// that the whole window is still to be read.
#[verifier::external_body]
pub(crate) fn open(window: bytes::Bytes) -> (cursor: std::io::Cursor<bytes::Bytes>)
    ensures
        unread(cursor) == contents(window),
{
    window.into_buf()
}

/// `Clone::clone` on a `Bytes`: a second handle on the same bytes.
#[verifier::external_body]
pub(crate) fn duplicate(window: &bytes::Bytes) -> (copy: bytes::Bytes)
    ensures
        contents(copy) == contents(*window),
{
    window.clone()
}

/// `bytes::Buf::remaining` on a cursor: the number of bytes still to be read.
#[verifier::external_body]
pub(crate) fn remaining(cursor: &std::io::Cursor<bytes::Bytes>) -> (n: usize)
    ensures
        n == unread(*cursor).len(),
{
    cursor.remaining()
}

/// `bytes::Buf::advance` on a cursor: moves the position forward by `count`
/// bytes. The call panics when fewer than `count` bytes are left.
#[verifier::external_body]
pub(crate) fn advance(cursor: &mut std::io::Cursor<bytes::Bytes>, count: usize)
    requires
        count <= unread(*old(cursor)).len(),
    ensures
        unread(*final(cursor)) == unread(*old(cursor)).skip(count as int),
{
    cursor.advance(count)
}

/// `bytes::Buf::get_u8` on a cursor: returns the next byte and moves past it.
/// The call panics when nothing is left.
#[verifier::external_body]
pub(crate) fn get_u8(cursor: &mut std::io::Cursor<bytes::Bytes>) -> (value: u8)
    requires
        unread(*old(cursor)).len() >= 1,
    ensures
        value == unread(*old(cursor))[0],
        unread(*final(cursor)) == unread(*old(cursor)).skip(1),
{
    cursor.get_u8()
}

/// `bytes::Buf::get_u16_le` on a cursor: returns the next two bytes read as a
/// little-endian integer and moves past them. The call panics when fewer than
/// two bytes are left.
#[verifier::external_body]
pub(crate) fn get_u16_le(cursor: &mut std::io::Cursor<bytes::Bytes>) -> (value: u16)
    requires
        unread(*old(cursor)).len() >= 2,
    ensures
        value == le16(unread(*old(cursor)), 0),
        unread(*final(cursor)) == unread(*old(cursor)).skip(2),
{
    cursor.get_u16_le()
}

/// `bytes::Buf::get_u32_le` on a cursor: returns the next four bytes read as
/// a little-endian integer and moves past them. The call panics when fewer
/// than four bytes are left.
#[verifier::external_body]
pub(crate) fn get_u32_le(cursor: &mut std::io::Cursor<bytes::Bytes>) -> (value: u32)
    requires
        unread(*old(cursor)).len() >= 4,
    ensures
        value == le32(unread(*old(cursor)), 0),
        unread(*final(cursor)) == unread(*old(cursor)).skip(4),
{
    cursor.get_u32_le()
}

/// `bytes::Buf::get_u64_le` on a cursor: returns the next eight bytes read as
/// a little-endian integer and moves past them. The call panics when fewer
/// than eight bytes are left.
#[verifier::external_body]
pub(crate) fn get_u64_le(cursor: &mut std::io::Cursor<bytes::Bytes>) -> (value: u64)
    requires
        unread(*old(cursor)).len() >= 8,
    ensures
        value == le64(unread(*old(cursor)), 0),
        unread(*final(cursor)) == unread(*old(cursor)).skip(8),
{
    cursor.get_u64_le()
}

/// The aligned 32-bit word of `s` with index `word`, four bytes to a word.
pub open spec fn word_at(s: Seq<u8>, word: int) -> u32 {
    le32(s, 4 * word)
}

/// The index of the first aligned 32-bit word, at or after word `from`, that
/// equals `magic`; `None` when no whole word from there on does. Words are
/// counted from the start of `s`, four bytes each.
pub open spec fn first_magic(s: Seq<u8>, magic: u32, from: int) -> Option<int>
    decreases s.len() - 4 * from,
{
    if from < 0 || 4 * from + 4 > s.len() {
        None
    } else if word_at(s, from) == magic {
        Some(from)
    } else {
        first_magic(s, magic, from + 1)
    }
}

/// Some aligned 32-bit word of `s` equals `magic`.
pub open spec fn has_magic(s: Seq<u8>, magic: u32) -> bool {
    exists|word: int| 0 <= word && 4 * word + 4 <= s.len() && #[trigger] word_at(s, word) == magic
}

/// The word that `first_magic` finds holds the magic, lies inside `s` at or
/// after `from`, and no word between `from` and it holds the magic.
pub proof fn first_magic_is_first(s: Seq<u8>, magic: u32, from: int)
    requires
        0 <= from,
    ensures
        match first_magic(s, magic, from) {
            Some(word) => from <= word && 0 <= word && 4 * word + 4 <= s.len() && word_at(s, word) == magic
                && forall|earlier: int| from <= earlier < word ==> #[trigger] word_at(s, earlier) != magic,
            None => forall|word: int|
                0 <= word && from <= word && 4 * word + 4 <= s.len() ==> #[trigger] word_at(s, word) != magic,
        },
    decreases s.len() - 4 * from,
{
    if 4 * from + 4 <= s.len() && word_at(s, from) != magic {
        first_magic_is_first(s, magic, from + 1);
    }
}

/// A window in which no aligned word holds the magic has no first such word.
pub proof fn no_magic_no_first(s: Seq<u8>, magic: u32)
    requires
        !has_magic(s, magic),
    ensures
        first_magic(s, magic, 0) is None,
{
    first_magic_is_first(s, magic, 0);
}

/// What a cursor has ahead of it once `at` bytes of `s` are behind it.
pub open spec fn at_offset(cursor: std::io::Cursor<bytes::Bytes>, s: Seq<u8>, at: int) -> bool {
    0 <= at <= s.len() && unread(cursor) =~= s.skip(at)
}

/// Reads the byte at offset `at`, which is known to be there.
pub(crate) fn read_u8(
    cursor: &mut std::io::Cursor<bytes::Bytes>,
    Ghost(s): Ghost<Seq<u8>>,
    Ghost(at): Ghost<int>,
) -> (value: u8)
    requires
        at_offset(*old(cursor), s, at),
        at + 1 <= s.len(),
    ensures
        value == s[at],
        at_offset(*final(cursor), s, at + 1),
{
    let value = get_u8(cursor);
    proof {
        assert(s.skip(at).skip(1) =~= s.skip(at + 1));
    }
    value
}

/// Reads the little-endian 16-bit value at offset `at`, which is known to be
/// there.
pub(crate) fn read_u16(
    cursor: &mut std::io::Cursor<bytes::Bytes>,
    Ghost(s): Ghost<Seq<u8>>,
    Ghost(at): Ghost<int>,
) -> (value: u16)
    requires
        at_offset(*old(cursor), s, at),
        at + 2 <= s.len(),
    ensures
        value == le16(s, at),
        at_offset(*final(cursor), s, at + 2),
{
    let value = get_u16_le(cursor);
    proof {
        assert(s.skip(at).skip(2) =~= s.skip(at + 2));
    }
    value
}

/// Reads the little-endian 32-bit value at offset `at`, which is known to be
/// there.
pub(crate) fn read_u32(
    cursor: &mut std::io::Cursor<bytes::Bytes>,
    Ghost(s): Ghost<Seq<u8>>,
    Ghost(at): Ghost<int>,
) -> (value: u32)
    requires
        at_offset(*old(cursor), s, at),
        at + 4 <= s.len(),
    ensures
        value == le32(s, at),
        at_offset(*final(cursor), s, at + 4),
{
    let value = get_u32_le(cursor);
    proof {
        assert(s.skip(at).skip(4) =~= s.skip(at + 4));
    }
    value
}

/// Reads the little-endian 64-bit value at offset `at`, which is known to be
/// there.
pub(crate) fn read_u64(
    cursor: &mut std::io::Cursor<bytes::Bytes>,
    Ghost(s): Ghost<Seq<u8>>,
    Ghost(at): Ghost<int>,
) -> (value: u64)
    requires
        at_offset(*old(cursor), s, at),
        at + 8 <= s.len(),
    ensures
        value == le64(s, at),
        at_offset(*final(cursor), s, at + 8),
{
    let value = get_u64_le(cursor);
    proof {
        assert(s.skip(at).skip(8) =~= s.skip(at + 8));
    }
    value
}

/// Moves past `count` bytes that are known to be there.
pub(crate) fn skip(
    cursor: &mut std::io::Cursor<bytes::Bytes>,
    count: usize,
    Ghost(s): Ghost<Seq<u8>>,
    Ghost(at): Ghost<int>,
)
    requires
        at_offset(*old(cursor), s, at),
        at + count <= s.len(),
    ensures
        at_offset(*final(cursor), s, at + count),
{
    advance(cursor, count);
    proof {
        assert(s.skip(at).skip(count as int) =~= s.skip(at + count));
    }
}

/// Reads aligned words until one equals `magic` and leaves the cursor just
/// behind it. Tells whether the window holds such a word.
pub(crate) fn seek_magic(
    cursor: &mut std::io::Cursor<bytes::Bytes>,
    magic: u32,
    Ghost(s): Ghost<Seq<u8>>,
) -> (found: bool)
    requires
        at_offset(*old(cursor), s, 0),
    ensures
        found == first_magic(s, magic, 0).is_some(),
        found ==> at_offset(*final(cursor), s, 4 * first_magic(s, magic, 0).unwrap() + 4),
{
    let ghost mut word: int = 0;
    while remaining(cursor) >= 4
        invariant
            0 <= word,
            at_offset(*cursor, s, 4 * word),
            first_magic(s, magic, 0) == first_magic(s, magic, word),
        decreases s.len() - 4 * word,
    {
        let value = read_u32(cursor, Ghost(s), Ghost(4 * word));
        if value == magic {
            return true;
        }
        proof {
            word = word + 1;
        }
    }
    false
}

} // verus!
