//! The byte format of the wire records: a small subset of MessagePack.
//!
//! A record is an array of its fields in declaration order. Integers and
//! lengths are written in the shortest form that holds them; every form of the
//! same family is accepted when reading.

use vstd::prelude::*;
use vstd::slice::slice_subrange;
use vstd::utf8::*;
use crate::headers::{collect, Entry, Headers};
use crate::text::checked_text;

verus! {

/// Why bytes could not be written or read as a wire record.
#[derive(Clone, Copy, Debug, PartialEq, Eq, Structural)]
pub enum WireError {
    /// A text or a mapping is too long for its length to be written in 32 bits.
    TooLong,
    /// The bytes end before the value does.
    Truncated,
    /// A value of another family stands where this one was expected.
    Mismatch,
    /// An integer is negative, or too large for its field.
    OutOfRange,
    /// A text is not valid UTF-8.
    InvalidText,
    /// The record does not have the number of fields of its type.
    WrongFieldCount,
}

/// The families of values that are written with a length in front.
#[derive(Clone, Copy, Debug, PartialEq, Eq, Structural)]
pub enum Family {
    Text,
    Array,
    Mapping,
}

impl Family {
    /// How many lengths fit into the marker byte itself.
    pub open spec fn short_limit(self) -> int {
        match self {
            Family::Text => 32,
            Family::Array => 16,
            Family::Mapping => 16,
        }
    }

    /// The marker byte of length 0 in the short form.
    pub open spec fn short_base(self) -> int {
        match self {
            Family::Text => 0xa0,
            Family::Array => 0x90,
            Family::Mapping => 0x80,
        }
    }

    /// The marker of the form with one length byte, for the family that has one.
    pub open spec fn marker8(self) -> Option<u8> {
        match self {
            Family::Text => Some(0xd9u8),
            Family::Array => None,
            Family::Mapping => None,
        }
    }

    /// The marker of the form with two length bytes.
    pub open spec fn marker16(self) -> u8 {
        match self {
            Family::Text => 0xdau8,
            Family::Array => 0xdcu8,
            Family::Mapping => 0xdeu8,
        }
    }

    /// The marker of the form with four length bytes.
    pub open spec fn marker32(self) -> u8 {
        match self {
            Family::Text => 0xdbu8,
            Family::Array => 0xddu8,
            Family::Mapping => 0xdfu8,
        }
    }
}

/// The largest length and the largest count that the format can write.
pub open spec fn max_length() -> int {
    0xffff_ffff
}

/// Two bytes, most significant first.
pub open spec fn be16(v: int) -> Seq<u8> {
    seq![(v / 0x100) as u8, (v % 0x100) as u8]
}

/// Four bytes, most significant first.
pub open spec fn be32(v: int) -> Seq<u8> {
    be16(v / 0x1_0000) + be16(v % 0x1_0000)
}

/// Eight bytes, most significant first.
pub open spec fn be64(v: int) -> Seq<u8> {
    be32(v / 0x1_0000_0000) + be32(v % 0x1_0000_0000)
}

/// The number that the first two bytes spell, most significant first.
pub open spec fn value16(s: Seq<u8>) -> int {
    s[0] * 0x100 + s[1]
}

/// The number that the first four bytes spell.
pub open spec fn value32(s: Seq<u8>) -> int {
    value16(s) * 0x1_0000 + value16(s.skip(2))
}

/// The number that the first eight bytes spell.
pub open spec fn value64(s: Seq<u8>) -> int {
    value32(s) * 0x1_0000_0000 + value32(s.skip(4))
}

/// The number that the first `width` bytes (1, 2, 4 or 8) spell, most significant first.
pub open spec fn be_value(s: Seq<u8>, width: int) -> int {
    if width == 1 {
        s[0] as int
    } else if width == 2 {
        value16(s)
    } else if width == 4 {
        value32(s)
    } else {
        value64(s)
    }
}

/// Two bytes that were written spell the number again, whatever follows them.
pub proof fn lemma_value16(v: int, rest: Seq<u8>)
    requires
        0 <= v < 0x1_0000,
    ensures
        value16(be16(v) + rest) == v,
        be16(v).len() == 2,
{
    assert((be16(v) + rest)[0] == be16(v)[0]);
    assert((be16(v) + rest)[1] == be16(v)[1]);
}

/// Four bytes that were written spell the number again, whatever follows them.
pub proof fn lemma_value32(v: int, rest: Seq<u8>)
    requires
        0 <= v < 0x1_0000_0000,
    ensures
        value32(be32(v) + rest) == v,
        be32(v).len() == 4,
{
    let high = be16(v / 0x1_0000);
    let low = be16(v % 0x1_0000);
    lemma_value16(v / 0x1_0000, low + rest);
    lemma_value16(v % 0x1_0000, rest);
    assert(be32(v) + rest =~= high + (low + rest));
    assert((be32(v) + rest).skip(2) =~= low + rest);
}

/// Eight bytes that were written spell the number again, whatever follows them.
pub proof fn lemma_value64(v: int, rest: Seq<u8>)
    requires
        0 <= v <= u64::MAX,
    ensures
        value64(be64(v) + rest) == v,
        be64(v).len() == 8,
{
    let high = be32(v / 0x1_0000_0000);
    let low = be32(v % 0x1_0000_0000);
    lemma_value32(v / 0x1_0000_0000, low + rest);
    lemma_value32(v % 0x1_0000_0000, rest);
    assert(be64(v) + rest =~= high + (low + rest));
    assert((be64(v) + rest).skip(4) =~= low + rest);
}

/// The length in front of a text, an array or a mapping, in the shortest form.
#[verifier::opaque]
pub open spec fn length_bytes(family: Family, len: int) -> Seq<u8> {
    if len < family.short_limit() {
        seq![(family.short_base() + len) as u8]
    } else if family.marker8() is Some && len < 0x100 {
        seq![family.marker8()->0, len as u8]
    } else if len < 0x1_0000 {
        seq![family.marker16()] + be16(len)
    } else {
        seq![family.marker32()] + be32(len)
    }
}

/// A non-negative integer in the shortest form.
#[verifier::opaque]
pub open spec fn uint_bytes(v: int) -> Seq<u8> {
    if v < 0x80 {
        seq![v as u8]
    } else if v < 0x100 {
        seq![0xccu8, v as u8]
    } else if v < 0x1_0000 {
        seq![0xcdu8] + be16(v)
    } else if v < 0x1_0000_0000 {
        seq![0xceu8] + be32(v)
    } else {
        seq![0xcfu8] + be64(v)
    }
}

/// The absent value.
pub open spec fn nil_bytes() -> Seq<u8> {
    seq![0xc0u8]
}

/// A text: the length of its UTF-8 form, then that form.
#[verifier::opaque]
pub open spec fn text_bytes(text: Seq<char>) -> Seq<u8> {
    length_bytes(Family::Text, encode_utf8(text).len() as int) + encode_utf8(text)
}

/// A text that may be absent.
pub open spec fn optional_text_bytes(text: Option<Seq<char>>) -> Seq<u8> {
    match text {
        Some(t) => text_bytes(t),
        None => nil_bytes(),
    }
}

/// Name and value of each entry, one entry after the other.
pub open spec fn entries_bytes(entries: Seq<(Seq<char>, Seq<char>)>) -> Seq<u8>
    decreases entries.len(),
{
    if entries.len() == 0 {
        Seq::empty()
    } else {
        text_bytes(entries[0].0) + text_bytes(entries[0].1) + entries_bytes(entries.drop_first())
    }
}

/// A mapping from text to text: the number of entries, then the entries.
pub open spec fn mapping_bytes(entries: Seq<(Seq<char>, Seq<char>)>) -> Seq<u8> {
    length_bytes(Family::Mapping, entries.len() as int) + entries_bytes(entries)
}

/// Whether a text can be written: its UTF-8 form is short enough.
pub open spec fn text_fits(text: Seq<char>) -> bool {
    encode_utf8(text).len() <= max_length()
}

/// Whether every text of the entries can be written.
pub open spec fn entries_fit(entries: Seq<(Seq<char>, Seq<char>)>) -> bool {
    forall|i: int|
        0 <= i < entries.len() ==> text_fits((#[trigger] entries[i]).0) && text_fits(entries[i].1)
}

/// Whether the mapping can be written: its count and every text fit.
pub open spec fn mapping_fits(entries: Seq<(Seq<char>, Seq<char>)>) -> bool {
    entries.len() <= max_length() && entries_fit(entries)
}

/// The entries of a longer sequence are those of its front, then the last one.
pub proof fn lemma_entries_bytes_push(
    entries: Seq<(Seq<char>, Seq<char>)>,
    last: (Seq<char>, Seq<char>),
)
    ensures
        entries_bytes(entries.push(last)) == entries_bytes(entries) + text_bytes(last.0)
            + text_bytes(last.1),
    decreases entries.len(),
{
    if entries.len() == 0 {
        assert(entries.push(last).drop_first() =~= Seq::empty());
        assert(entries_bytes(entries.push(last)) =~= text_bytes(last.0) + text_bytes(last.1)
            + entries_bytes(Seq::empty()));
        assert(entries_bytes(entries.push(last)) =~= entries_bytes(entries) + text_bytes(last.0)
            + text_bytes(last.1));
    } else {
        lemma_entries_bytes_push(entries.drop_first(), last);
        assert(entries.push(last).drop_first() =~= entries.drop_first().push(last));
        assert(entries.push(last)[0] == entries[0]);
        assert(entries_bytes(entries.push(last)) =~= entries_bytes(entries) + text_bytes(last.0)
            + text_bytes(last.1));
    }
}

fn put_be16(out: &mut Vec<u8>, v: u16)
    ensures
        final(out)@ == old(out)@ + be16(v as int),
{
    out.push((v / 0x100) as u8);
    out.push((v % 0x100) as u8);
    assert(out@ =~= old(out)@ + be16(v as int));
}

fn put_be32(out: &mut Vec<u8>, v: u32)
    ensures
        final(out)@ == old(out)@ + be32(v as int),
{
    put_be16(out, (v / 0x1_0000) as u16);
    put_be16(out, (v % 0x1_0000) as u16);
    assert(out@ =~= old(out)@ + be32(v as int));
}

fn put_be64(out: &mut Vec<u8>, v: u64)
    ensures
        final(out)@ == old(out)@ + be64(v as int),
{
    put_be32(out, (v / 0x1_0000_0000) as u32);
    put_be32(out, (v % 0x1_0000_0000) as u32);
    assert(out@ =~= old(out)@ + be64(v as int));
}

/// Appends the length of a value of the family, in the shortest form.
pub fn put_length(out: &mut Vec<u8>, family: Family, len: u32)
    ensures
        final(out)@ == old(out)@ + length_bytes(family, len as int),
{
    reveal(length_bytes);
    let (limit, base, with8, m16, m32): (u32, u8, bool, u8, u8) = match family {
        Family::Text => (32, 0xa0, true, 0xda, 0xdb),
        Family::Array => (16, 0x90, false, 0xdc, 0xdd),
        Family::Mapping => (16, 0x80, false, 0xde, 0xdf),
    };
    if len < limit {
        out.push(base + (len as u8));
        assert(out@ =~= old(out)@ + length_bytes(family, len as int));
    } else if with8 && len < 0x100 {
        out.push(0xd9);
        out.push(len as u8);
        assert(out@ =~= old(out)@ + length_bytes(family, len as int));
    } else if len < 0x1_0000 {
        out.push(m16);
        let ghost mid = out@;
        put_be16(out, len as u16);
        assert(out@ =~= old(out)@ + length_bytes(family, len as int));
    } else {
        out.push(m32);
        put_be32(out, len);
        assert(out@ =~= old(out)@ + length_bytes(family, len as int));
    }
}

/// Appends a non-negative integer in the shortest form.
pub fn put_uint(out: &mut Vec<u8>, v: u64)
    ensures
        final(out)@ == old(out)@ + uint_bytes(v as int),
{
    reveal(uint_bytes);
    if v < 0x80 {
        out.push(v as u8);
        assert(out@ =~= old(out)@ + uint_bytes(v as int));
    } else if v < 0x100 {
        out.push(0xcc);
        out.push(v as u8);
        assert(out@ =~= old(out)@ + uint_bytes(v as int));
    } else if v < 0x1_0000 {
        out.push(0xcd);
        put_be16(out, v as u16);
        assert(out@ =~= old(out)@ + uint_bytes(v as int));
    } else if v < 0x1_0000_0000 {
        out.push(0xce);
        put_be32(out, v as u32);
        assert(out@ =~= old(out)@ + uint_bytes(v as int));
    } else {
        out.push(0xcf);
        put_be64(out, v);
        assert(out@ =~= old(out)@ + uint_bytes(v as int));
    }
}

/// Appends the absent value.
pub fn put_nil(out: &mut Vec<u8>)
    ensures
        final(out)@ == old(out)@ + nil_bytes(),
{
    out.push(0xc0);
    assert(out@ =~= old(out)@ + nil_bytes());
}

/// Appends a text, unless its UTF-8 form is too long for the format; then
/// nothing is appended.
pub fn put_text(out: &mut Vec<u8>, text: &str) -> (r: Result<(), WireError>)
    ensures
        r is Ok <==> text_fits(text@),
        r is Ok ==> final(out)@ == old(out)@ + text_bytes(text@),
        r is Err ==> r == Err::<(), WireError>(WireError::TooLong) && final(out)@ == old(out)@,
{
    let bytes = text.as_bytes();
    if bytes.len() > 0xffff_ffff {
        return Err(WireError::TooLong);
    }
    put_length(out, Family::Text, bytes.len() as u32);
    out.extend_from_slice(bytes);
    assert(out@ =~= old(out)@ + text_bytes(text@)) by {
        reveal(text_bytes);
    }
    Ok(())
}


/// The bytes from a place on; none from a place past the end.
pub open spec fn rest_from(s: Seq<u8>, pos: int) -> Seq<u8> {
    if 0 <= pos <= s.len() {
        s.skip(pos)
    } else {
        Seq::empty()
    }
}

/// The width in bytes of the integer that follows a marker from 0xcc to 0xd3.
pub open spec fn int_width(marker: u8) -> int {
    if marker == 0xcc || marker == 0xd0 {
        1
    } else if marker == 0xcd || marker == 0xd1 {
        2
    } else if marker == 0xce || marker == 0xd2 {
        4
    } else {
        8
    }
}

/// Reads the length in front of a value of the family: the length and the
/// number of bytes it took. Every form of the family is read, also one that is
/// longer than the length needs.
#[verifier::opaque]
pub open spec fn parse_length(s: Seq<u8>, family: Family) -> Result<(int, int), WireError> {
    if s.len() < 1 {
        Err(WireError::Truncated)
    } else if family.short_base() <= s[0] < family.short_base() + family.short_limit() {
        Ok((s[0] - family.short_base(), 1))
    } else if family.marker8() == Some(s[0]) {
        if s.len() < 2 {
            Err(WireError::Truncated)
        } else {
            Ok((be_value(s.skip(1), 1), 2))
        }
    } else if s[0] == family.marker16() {
        if s.len() < 3 {
            Err(WireError::Truncated)
        } else {
            Ok((be_value(s.skip(1), 2), 3))
        }
    } else if s[0] == family.marker32() {
        if s.len() < 5 {
            Err(WireError::Truncated)
        } else {
            Ok((be_value(s.skip(1), 4), 5))
        }
    } else {
        Err(WireError::Mismatch)
    }
}

/// Reads a non-negative integer, whatever its width and whether it was
/// written as signed or unsigned: the number and the bytes it took.
#[verifier::opaque]
pub open spec fn parse_uint(s: Seq<u8>) -> Result<(int, int), WireError> {
    if s.len() < 1 {
        Err(WireError::Truncated)
    } else if s[0] < 0x80 {
        Ok((s[0] as int, 1))
    } else if s[0] >= 0xe0 {
        Err(WireError::OutOfRange)
    } else if 0xcc <= s[0] <= 0xd3 {
        if s.len() < 1 + int_width(s[0]) {
            Err(WireError::Truncated)
        } else if s[0] >= 0xd0 && s[1] >= 0x80 {
            Err(WireError::OutOfRange)
        } else {
            Ok((be_value(s.skip(1), int_width(s[0])), 1 + int_width(s[0])))
        }
    } else {
        Err(WireError::Mismatch)
    }
}

/// Reads a text: its characters and the bytes it took.
#[verifier::opaque]
pub open spec fn parse_text(s: Seq<u8>) -> Result<(Seq<char>, int), WireError> {
    match parse_length(s, Family::Text) {
        Err(e) => Err(e),
        Ok((len, head)) => {
            if s.len() < head + len {
                Err(WireError::Truncated)
            } else if !valid_utf8(s.subrange(head, head + len)) {
                Err(WireError::InvalidText)
            } else {
                Ok((decode_utf8(s.subrange(head, head + len)), head + len))
            }
        },
    }
}

/// Reads a text that may be absent.
pub open spec fn parse_optional_text(s: Seq<u8>) -> Result<(Option<Seq<char>>, int), WireError> {
    if s.len() < 1 {
        Err(WireError::Truncated)
    } else if s[0] == 0xc0 {
        Ok((None, 1))
    } else {
        match parse_text(s) {
            Err(e) => Err(e),
            Ok((text, used)) => Ok((Some(text), used)),
        }
    }
}

/// Reads `count` entries, name then value each.
pub open spec fn parse_entries(s: Seq<u8>, count: nat) -> Result<
    (Seq<(Seq<char>, Seq<char>)>, int),
    WireError,
>
    decreases count,
{
    if count == 0 {
        Ok((Seq::empty(), 0))
    } else {
        match parse_text(s) {
            Err(e) => Err(e),
            Ok((name, used_name)) => match parse_text(s.skip(used_name)) {
                Err(e) => Err(e),
                Ok((value, used_value)) => match parse_entries(
                    s.skip(used_name + used_value),
                    (count - 1) as nat,
                ) {
                    Err(e) => Err(e),
                    Ok((rest, used_rest)) => Ok(
                        (seq![(name, value)] + rest, used_name + used_value + used_rest),
                    ),
                },
            },
        }
    }
}

/// Reads a mapping from text to text: its entries as written, and the bytes it took.
pub open spec fn parse_mapping(s: Seq<u8>) -> Result<(Seq<(Seq<char>, Seq<char>)>, int), WireError> {
    match parse_length(s, Family::Mapping) {
        Err(e) => Err(e),
        Ok((count, head)) => match parse_entries(s.skip(head), count as nat) {
            Err(e) => Err(e),
            Ok((entries, used)) => Ok((entries, head + used)),
        },
    }
}

/// What is read never reaches past the end, and lengths and integers are in range.
pub proof fn lemma_parse_bounds(s: Seq<u8>)
    ensures
        parse_length(s, Family::Text) matches Ok((len, used)) ==> 0 <= len <= max_length() && 1
            <= used <= s.len() && used <= 5,
        parse_length(s, Family::Array) matches Ok((len, used)) ==> 0 <= len <= max_length() && 1
            <= used <= s.len() && used <= 5,
        parse_length(s, Family::Mapping) matches Ok((len, used)) ==> 0 <= len <= max_length() && 1
            <= used <= s.len() && used <= 5,
        parse_uint(s) matches Ok((v, used)) ==> 0 <= v <= u64::MAX && 1 <= used <= s.len(),
        parse_text(s) matches Ok((t, used)) ==> 1 <= used <= s.len(),
        parse_optional_text(s) matches Ok((t, used)) ==> 1 <= used <= s.len(),
{
    reveal(parse_text);
    reveal(parse_length);
    reveal(parse_uint);
}

/// Reading entries never reaches past the end and gives as many as were asked for.
pub proof fn lemma_parse_entries_bounds(s: Seq<u8>, count: nat)
    ensures
        parse_entries(s, count) matches Ok((entries, used)) ==> 0 <= used <= s.len()
            && entries.len() == count,
    decreases count,
{
    if count > 0 {
        lemma_parse_bounds(s);
        if let Ok((name, used_name)) = parse_text(s) {
            lemma_parse_bounds(s.skip(used_name));
            if let Ok((value, used_value)) = parse_text(s.skip(used_name)) {
                lemma_parse_entries_bounds(s.skip(used_name + used_value), (count - 1) as nat);
            }
        }
    }
}


fn read_be16(bytes: &[u8], pos: usize) -> (v: u64)
    requires
        pos + 2 <= bytes@.len(),
    ensures
        v == value16(bytes@.skip(pos as int)),
        v < 0x1_0000,
{
    (bytes[pos] as u64) * 0x100 + (bytes[pos + 1] as u64)
}

fn read_be32(bytes: &[u8], pos: usize) -> (v: u64)
    requires
        pos + 4 <= bytes@.len(),
    ensures
        v == value32(bytes@.skip(pos as int)),
        v < 0x1_0000_0000,
{
    assert(bytes@.skip(pos as int).skip(2) =~= bytes@.skip(pos + 2));
    assert(bytes@.len() == vstd::slice::spec_slice_len(bytes));
    read_be16(bytes, pos) * 0x1_0000 + read_be16(bytes, pos + 2)
}

fn read_be(bytes: &[u8], pos: usize, width: usize) -> (v: u64)
    requires
        width == 1 || width == 2 || width == 4 || width == 8,
        pos + width <= bytes@.len(),
    ensures
        v == be_value(bytes@.skip(pos as int), width as int),
        width == 1 ==> v < 0x100,
        width == 2 ==> v < 0x1_0000,
        width == 4 ==> v < 0x1_0000_0000,
{
    if width == 1 {
        bytes[pos] as u64
    } else if width == 2 {
        read_be16(bytes, pos)
    } else if width == 4 {
        read_be32(bytes, pos)
    } else {
        assert(bytes@.skip(pos as int).skip(4) =~= bytes@.skip(pos + 4));
        assert(bytes@.len() == vstd::slice::spec_slice_len(bytes));
        read_be32(bytes, pos) * 0x1_0000_0000 + read_be32(bytes, pos + 4)
    }
}

/// Reads at `pos` the length in front of a value of the family. Gives the
/// length and the place after it.
pub fn read_length(bytes: &[u8], pos: usize, family: Family) -> (r: Result<(u32, usize), WireError>)
    ensures
        match parse_length(rest_from(bytes@, pos as int), family) {
            Ok((len, used)) => r matches Ok((n, next)) && n == len && next == pos + used && next
                <= bytes@.len(),
            Err(e) => r matches Err(x) && x == e,
        },
{
    let ghost s = rest_from(bytes@, pos as int);
    reveal(parse_length);
    if pos >= bytes.len() {
        return Err(WireError::Truncated);
    }
    let left = bytes.len() - pos;
    let marker = bytes[pos];
    assert(s[0] == marker);
    let (limit, base, with8, m16, m32): (u8, u8, bool, u8, u8) = match family {
        Family::Text => (32, 0xa0, true, 0xda, 0xdb),
        Family::Array => (16, 0x90, false, 0xdc, 0xdd),
        Family::Mapping => (16, 0x80, false, 0xde, 0xdf),
    };
    if base <= marker && marker - base < limit {
        Ok(((marker - base) as u32, pos + 1))
    } else if with8 && marker == 0xd9 {
        if left < 2 {
            Err(WireError::Truncated)
        } else {
            let v = read_be(bytes, pos + 1, 1);
            assert(s.skip(1) =~= bytes@.skip(pos + 1));
            Ok((v as u32, pos + 2))
        }
    } else if marker == m16 {
        if left < 3 {
            Err(WireError::Truncated)
        } else {
            let v = read_be(bytes, pos + 1, 2);
            assert(s.skip(1) =~= bytes@.skip(pos + 1));
            Ok((v as u32, pos + 3))
        }
    } else if marker == m32 {
        if left < 5 {
            Err(WireError::Truncated)
        } else {
            let v = read_be(bytes, pos + 1, 4);
            assert(s.skip(1) =~= bytes@.skip(pos + 1));
            Ok((v as u32, pos + 5))
        }
    } else {
        Err(WireError::Mismatch)
    }
}

/// Reads at `pos` a non-negative integer of any width. Gives the number and
/// the place after it.
pub fn read_uint(bytes: &[u8], pos: usize) -> (r: Result<(u64, usize), WireError>)
    ensures
        match parse_uint(rest_from(bytes@, pos as int)) {
            Ok((v, used)) => r matches Ok((n, next)) && n == v && next == pos + used && next
                <= bytes@.len(),
            Err(e) => r matches Err(x) && x == e,
        },
{
    let ghost s = rest_from(bytes@, pos as int);
    reveal(parse_uint);
    if pos >= bytes.len() {
        return Err(WireError::Truncated);
    }
    let left = bytes.len() - pos;
    let marker = bytes[pos];
    assert(s[0] == marker);
    if marker < 0x80 {
        Ok((marker as u64, pos + 1))
    } else if marker >= 0xe0 {
        Err(WireError::OutOfRange)
    } else if 0xcc <= marker && marker <= 0xd3 {
        let width: usize = if marker == 0xcc || marker == 0xd0 {
            1
        } else if marker == 0xcd || marker == 0xd1 {
            2
        } else if marker == 0xce || marker == 0xd2 {
            4
        } else {
            8
        };
        if left < 1 + width {
            Err(WireError::Truncated)
        } else if marker >= 0xd0 && bytes[pos + 1] >= 0x80 {
            assert(s[1] == bytes[pos + 1]);
            Err(WireError::OutOfRange)
        } else {
            assert(s[1] == bytes[pos + 1]);
            let v = read_be(bytes, pos + 1, width);
            assert(s.skip(1) =~= bytes@.skip(pos + 1));
            Ok((v, pos + 1 + width))
        }
    } else {
        Err(WireError::Mismatch)
    }
}

/// Reads at `pos` a text. Gives the text and the place after it.
pub fn read_text(bytes: &[u8], pos: usize) -> (r: Result<(String, usize), WireError>)
    ensures
        match parse_text(rest_from(bytes@, pos as int)) {
            Ok((text, used)) => r matches Ok((t, next)) && t@ == text && next == pos + used && next
                <= bytes@.len(),
            Err(e) => r matches Err(x) && x == e,
        },
{
    let ghost s = rest_from(bytes@, pos as int);
    reveal(parse_text);
    proof {
        lemma_parse_bounds(s);
    }
    let (len, start) = match read_length(bytes, pos, Family::Text) {
        Ok(found) => found,
        Err(e) => { return Err(e); },
    };
    if bytes.len() - start < len as usize {
        return Err(WireError::Truncated);
    }
    let end = start + len as usize;
    let body = slice_subrange(bytes, start, end);
    assert(body@ =~= s.subrange(start - pos, start - pos + len));
    match checked_text(body) {
        Some(text) => Ok((text.to_owned(), end)),
        None => Err(WireError::InvalidText),
    }
}

/// Reads at `pos` a text that may be absent. Gives it and the place after it.
pub fn read_optional_text(bytes: &[u8], pos: usize) -> (r: Result<
    (Option<String>, usize),
    WireError,
>)
    ensures
        match parse_optional_text(rest_from(bytes@, pos as int)) {
            Ok((text, used)) => r matches Ok((t, next)) && next == pos + used && next
                <= bytes@.len() && match text {
                Some(chars) => t matches Some(found) && found@ == chars,
                None => t is None,
            },
            Err(e) => r matches Err(x) && x == e,
        },
{
    if pos >= bytes.len() {
        return Err(WireError::Truncated);
    }
    assert(rest_from(bytes@, pos as int)[0] == bytes[pos as int]);
    if bytes[pos] == 0xc0 {
        Ok((None, pos + 1))
    } else {
        match read_text(bytes, pos) {
            Ok((text, next)) => Ok((Some(text), next)),
            Err(e) => Err(e),
        }
    }
}


/// A length that was written is read back, whatever follows it.
pub proof fn lemma_length_round_trip(family: Family, len: int, rest: Seq<u8>)
    requires
        0 <= len <= max_length(),
    ensures
        parse_length(length_bytes(family, len) + rest, family) == Ok::<(int, int), WireError>(
            (len, length_bytes(family, len).len() as int),
        ),
        1 <= length_bytes(family, len).len() <= 5,
        length_bytes(family, len)[0] != 0xc0,
{
    reveal(length_bytes);
    reveal(parse_length);
    let written = length_bytes(family, len);
    let s = written + rest;
    assert(s[0] == written[0]);
    if len < family.short_limit() {
    } else if family.marker8() is Some && len < 0x100 {
        assert(s.skip(1)[0] == written[1]);
    } else if len < 0x1_0000 {
        lemma_value16(len, rest);
        assert(s.skip(1) =~= be16(len) + rest);
    } else {
        lemma_value32(len, rest);
        assert(s.skip(1) =~= be32(len) + rest);
    }
}

/// An integer that was written is read back, whatever follows it.
pub proof fn lemma_uint_round_trip(v: int, rest: Seq<u8>)
    requires
        0 <= v <= u64::MAX,
    ensures
        parse_uint(uint_bytes(v) + rest) == Ok::<(int, int), WireError>(
            (v, uint_bytes(v).len() as int),
        ),
        1 <= uint_bytes(v).len() <= 9,
{
    reveal(uint_bytes);
    reveal(parse_uint);
    let written = uint_bytes(v);
    let s = written + rest;
    assert(s[0] == written[0]);
    if v < 0x80 {
    } else if v < 0x100 {
        assert(s.skip(1)[0] == written[1]);
    } else if v < 0x1_0000 {
        lemma_value16(v, rest);
        assert(s.skip(1) =~= be16(v) + rest);
    } else if v < 0x1_0000_0000 {
        lemma_value32(v, rest);
        assert(s.skip(1) =~= be32(v) + rest);
    } else {
        lemma_value64(v, rest);
        assert(s.skip(1) =~= be64(v) + rest);
    }
}

/// A text that was written is read back, whatever follows it.
pub proof fn lemma_text_round_trip(text: Seq<char>, rest: Seq<u8>)
    requires
        text_fits(text),
    ensures
        parse_text(text_bytes(text) + rest) == Ok::<(Seq<char>, int), WireError>(
            (text, text_bytes(text).len() as int),
        ),
        text_bytes(text).len() >= 1,
        text_bytes(text)[0] != 0xc0,
{
    reveal(text_bytes);
    reveal(parse_text);
    let body = encode_utf8(text);
    let head = length_bytes(Family::Text, body.len() as int);
    let s = text_bytes(text) + rest;
    assert(s =~= head + (body + rest));
    lemma_length_round_trip(Family::Text, body.len() as int, body + rest);
    assert(s.subrange(head.len() as int, (head.len() + body.len()) as int) =~= body);
    encode_utf8_valid_utf8(text);
    encode_utf8_decode_utf8(text);
    assert(text_bytes(text)[0] == head[0]);
}

/// A text that may be absent is read back as it was written.
pub proof fn lemma_optional_text_round_trip(text: Option<Seq<char>>, rest: Seq<u8>)
    requires
        text matches Some(t) ==> text_fits(t),
    ensures
        parse_optional_text(optional_text_bytes(text) + rest) == Ok::<
            (Option<Seq<char>>, int),
            WireError,
        >((text, optional_text_bytes(text).len() as int)),
{
    match text {
        Some(t) => {
            lemma_text_round_trip(t, rest);
            assert((text_bytes(t) + rest)[0] == text_bytes(t)[0]);
        },
        None => {
            assert((nil_bytes() + rest)[0] == 0xc0);
        },
    }
}

/// Entries that were written are read back, whatever follows them.
pub proof fn lemma_entries_round_trip(entries: Seq<(Seq<char>, Seq<char>)>, rest: Seq<u8>)
    requires
        entries_fit(entries),
    ensures
        parse_entries(entries_bytes(entries) + rest, entries.len()) == Ok::<
            (Seq<(Seq<char>, Seq<char>)>, int),
            WireError,
        >((entries, entries_bytes(entries).len() as int)),
    decreases entries.len(),
{
    if entries.len() == 0 {
        assert(entries =~= Seq::empty());
    } else {
        let name = text_bytes(entries[0].0);
        let value = text_bytes(entries[0].1);
        let tail = entries.drop_first();
        let after = entries_bytes(tail) + rest;
        let s = entries_bytes(entries) + rest;
        assert(s =~= name + (value + after));
        lemma_text_round_trip(entries[0].0, value + after);
        assert(s.skip(name.len() as int) =~= value + after);
        lemma_text_round_trip(entries[0].1, after);
        assert(s.skip((name.len() + value.len()) as int) =~= after);
        assert forall|i: int| 0 <= i < tail.len() implies text_fits((#[trigger] tail[i]).0)
            && text_fits(tail[i].1) by {
            assert(tail[i] == entries[i + 1]);
        }
        lemma_entries_round_trip(tail, rest);
        assert(seq![(entries[0].0, entries[0].1)] + tail =~= entries);
        assert(parse_text(s) == Ok::<(Seq<char>, int), WireError>(
            (entries[0].0, name.len() as int),
        ));
        assert(parse_text(s.skip(name.len() as int)) == Ok::<(Seq<char>, int), WireError>(
            (entries[0].1, value.len() as int),
        ));
        assert(parse_entries(s.skip((name.len() + value.len()) as int), (entries.len() - 1) as nat) == Ok::<
            (Seq<(Seq<char>, Seq<char>)>, int),
            WireError,
        >((tail, entries_bytes(tail).len() as int)));
        assert(entries_bytes(entries).len() == name.len() + value.len() + entries_bytes(
            tail,
        ).len());
    }
}

/// A mapping that was written is read back, whatever follows it.
pub proof fn lemma_mapping_round_trip(entries: Seq<(Seq<char>, Seq<char>)>, rest: Seq<u8>)
    requires
        mapping_fits(entries),
    ensures
        parse_mapping(mapping_bytes(entries) + rest) == Ok::<
            (Seq<(Seq<char>, Seq<char>)>, int),
            WireError,
        >((entries, mapping_bytes(entries).len() as int)),
{
    let head = length_bytes(Family::Mapping, entries.len() as int);
    let s = mapping_bytes(entries) + rest;
    assert(s =~= head + (entries_bytes(entries) + rest));
    lemma_length_round_trip(Family::Mapping, entries.len() as int, entries_bytes(entries) + rest);
    assert(s.skip(head.len() as int) =~= entries_bytes(entries) + rest);
    lemma_entries_round_trip(entries, rest);
}


fn mapping_can_be_written(headers: &Headers) -> (r: bool)
    ensures
        r == mapping_fits(headers.entries()),
{
    let count = headers.len();
    let ghost entries = headers.entries();
    if count > 0xffff_ffff {
        return false;
    }
    let mut i: usize = 0;
    while i < count
        invariant
            i <= count,
            count == entries.len(),
            entries == headers.entries(),
            entries_fit(entries.take(i as int)),
        decreases count - i,
    {
        if headers.name_at(i).as_str().as_bytes().len() > 0xffff_ffff {
            assert(!text_fits(entries[i as int].0));
            return false;
        }
        if headers.value_at(i).as_str().as_bytes().len() > 0xffff_ffff {
            assert(!text_fits(entries[i as int].1));
            return false;
        }
        proof {
            let next = entries.take(i + 1);
            assert forall|j: int| 0 <= j < next.len() implies text_fits((#[trigger] next[j]).0)
                && text_fits(next[j].1) by {
                if j < i {
                    assert(next[j] == entries.take(i as int)[j]);
                }
            }
        }
        i += 1;
    }
    assert(entries.take(count as int) =~= entries);
    true
}

/// Appends the headers as a mapping, in the order of their entries. Where
/// the count or a text is too long for the format, nothing is appended.
pub fn put_mapping(out: &mut Vec<u8>, headers: &Headers) -> (r: Result<(), WireError>)
    ensures
        r is Ok <==> mapping_fits(headers.entries()),
        r is Ok ==> final(out)@ == old(out)@ + mapping_bytes(headers.entries()),
        r is Err ==> r == Err::<(), WireError>(WireError::TooLong) && final(out)@ == old(out)@,
{
    if !mapping_can_be_written(headers) {
        return Err(WireError::TooLong);
    }
    let count = headers.len();
    let ghost entries = headers.entries();
    put_length(out, Family::Mapping, count as u32);
    let ghost start = out@;
    let mut i: usize = 0;
    while i < count
        invariant
            i <= count,
            count == entries.len(),
            entries == headers.entries(),
            entries_fit(entries),
            out@ == start + entries_bytes(entries.take(i as int)),
        decreases count - i,
    {
        let ghost front = entries.take(i as int);
        let ghost next = entries.take(i + 1);
        proof {
            assert(next =~= front.push(entries[i as int]));
            lemma_entries_bytes_push(front, entries[i as int]);
            assert(text_fits(entries[i as int].0) && text_fits(entries[i as int].1));
        }
        match put_text(out, headers.name_at(i).as_str()) {
            Ok(()) => {},
            Err(e) => { return Err(e); },
        }
        match put_text(out, headers.value_at(i).as_str()) {
            Ok(()) => {},
            Err(e) => { return Err(e); },
        }
        assert(out@ =~= start + entries_bytes(next));
        i += 1;
    }
    proof {
        assert(entries.take(count as int) =~= entries);
        assert(out@ =~= old(out)@ + mapping_bytes(entries));
    }
    Ok(())
}

/// What reading entries gives when `front` was read before them in `used` bytes.
spec fn after_front(
    front: Seq<Entry>,
    used: int,
    rest: Result<(Seq<Entry>, int), WireError>,
) -> Result<(Seq<Entry>, int), WireError> {
    match rest {
        Ok((entries, more)) => Ok((front + entries, used + more)),
        Err(e) => Err(e),
    }
}

/// Reads at `pos` a mapping from text to text. Gives the headers, in which of
/// a name written more than once the last value counts, and the place after
/// the mapping.
pub fn read_mapping(bytes: &[u8], pos: usize) -> (r: Result<(Headers, usize), WireError>)
    ensures
        match parse_mapping(rest_from(bytes@, pos as int)) {
            Ok((entries, used)) => r matches Ok((headers, next)) && headers.entries() == collect(
                entries,
            ) && next == pos + used && next <= bytes@.len(),
            Err(e) => r matches Err(x) && x == e,
        },
{
    let ghost s = rest_from(bytes@, pos as int);
    proof {
        lemma_parse_bounds(s);
    }
    let (count, start) = match read_length(bytes, pos, Family::Mapping) {
        Ok(found) => found,
        Err(e) => { return Err(e); },
    };
    let ghost from = bytes@.skip(start as int);
    assert(parse_length(s, Family::Mapping) == Ok::<(int, int), WireError>(
        (count as int, start - pos),
    ));
    assert(from =~= s.skip(start - pos));
    let mut headers = Headers::new();
    let ghost mut read: Seq<Entry> = Seq::empty();
    let mut at: usize = start;
    let mut i: u32 = 0;
    proof {
        match parse_entries(from, count as nat) {
            Ok((entries, more)) => {
                assert(Seq::<Entry>::empty() + entries =~= entries);
            },
            Err(e) => {},
        }
    }
    while i < count
        invariant
            i <= count,
            start <= at <= bytes@.len(),
            from == bytes@.skip(start as int),
            from == s.skip(start - pos),
            pos <= start,
            s == bytes@.skip(pos as int),
            parse_length(s, Family::Mapping) == Ok::<(int, int), WireError>(
                (count as int, start - pos),
            ),
            read.len() == i,
            headers.entries() == collect(read),
            parse_entries(from, count as nat) == after_front(
                read,
                at - start,
                parse_entries(bytes@.skip(at as int), (count - i) as nat),
            ),
        decreases count - i,
    {
        let ghost here = bytes@.skip(at as int);
        proof {
            lemma_parse_bounds(here);
        }
        let (name, after_name) = match read_text(bytes, at) {
            Ok(found) => found,
            Err(e) => { return Err(e); },
        };
        proof {
            lemma_parse_bounds(bytes@.skip(after_name as int));
            assert(here.skip(after_name - at) =~= bytes@.skip(after_name as int));
        }
        let (value, after_value) = match read_text(bytes, after_name) {
            Ok(found) => found,
            Err(e) => { return Err(e); },
        };
        proof {
            let entry = (name@, value@);
            assert(here.skip(after_value - at) =~= bytes@.skip(after_value as int));
            match parse_entries(bytes@.skip(after_value as int), (count - i - 1) as nat) {
                Ok((entries, more)) => {
                    assert(read + (seq![entry] + entries) =~= read.push(entry) + entries);
                },
                Err(e) => {},
            }
            assert(read.push(entry).drop_last() =~= read);
            read = read.push(entry);
        }
        headers.insert(name, value);
        at = after_value;
        i += 1;
    }
    Ok((headers, at))
}

} // verus!
