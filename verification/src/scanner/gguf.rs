//! The GGUF model file header: a byte-level reader for its key/value
//! metadata section, with the format stated as spec functions.
//!
//! The reader works on the bytes of the file as read so far. A read past the
//! end of those bytes fails; a skip may move past the end, and only a later
//! read notices. Skipping to a position beyond `i64::MAX` fails, as seeking
//! there does.
use vstd::prelude::*;
use vstd::bytes::{
    spec_u16_from_le_bytes, spec_u32_from_le_bytes, spec_u64_from_le_bytes, u16_from_le_bytes,
    u32_from_le_bytes, u64_from_le_bytes,
};
use vstd::slice::slice_subrange;
use vstd::utf8::{decode_utf8, valid_utf8};

use crate::text::{concat3, decimal, decimal_string, chars_eq, chars_of};

verus! {

/// The error text of a read that ran out of bytes.
pub open spec fn eof_text() -> Seq<char> {
    "failed to fill whole buffer"@
}

/// The error text of a skip past the last seekable position.
pub open spec fn skip_error_text() -> Seq<char> {
    "Could not skip GGUF metadata bytes: invalid seek to a negative or overflowing position"@
}

/// Bytes left after `pos` (none once `pos` has passed the end).
pub open spec fn rem(b: Seq<u8>, pos: int) -> nat {
    if pos < b.len() {
        (b.len() - pos) as nat
    } else {
        0
    }
}

/// The `n` bytes at `pos`, if the data holds them.
pub open spec fn bytes_at(b: Seq<u8>, pos: int, n: int) -> Option<Seq<u8>> {
    if 0 <= pos && 0 <= n && pos + n <= b.len() {
        Some(b.subrange(pos, pos + n))
    } else {
        None
    }
}

/// Where the reader stands after a read that ran out of bytes: a short read
/// consumes what was left.
pub open spec fn after_failed_read(b: Seq<u8>, pos: int) -> int {
    if pos < b.len() {
        b.len() as int
    } else {
        pos
    }
}

/// The little-endian unsigned value of `n` bytes (`n` is 1, 2, 4 or 8).
pub open spec fn le_value(s: Seq<u8>, n: int) -> u64 {
    if n == 1 {
        s[0] as u64
    } else if n == 2 {
        spec_u16_from_le_bytes(s) as u64
    } else if n == 4 {
        spec_u32_from_le_bytes(s) as u64
    } else {
        spec_u64_from_le_bytes(s)
    }
}

/// Reads an `n`-byte little-endian unsigned integer at `pos`: the value, if
/// there were enough bytes, and the position afterwards.
pub open spec fn read_uint(b: Seq<u8>, pos: int, n: int) -> (Option<u64>, int) {
    match bytes_at(b, pos, n) {
        Some(s) => (Some(le_value(s, n)), pos + n),
        None => (None, after_failed_read(b, pos)),
    }
}

/// A signed integer of `n` bytes is non-negative exactly when its unsigned
/// reading is below `2^(8n-1)`; it then has the same value.
pub open spec fn signed_non_negative(v: u64, n: int) -> bool {
    if n == 1 {
        v < 0x80
    } else if n == 2 {
        v < 0x8000
    } else if n == 4 {
        v < 0x8000_0000
    } else {
        v < 0x8000_0000_0000_0000
    }
}

/// Moves `n` bytes forward (`Seek::seek` from the current position).
pub open spec fn skip(pos: int, n: int) -> Result<int, Seq<char>> {
    if pos + n <= i64::MAX {
        Ok(pos + n)
    } else {
        Err(skip_error_text())
    }
}

/// Reads an `n`-byte little-endian unsigned integer at `pos`.
pub fn read_uint_exec(data: &[u8], pos: u64, n: u64) -> (r: (Option<u64>, u64))
    requires
        n == 1 || n == 2 || n == 4 || n == 8,
        pos <= i64::MAX,
        data@.len() <= i64::MAX,
    ensures
        r.0 == read_uint(data@, pos as int, n as int).0,
        r.1 == read_uint(data@, pos as int, n as int).1,
        r.1 <= i64::MAX,
        r.1 >= pos,
{
    let len = data.len() as u64;
    if pos <= len && n <= len - pos {
        let start = pos as usize;
        let end = (pos + n) as usize;
        let s = slice_subrange(data, start, end);
        let v: u64 = if n == 1 {
            s[0] as u64
        } else if n == 2 {
            u16_from_le_bytes(s) as u64
        } else if n == 4 {
            u32_from_le_bytes(s) as u64
        } else {
            u64_from_le_bytes(s)
        };
        (Some(v), pos + n)
    } else {
        if pos < len {
            (None, len)
        } else {
            (None, pos)
        }
    }
}

/// What the reader keeps of one metadata value.
#[derive(Debug, Clone, PartialEq, Eq)]
pub enum GgufValue {
    String(String),
    Integer(u64),
    StringArray(Vec<String>),
}

/// A kept metadata value, as plain text and numbers.
pub ghost enum GgufSpecValue {
    Str(Seq<char>),
    Int(u64),
    Arr(Seq<Seq<char>>),
}

pub open spec fn value_view(v: GgufValue) -> GgufSpecValue {
    match v {
        GgufValue::String(s) => GgufSpecValue::Str(s@),
        GgufValue::Integer(i) => GgufSpecValue::Int(i),
        GgufValue::StringArray(a) => GgufSpecValue::Arr(a@.map_values(|s: String| s@)),
    }
}

/// What `String::from_utf8` reports about bytes that are not UTF-8; the
/// text is std's and is not restated here.
pub uninterp spec fn utf8_error_text(b: Seq<u8>) -> Seq<char>;

/// Decodes UTF-8 (`String::from_utf8`): it succeeds exactly on valid UTF-8,
/// with the decoded characters; otherwise it gives std's error text.
#[verifier::external_body]
fn decode_utf8_bytes(b: &[u8]) -> (r: Result<String, String>)
    ensures
        match r {
            Ok(s) => valid_utf8(b@) && s@ == decode_utf8(b@),
            Err(e) => !valid_utf8(b@) && e@ == utf8_error_text(b@),
        },
{
    match String::from_utf8(b.to_vec()) {
        Ok(s) => Ok(s),
        Err(e) => Err(e.to_string()),
    }
}

pub open spec fn too_large_text(len: u64) -> Seq<char> {
    "GGUF metadata string is too large: "@ + decimal(len as nat) + " bytes."@
}

pub open spec fn string_read_error_text() -> Seq<char> {
    "Could not read GGUF metadata string: "@ + eof_text()
}

pub open spec fn not_utf8_text(raw: Seq<u8>) -> Seq<char> {
    "GGUF metadata string is not UTF-8: "@ + utf8_error_text(raw)
}

pub open spec fn unsupported_text(t: u32) -> Seq<char> {
    "Unsupported GGUF metadata value type "@ + decimal(t as nat) + "."@
}

/// A length-prefixed string (at most 1 MiB) and the position after it.
pub open spec fn read_string(b: Seq<u8>, pos: int) -> Result<(Seq<char>, int), Seq<char>> {
    match read_uint(b, pos, 8).0 {
        None => Err(eof_text()),
        Some(len) => if len > 1048576 {
            Err(too_large_text(len))
        } else {
            match bytes_at(b, pos + 8, len as int) {
                None => Err(string_read_error_text()),
                Some(raw) => if valid_utf8(raw) {
                    Ok((decode_utf8(raw), pos + 8 + len))
                } else {
                    Err(not_utf8_text(raw))
                },
            }
        },
    }
}

/// The size of a fixed-size value type (0 for strings, arrays and unknown
/// types).
pub open spec fn fixed_size(t: u32) -> int {
    if t == 0 || t == 1 || t == 7 {
        1
    } else if t == 2 || t == 3 {
        2
    } else if t == 4 || t == 5 || t == 6 {
        4
    } else if t == 10 || t == 11 || t == 12 {
        8
    } else {
        0
    }
}

/// How far skipping one value of type `t` at `pos` moves the reader.
pub open spec fn skip_value_adv(b: Seq<u8>, pos: int, t: u32) -> Result<nat, Seq<char>>
    decreases rem(b, pos), 0nat, 0nat,
{
    if fixed_size(t) > 0 {
        match skip(pos, fixed_size(t)) {
            Ok(_) => Ok(fixed_size(t) as nat),
            Err(e) => Err(e),
        }
    } else if t == 8 {
        match read_uint(b, pos, 8).0 {
            None => Err(eof_text()),
            Some(len) => match skip(pos + 8, len as int) {
                Ok(_) => Ok((8 + len) as nat),
                Err(e) => Err(e),
            },
        }
    } else if t == 9 {
        match read_uint(b, pos, 4).0 {
            None => Err(eof_text()),
            Some(et) => match read_uint(b, pos + 4, 8).0 {
                None => Err(eof_text()),
                Some(n) => match skip_elems_adv(b, pos + 12, et as u32, n as nat) {
                    Ok(a) => Ok(12 + a),
                    Err(e) => Err(e),
                },
            },
        }
    } else {
        Err(unsupported_text(t))
    }
}

/// How far skipping `count` values of type `t` at `pos` moves the reader.
pub open spec fn skip_elems_adv(b: Seq<u8>, pos: int, t: u32, count: nat) -> Result<
    nat,
    Seq<char>,
>
    decreases rem(b, pos), count, 1nat,
{
    if count == 0 {
        Ok(0)
    } else {
        match skip_value_adv(b, pos, t) {
            Err(e) => Err(e),
            Ok(a) => match skip_elems_adv(b, pos + a, t, (count - 1) as nat) {
                Ok(a2) => Ok(a + a2),
                Err(e) => Err(e),
            },
        }
    }
}

/// `count` strings in a row and the position after them.
pub open spec fn read_strings(b: Seq<u8>, pos: int, count: nat) -> Result<
    (Seq<Seq<char>>, int),
    Seq<char>,
>
    decreases count,
{
    if count == 0 {
        Ok((Seq::empty(), pos))
    } else {
        match read_string(b, pos) {
            Err(e) => Err(e),
            Ok((s, p1)) => match read_strings(b, p1, (count - 1) as nat) {
                Err(e) => Err(e),
                Ok((rest, p2)) => Ok((seq![s] + rest, p2)),
            },
        }
    }
}

/// The string values the reader keeps.
pub open spec fn collects_string(key: Seq<char>) -> bool {
    ||| key == "general.architecture"@
    ||| key == "general.size_label"@
    ||| key == "general.license"@
    ||| key == "general.license.name"@
    ||| key == "general.repo_url"@
    ||| key == "general.source.repo_url"@
    ||| key == "tokenizer.ggml.model"@
}

/// The string arrays the reader keeps.
pub open spec fn collects_array(key: Seq<char>) -> bool {
    ||| key == "general.tags"@
    ||| key == "general.languages"@
    ||| key == "general.datasets"@
}

/// An array value: kept for the listed string arrays, skipped otherwise.
pub open spec fn read_array(b: Seq<u8>, pos: int, key: Seq<char>) -> Result<
    (Option<GgufSpecValue>, int),
    Seq<char>,
> {
    match read_uint(b, pos, 4).0 {
        None => Err(eof_text()),
        Some(et) => match read_uint(b, pos + 4, 8).0 {
            None => Err(eof_text()),
            Some(n) => if et == 8 && collects_array(key) {
                match read_strings(b, pos + 12, n as nat) {
                    Ok((v, p)) => Ok((Some(GgufSpecValue::Arr(v)), p)),
                    Err(e) => Err(e),
                }
            } else {
                match skip_elems_adv(b, pos + 12, et as u32, n as nat) {
                    Ok(a) => Ok((None, pos + 12 + a)),
                    Err(e) => Err(e),
                }
            },
        },
    }
}

/// An unsigned integer value of `n` bytes.
pub open spec fn unsigned_value(b: Seq<u8>, pos: int, n: int) -> Result<
    (Option<GgufSpecValue>, int),
    Seq<char>,
> {
    match read_uint(b, pos, n) {
        (Some(v), p) => Ok((Some(GgufSpecValue::Int(v)), p)),
        (None, _) => Err(eof_text()),
    }
}

/// A signed integer value of `n` bytes: kept when non-negative; a failed
/// read is not an error here.
pub open spec fn signed_value(b: Seq<u8>, pos: int, n: int) -> Result<
    (Option<GgufSpecValue>, int),
    Seq<char>,
> {
    match read_uint(b, pos, n) {
        (Some(v), p) => Ok(
            (
                if signed_non_negative(v, n) {
                    Some(GgufSpecValue::Int(v))
                } else {
                    None
                },
                p,
            ),
        ),
        (None, p) => Ok((None, p)),
    }
}

/// One metadata value of type `t` for `key`: what is kept of it and the
/// position after it.
pub open spec fn read_metadata_value(b: Seq<u8>, pos: int, t: u32, key: Seq<char>) -> Result<
    (Option<GgufSpecValue>, int),
    Seq<char>,
> {
    if t == 0 || t == 7 {
        unsigned_value(b, pos, 1)
    } else if t == 2 {
        unsigned_value(b, pos, 2)
    } else if t == 4 {
        unsigned_value(b, pos, 4)
    } else if t == 10 {
        unsigned_value(b, pos, 8)
    } else if t == 1 {
        signed_value(b, pos, 1)
    } else if t == 3 {
        signed_value(b, pos, 2)
    } else if t == 5 {
        signed_value(b, pos, 4)
    } else if t == 11 {
        signed_value(b, pos, 8)
    } else if t == 6 || t == 12 {
        match skip(pos, fixed_size(t)) {
            Ok(p) => Ok((None, p)),
            Err(e) => Err(e),
        }
    } else if t == 8 {
        if collects_string(key) {
            match read_string(b, pos) {
                Ok((s, p)) => Ok((Some(GgufSpecValue::Str(s)), p)),
                Err(e) => Err(e),
            }
        } else {
            match read_uint(b, pos, 8).0 {
                None => Err(eof_text()),
                Some(len) => match skip(pos + 8, len as int) {
                    Ok(p) => Ok((None, p)),
                    Err(e) => Err(e),
                },
            }
        }
    } else if t == 9 {
        read_array(b, pos, key)
    } else {
        Err(unsupported_text(t))
    }
}

/// The kept key/value pairs of `count` metadata entries, in file order.
pub open spec fn read_entries(b: Seq<u8>, pos: int, count: nat) -> Result<
    Seq<(Seq<char>, GgufSpecValue)>,
    Seq<char>,
>
    decreases count,
{
    if count == 0 {
        Ok(Seq::empty())
    } else {
        match read_string(b, pos) {
            Err(e) => Err(e),
            Ok((key, p1)) => match read_uint(b, p1, 4).0 {
                None => Err(eof_text()),
                Some(t) => match read_metadata_value(b, p1 + 4, t as u32, key) {
                    Err(e) => Err(e),
                    Ok((ov, p3)) => match read_entries(b, p3, (count - 1) as nat) {
                        Err(e) => Err(e),
                        Ok(rest) => Ok(
                            match ov {
                                Some(v) => seq![(key, v)] + rest,
                                None => rest,
                            },
                        ),
                    },
                },
            },
        }
    }
}

/// The GGUF magic number, `GGUF` read as a little-endian `u32`.
pub open spec fn gguf_magic() -> u64 {
    0x4655_4747
}

/// The kept metadata entries of a GGUF file, or why it could not be read:
/// magic, version, tensor count and entry count, then the entries.
pub open spec fn gguf_entries(b: Seq<u8>, path: Seq<char>) -> Result<
    Seq<(Seq<char>, GgufSpecValue)>,
    Seq<char>,
> {
    match read_uint(b, 0, 4).0 {
        None => Err(eof_text()),
        Some(m) => if m != gguf_magic() {
            Err(path + " is not a GGUF file."@)
        } else {
            match read_uint(b, 4, 4).0 {
                None => Err(eof_text()),
                Some(_) => match read_uint(b, 8, 8).0 {
                    None => Err(eof_text()),
                    Some(_) => match read_uint(b, 16, 8).0 {
                        None => Err(eof_text()),
                        Some(count) => read_entries(b, 24, count as nat),
                    },
                },
            }
        },
    }
}

fn eof_error() -> (e: String)
    ensures
        e@ == eof_text(),
{
    "failed to fill whole buffer".to_owned()
}

fn skip_error() -> (e: String)
    ensures
        e@ == skip_error_text(),
{
    "Could not skip GGUF metadata bytes: invalid seek to a negative or overflowing position".to_owned()
}

fn unsupported_error(t: u32) -> (e: String)
    ensures
        e@ == unsupported_text(t),
{
    let d = decimal_string(t as u64);
    concat3("Unsupported GGUF metadata value type ", d.as_str(), ".")
}

/// Moves `n` bytes forward.
fn skip_exec(pos: u64, n: u64) -> (r: Result<u64, String>)
    requires
        pos <= i64::MAX,
    ensures
        match r {
            Ok(p) => skip(pos as int, n as int) == Ok::<int, Seq<char>>(p as int) && p <= i64::MAX,
            Err(e) => skip(pos as int, n as int) == Err::<int, Seq<char>>(e@),
        },
{
    if n <= (0x7fff_ffff_ffff_ffffu64 - pos) {
        Ok(pos + n)
    } else {
        Err(skip_error())
    }
}

/// Reads a length-prefixed string.
fn read_string_exec(data: &[u8], pos: u64) -> (r: Result<(String, u64), String>)
    requires
        pos <= i64::MAX,
        data@.len() <= i64::MAX,
    ensures
        match r {
            Ok((s, p)) => read_string(data@, pos as int) == Ok::<(Seq<char>, int), Seq<char>>(
                (s@, p as int),
            ) && pos <= p <= i64::MAX,
            Err(e) => read_string(data@, pos as int) == Err::<(Seq<char>, int), Seq<char>>(e@),
        },
{
    let (len, p1) = read_uint_exec(data, pos, 8);
    let len = match len {
        None => return Err(eof_error()),
        Some(l) => l,
    };
    if len > 1048576 {
        let d = decimal_string(len);
        return Err(concat3("GGUF metadata string is too large: ", d.as_str(), " bytes."));
    }
    let total = data.len() as u64;
    if !(p1 <= total && len <= total - p1) {
        return Err(crate::text::concat2("Could not read GGUF metadata string: ", eof_error().as_str()));
    }
    let raw = slice_subrange(data, p1 as usize, (p1 + len) as usize);
    match decode_utf8_bytes(raw) {
        Ok(s) => Ok((s, p1 + len)),
        Err(e) => Err(crate::text::concat2("GGUF metadata string is not UTF-8: ", e.as_str())),
    }
}

fn fixed_size_exec(t: u32) -> (r: u64)
    ensures
        r == fixed_size(t),
{
    if t == 0 || t == 1 || t == 7 {
        1
    } else if t == 2 || t == 3 {
        2
    } else if t == 4 || t == 5 || t == 6 {
        4
    } else if t == 10 || t == 11 || t == 12 {
        8
    } else {
        0
    }
}

/// Skipping `count` fixed-size values is one skip over all of them.
proof fn lemma_skip_fixed_elems(b: Seq<u8>, pos: int, t: u32, count: nat)
    requires
        fixed_size(t) > 0,
        0 <= pos <= i64::MAX,
    ensures
        skip_elems_adv(b, pos, t, count) == if pos + count * fixed_size(t) <= i64::MAX {
            Ok::<nat, Seq<char>>((count * fixed_size(t)) as nat)
        } else {
            Err::<nat, Seq<char>>(skip_error_text())
        },
    decreases count,
{
    let n = fixed_size(t);
    if count > 0 {
        assert(skip_value_adv(b, pos, t) == if pos + n <= i64::MAX {
            Ok::<nat, Seq<char>>(n as nat)
        } else {
            Err::<nat, Seq<char>>(skip_error_text())
        });
        if pos + n <= i64::MAX {
            lemma_skip_fixed_elems(b, pos + n, t, (count - 1) as nat);
        }
        assert((count - 1) * n + n == count * n) by (nonlinear_arith);
        assert(count * n >= n) by (nonlinear_arith)
            requires
                count >= 1,
                n > 0,
        ;
    }
}

/// Skips one value of type `t`; the position afterwards.
fn skip_value_exec(data: &[u8], pos: u64, t: u32) -> (r: Result<u64, String>)
    requires
        pos <= i64::MAX,
        data@.len() <= i64::MAX,
    ensures
        match r {
            Ok(p) => pos <= p <= i64::MAX && skip_value_adv(data@, pos as int, t) == Ok::<
                nat,
                Seq<char>,
            >((p - pos) as nat),
            Err(e) => skip_value_adv(data@, pos as int, t) == Err::<nat, Seq<char>>(e@),
        },
    decreases rem(data@, pos as int), 0nat, 0nat,
{
    let size = fixed_size_exec(t);
    if size > 0 {
        skip_exec(pos, size)
    } else if t == 8 {
        let (len, p1) = read_uint_exec(data, pos, 8);
        match len {
            None => Err(eof_error()),
            Some(l) => skip_exec(p1, l),
        }
    } else if t == 9 {
        let (et, p1) = read_uint_exec(data, pos, 4);
        let et = match et {
            None => return Err(eof_error()),
            Some(v) => v,
        };
        let (n, p2) = read_uint_exec(data, p1, 8);
        let n = match n {
            None => return Err(eof_error()),
            Some(v) => v,
        };
        assert(et < 0x1_0000_0000) by {
            assert(read_uint(data@, pos as int, 4).0 == Some(et));
            lemma_u32_read_bound(data@, pos as int);
        }
        skip_elems_exec(data, p2, et as u32, n)
    } else {
        Err(unsupported_error(t))
    }
}

/// A four-byte read gives a value that fits in `u32`.
proof fn lemma_u32_read_bound(b: Seq<u8>, pos: int)
    requires
        read_uint(b, pos, 4).0 is Some,
    ensures
        read_uint(b, pos, 4).0->0 < 0x1_0000_0000,
{
}

/// Skips `count` values of type `t`; the position afterwards.
fn skip_elems_exec(data: &[u8], pos: u64, t: u32, count: u64) -> (r: Result<u64, String>)
    requires
        pos <= i64::MAX,
        data@.len() <= i64::MAX,
    ensures
        match r {
            Ok(p) => pos <= p <= i64::MAX && skip_elems_adv(data@, pos as int, t, count as nat)
                == Ok::<nat, Seq<char>>((p - pos) as nat),
            Err(e) => skip_elems_adv(data@, pos as int, t, count as nat) == Err::<nat, Seq<char>>(
                e@,
            ),
        },
    decreases rem(data@, pos as int), count, 1nat,
{
    let size = fixed_size_exec(t);
    if size > 0 {
        proof {
            lemma_skip_fixed_elems(data@, pos as int, t, count as nat);
        }
        let room = 0x7fff_ffff_ffff_ffffu64 - pos;
        let lim = room / size;
        if count <= lim {
            assert(count * size <= room) by (nonlinear_arith)
                requires
                    count <= lim,
                    lim == room / size,
                    size > 0,
            ;
            return Ok(pos + count * size);
        } else {
            assert(count * size > room) by (nonlinear_arith)
                requires
                    count > lim,
                    lim == room / size,
                    size > 0,
            ;
            return Err(skip_error());
        }
    }
    let mut cur = pos;
    let mut left = count;
    while left > 0
        invariant
            pos <= cur <= i64::MAX,
            data@.len() <= i64::MAX,
            left <= count,
            count > 0 ==> rem(data@, cur as int) <= rem(data@, pos as int),
            skip_elems_adv(data@, pos as int, t, count as nat) == match skip_elems_adv(
                data@,
                cur as int,
                t,
                left as nat,
            ) {
                Ok(a) => Ok::<nat, Seq<char>>((a + (cur - pos)) as nat),
                Err(e) => Err(e),
            },
        decreases rem(data@, cur as int), left,
    {
        match skip_value_exec(data, cur, t) {
            Err(e) => return Err(e),
            Ok(p) => {
                cur = p;
                left -= 1;
            },
        }
    }
    Ok(cur)
}

pub open spec fn strings_view(v: Seq<String>) -> Seq<Seq<char>> {
    v.map_values(|s: String| s@)
}

/// Reads `count` strings.
fn read_strings_exec(data: &[u8], pos: u64, count: u64) -> (r: Result<(Vec<String>, u64), String>)
    requires
        pos <= i64::MAX,
        data@.len() <= i64::MAX,
    ensures
        match r {
            Ok((v, p)) => read_strings(data@, pos as int, count as nat) == Ok::<
                (Seq<Seq<char>>, int),
                Seq<char>,
            >((strings_view(v@), p as int)) && pos <= p <= i64::MAX,
            Err(e) => read_strings(data@, pos as int, count as nat) == Err::<
                (Seq<Seq<char>>, int),
                Seq<char>,
            >(e@),
        },
{
    let mut values: Vec<String> = Vec::new();
    let mut cur = pos;
    let mut left = count;
    while left > 0
        invariant
            pos <= cur <= i64::MAX,
            data@.len() <= i64::MAX,
            left <= count,
            read_strings(data@, pos as int, count as nat) == match read_strings(
                data@,
                cur as int,
                left as nat,
            ) {
                Ok((rest, p)) => Ok::<(Seq<Seq<char>>, int), Seq<char>>(
                    (strings_view(values@) + rest, p),
                ),
                Err(e) => Err(e),
            },
        decreases left,
    {
        match read_string_exec(data, cur) {
            Err(e) => return Err(e),
            Ok((value, p)) => {
                let ghost before = strings_view(values@);
                let ghost sv = value@;
                values.push(value);
                assert(strings_view(values@) =~= before.push(sv));
                assert(before + (seq![sv] + Seq::<Seq<char>>::empty()) =~= before.push(sv));
                proof {
                    let ghost tail = read_strings(data@, p as int, (left - 1) as nat);
                    match tail {
                        Ok((rest, q)) => {
                            assert(before + (seq![sv] + rest) =~= before.push(sv) + rest);
                        },
                        Err(_) => {},
                    }
                }
                cur = p;
                left -= 1;
            },
        }
    }
    assert(strings_view(values@) + Seq::<Seq<char>>::empty() =~= strings_view(values@));
    Ok((values, cur))
}

fn key_is(key: &[char], name: &str) -> (r: bool)
    ensures
        r == (key@ == name@),
{
    let v = chars_of(name);
    chars_eq(key, v.as_slice())
}

fn collects_string_exec(key: &String) -> (r: bool)
    ensures
        r == collects_string(key@),
{
    let k = chars_of(key.as_str());
    let k = k.as_slice();
    key_is(k, "general.architecture") || key_is(k, "general.size_label") || key_is(
        k,
        "general.license",
    ) || key_is(k, "general.license.name") || key_is(k, "general.repo_url") || key_is(
        k,
        "general.source.repo_url",
    ) || key_is(k, "tokenizer.ggml.model")
}

fn collects_array_exec(key: &String) -> (r: bool)
    ensures
        r == collects_array(key@),
{
    let k = chars_of(key.as_str());
    let k = k.as_slice();
    key_is(k, "general.tags") || key_is(k, "general.languages") || key_is(k, "general.datasets")
}

pub open spec fn opt_value_view(v: Option<GgufValue>) -> Option<GgufSpecValue> {
    match v {
        Some(x) => Some(value_view(x)),
        None => None,
    }
}

pub open spec fn value_result_matches(
    r: Result<(Option<GgufValue>, u64), String>,
    s: Result<(Option<GgufSpecValue>, int), Seq<char>>,
) -> bool {
    match r {
        Ok((v, p)) => s == Ok::<(Option<GgufSpecValue>, int), Seq<char>>(
            (opt_value_view(v), p as int),
        ) && p <= i64::MAX,
        Err(e) => s == Err::<(Option<GgufSpecValue>, int), Seq<char>>(e@),
    }
}

/// Reads an array value.
fn read_array_exec(data: &[u8], pos: u64, key: &String) -> (r: Result<(Option<GgufValue>, u64), String>)
    requires
        pos <= i64::MAX,
        data@.len() <= i64::MAX,
    ensures
        value_result_matches(r, read_array(data@, pos as int, key@)),
        r matches Ok((_, p)) ==> pos <= p,
{
    let (et, p1) = read_uint_exec(data, pos, 4);
    let et = match et {
        None => return Err(eof_error()),
        Some(v) => v,
    };
    let (n, p2) = read_uint_exec(data, p1, 8);
    let n = match n {
        None => return Err(eof_error()),
        Some(v) => v,
    };
    assert(et < 0x1_0000_0000) by {
        lemma_u32_read_bound(data@, pos as int);
    }
    if et == 8 && collects_array_exec(key) {
        match read_strings_exec(data, p2, n) {
            Ok((v, p)) => {
                assert(value_view(GgufValue::StringArray(v)) == GgufSpecValue::Arr(
                    strings_view(v@),
                ));
                Ok((Some(GgufValue::StringArray(v)), p))
            },
            Err(e) => Err(e),
        }
    } else {
        match skip_elems_exec(data, p2, et as u32, n) {
            Ok(p) => Ok((None, p)),
            Err(e) => Err(e),
        }
    }
}

/// Reads one metadata value of type `t` for `key`.
fn read_metadata_value_exec(data: &[u8], pos: u64, t: u32, key: &String) -> (r: Result<
    (Option<GgufValue>, u64),
    String,
>)
    requires
        pos <= i64::MAX,
        data@.len() <= i64::MAX,
    ensures
        value_result_matches(r, read_metadata_value(data@, pos as int, t, key@)),
        r matches Ok((_, p)) ==> pos <= p,
{
    if t == 0 || t == 7 || t == 2 || t == 4 || t == 10 {
        let n: u64 = if t == 0 || t == 7 {
            1
        } else if t == 2 {
            2
        } else if t == 4 {
            4
        } else {
            8
        };
        let (v, p) = read_uint_exec(data, pos, n);
        match v {
            Some(x) => Ok((Some(GgufValue::Integer(x)), p)),
            None => Err(eof_error()),
        }
    } else if t == 1 || t == 3 || t == 5 || t == 11 {
        let n: u64 = if t == 1 {
            1
        } else if t == 3 {
            2
        } else if t == 5 {
            4
        } else {
            8
        };
        let (v, p) = read_uint_exec(data, pos, n);
        match v {
            Some(x) => {
                let limit: u64 = if n == 1 {
                    0x80
                } else if n == 2 {
                    0x8000
                } else if n == 4 {
                    0x8000_0000
                } else {
                    0x8000_0000_0000_0000
                };
                if x < limit {
                    Ok((Some(GgufValue::Integer(x)), p))
                } else {
                    Ok((None, p))
                }
            },
            None => Ok((None, p)),
        }
    } else if t == 6 || t == 12 {
        let size: u64 = if t == 6 {
            4
        } else {
            8
        };
        match skip_exec(pos, size) {
            Ok(p) => Ok((None, p)),
            Err(e) => Err(e),
        }
    } else if t == 8 {
        if collects_string_exec(key) {
            match read_string_exec(data, pos) {
                Ok((s, p)) => Ok((Some(GgufValue::String(s)), p)),
                Err(e) => Err(e),
            }
        } else {
            let (len, p1) = read_uint_exec(data, pos, 8);
            match len {
                None => Err(eof_error()),
                Some(l) => match skip_exec(p1, l) {
                    Ok(p) => Ok((None, p)),
                    Err(e) => Err(e),
                },
            }
        }
    } else if t == 9 {
        read_array_exec(data, pos, key)
    } else {
        Err(unsupported_error(t))
    }
}

pub open spec fn entries_view(v: Seq<(String, GgufValue)>) -> Seq<(Seq<char>, GgufSpecValue)> {
    v.map_values(|e: (String, GgufValue)| (e.0@, value_view(e.1)))
}

/// Reads `count` metadata entries; the kept ones in file order.
fn read_entries_exec(data: &[u8], pos: u64, count: u64) -> (r: Result<Vec<(String, GgufValue)>, String>)
    requires
        pos <= i64::MAX,
        data@.len() <= i64::MAX,
    ensures
        match r {
            Ok(v) => read_entries(data@, pos as int, count as nat) == Ok::<
                Seq<(Seq<char>, GgufSpecValue)>,
                Seq<char>,
            >(entries_view(v@)),
            Err(e) => read_entries(data@, pos as int, count as nat) == Err::<
                Seq<(Seq<char>, GgufSpecValue)>,
                Seq<char>,
            >(e@),
        },
{
    let mut entries: Vec<(String, GgufValue)> = Vec::new();
    let mut cur = pos;
    let mut left = count;
    while left > 0
        invariant
            cur <= i64::MAX,
            data@.len() <= i64::MAX,
            left <= count,
            read_entries(data@, pos as int, count as nat) == match read_entries(
                data@,
                cur as int,
                left as nat,
            ) {
                Ok(rest) => Ok::<Seq<(Seq<char>, GgufSpecValue)>, Seq<char>>(
                    entries_view(entries@) + rest,
                ),
                Err(e) => Err(e),
            },
        decreases left,
    {
        let (key, p1) = match read_string_exec(data, cur) {
            Err(e) => return Err(e),
            Ok(kp) => kp,
        };
        let (t, p2) = read_uint_exec(data, p1, 4);
        let t = match t {
            None => return Err(eof_error()),
            Some(v) => v,
        };
        assert(t < 0x1_0000_0000) by {
            lemma_u32_read_bound(data@, p1 as int);
        }
        let (value, p3) = match read_metadata_value_exec(data, p2, t as u32, &key) {
            Err(e) => return Err(e),
            Ok(vp) => vp,
        };
        let ghost before = entries_view(entries@);
        let ghost kv = key@;
        let ghost ov = opt_value_view(value);
        match value {
            Some(v) => {
                entries.push((key, v));
                assert(entries_view(entries@) =~= before.push((kv, ov->0)));
            },
            None => {},
        }
        proof {
            let tail = read_entries(data@, p3 as int, (left - 1) as nat);
            match tail {
                Ok(rest) => {
                    match ov {
                        Some(x) => {
                            assert(before + (seq![(kv, x)] + rest) =~= before.push((kv, x)) + rest);
                        },
                        None => {},
                    }
                },
                Err(_) => {},
            }
        }
        cur = p3;
        left -= 1;
    }
    assert(entries_view(entries@) + Seq::<(Seq<char>, GgufSpecValue)>::empty() =~= entries_view(
        entries@,
    ));
    Ok(entries)
}

fn read_header_field(data: &[u8], pos: u64, n: u64) -> (r: Result<u64, String>)
    requires
        n == 4 || n == 8,
        pos <= 16,
        data@.len() <= i64::MAX,
    ensures
        match r {
            Ok(v) => read_uint(data@, pos as int, n as int).0 == Some(v),
            Err(e) => read_uint(data@, pos as int, n as int).0 is None && e@ == eof_text(),
        },
{
    let (v, _) = read_uint_exec(data, pos, n);
    match v {
        Some(x) => Ok(x),
        None => Err(eof_error()),
    }
}

/// Reads the kept metadata entries of a GGUF file from its bytes; `path`
/// names the file in the error for a wrong magic number.
pub fn read_gguf_entries(path: &str, data: &[u8]) -> (r: Result<Vec<(String, GgufValue)>, String>)
    requires
        data@.len() <= i64::MAX,
    ensures
        match r {
            Ok(v) => gguf_entries(data@, path@) == Ok::<Seq<(Seq<char>, GgufSpecValue)>, Seq<char>>(
                entries_view(v@),
            ),
            Err(e) => gguf_entries(data@, path@) == Err::<
                Seq<(Seq<char>, GgufSpecValue)>,
                Seq<char>,
            >(e@),
        },
{
    let magic = read_header_field(data, 0, 4)?;
    if magic != 0x4655_4747 {
        return Err(crate::text::concat2(path, " is not a GGUF file."));
    }
    let _version = read_header_field(data, 4, 4)?;
    let _tensor_count = read_header_field(data, 8, 8)?;
    let metadata_count = read_header_field(data, 16, 8)?;
    read_entries_exec(data, 24, metadata_count)
}

} // verus!
