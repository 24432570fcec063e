//! Reading the model file's bytes: little-endian integers, length-prefixed
//! UTF-8 strings (decoded as vstd's `decode_utf8` says), and what a read at
//! an offset gives or why it fails.
//!
//! Every reader here takes the whole file and an offset, and is stated by a
//! spec function of the same name with `spec_` in front: `Ok((value, next
//! offset))`, or the error a truncated or malformed file gives.

use vstd::prelude::*;
use vstd::utf8::{decode_utf8, valid_utf8};

use byteorder::{ByteOrder, LittleEndian};

use crate::error::{spec_corrupt_with, Error};

verus! {

/// Why reading the model file failed, as the contracts see it.
pub enum LoadErr {
    /// The file ended too early.
    Io,
    /// The file does not start with the magic bytes.
    Magic,
    /// The file has another version.
    Version(u8),
    /// A feature type byte names no feature type.
    FeatureType(u8),
    /// A string is not valid UTF-8.
    Utf8,
    /// The file is inconsistent, for the reason given.
    Corrupt(Seq<char>),
}

/// `e` is the error `t`, reported for the file `path`.
pub open spec fn spec_err_is(e: Error, t: LoadErr, path: Seq<char>) -> bool {
    match t {
        LoadErr::Io => e matches Error::ModelIo { path: p } && p@ == path,
        LoadErr::Magic => e matches Error::InvalidMagic { path: p } && p@ == path,
        LoadErr::Version(v) => e == Error::UnsupportedVersion { version: v },
        LoadErr::FeatureType(v) => e == Error::InvalidFeatureType { value: v },
        LoadErr::Utf8 => e == Error::InvalidLabelUtf8,
        LoadErr::Corrupt(r) => spec_corrupt_with(e, r),
    }
}

/// What a read gives: a value and the offset after it, or an error.
pub type Parsed<V> = Result<(V, int), LoadErr>;

/// An exec read agrees with its spec: same value and offset, or the same
/// error.
pub open spec fn spec_agrees<A, V>(r: Result<(A, usize), Error>, s: Parsed<V>, view: spec_fn(A) -> V, path: Seq<char>) -> bool {
    match s {
        Ok((v, q)) => r matches Ok((a, p)) && view(a) == v && p == q,
        Err(t) => r matches Err(e) && spec_err_is(e, t, path),
    }
}

// ------------------------------------------------------------
// Little-endian integers
// ------------------------------------------------------------

pub open spec fn le16(b: Seq<u8>, p: int) -> int {
    b[p] + 256 * b[p + 1]
}

pub open spec fn le32(b: Seq<u8>, p: int) -> int {
    le16(b, p) + 65536 * le16(b, p + 2)
}

pub open spec fn le64(b: Seq<u8>, p: int) -> int {
    le32(b, p) + 4294967296 * le32(b, p + 4)
}

/// `byteorder::LittleEndian::read_u16`: the first two bytes of `buf`,
/// least significant first (it panics on fewer than two).
#[verifier::external_body]
fn le_u16(buf: &[u8]) -> (r: u16)
    requires
        buf@.len() >= 2,
    ensures
        r == le16(buf@, 0),
{
    LittleEndian::read_u16(buf)
}

/// `byteorder::LittleEndian::read_u32`: the first four bytes of `buf`,
/// least significant first (it panics on fewer than four).
#[verifier::external_body]
fn le_u32(buf: &[u8]) -> (r: u32)
    requires
        buf@.len() >= 4,
    ensures
        r == le32(buf@, 0),
{
    LittleEndian::read_u32(buf)
}

/// `byteorder::LittleEndian::read_u64`: the first eight bytes of `buf`,
/// least significant first (it panics on fewer than eight).
#[verifier::external_body]
fn le_u64(buf: &[u8]) -> (r: u64)
    requires
        buf@.len() >= 8,
    ensures
        r == le64(buf@, 0),
{
    LittleEndian::read_u64(buf)
}

pub open spec fn spec_u8(b: Seq<u8>, p: int) -> Parsed<u8> {
    if p + 1 <= b.len() {
        Ok((b[p], p + 1))
    } else {
        Err(LoadErr::Io)
    }
}

pub open spec fn spec_u16(b: Seq<u8>, p: int) -> Parsed<u16> {
    if p + 2 <= b.len() {
        Ok((le16(b, p) as u16, p + 2))
    } else {
        Err(LoadErr::Io)
    }
}

pub open spec fn spec_u32(b: Seq<u8>, p: int) -> Parsed<u32> {
    if p + 4 <= b.len() {
        Ok((le32(b, p) as u32, p + 4))
    } else {
        Err(LoadErr::Io)
    }
}

pub open spec fn spec_u64(b: Seq<u8>, p: int) -> Parsed<u64> {
    if p + 8 <= b.len() {
        Ok((le64(b, p) as u64, p + 8))
    } else {
        Err(LoadErr::Io)
    }
}

/// The error of a file that ended too early.
pub fn io_error(path: &str) -> (e: Error)
    ensures
        spec_err_is(e, LoadErr::Io, path@),
{
    Error::ModelIo { path: path.to_owned() }
}

pub fn read_u8(b: &[u8], p: usize, path: &str) -> (r: Result<(u8, usize), Error>)
    requires
        p <= b@.len(),
    ensures
        spec_agrees(r, spec_u8(b@, p as int), |x: u8| x, path@),
{
    if p < b.len() {
        Ok((b[p], p + 1))
    } else {
        Err(io_error(path))
    }
}

pub fn read_u16(b: &[u8], p: usize, path: &str) -> (r: Result<(u16, usize), Error>)
    requires
        p <= b@.len(),
    ensures
        spec_agrees(r, spec_u16(b@, p as int), |x: u16| x, path@),
{
    if b.len() - p >= 2 {
        let s = &b[p..p + 2];
        let v = le_u16(s);
        proof {
            assert(le16(s@, 0) == le16(b@, p as int));
        }
        Ok((v, p + 2))
    } else {
        Err(io_error(path))
    }
}

pub fn read_u32(b: &[u8], p: usize, path: &str) -> (r: Result<(u32, usize), Error>)
    requires
        p <= b@.len(),
    ensures
        spec_agrees(r, spec_u32(b@, p as int), |x: u32| x, path@),
{
    if b.len() - p >= 4 {
        let s = &b[p..p + 4];
        let v = le_u32(s);
        proof {
            assert(le32(s@, 0) == le32(b@, p as int));
        }
        Ok((v, p + 4))
    } else {
        Err(io_error(path))
    }
}

pub fn read_u64(b: &[u8], p: usize, path: &str) -> (r: Result<(u64, usize), Error>)
    requires
        p <= b@.len(),
    ensures
        spec_agrees(r, spec_u64(b@, p as int), |x: u64| x, path@),
{
    if b.len() - p >= 8 {
        let s = &b[p..p + 8];
        let v = le_u64(s);
        proof {
            assert(le64(s@, 0) == le64(b@, p as int));
        }
        Ok((v, p + 8))
    } else {
        Err(io_error(path))
    }
}


// ------------------------------------------------------------
// UTF-8 strings
// ------------------------------------------------------------

/// `String::from_utf8`: the string `bytes` encode, where they are valid
/// UTF-8; `None` where they are not.
#[verifier::external_body]
fn string_from_utf8(bytes: Vec<u8>) -> (r: Option<String>)
    ensures
        r is Some <==> valid_utf8(bytes@),
        r matches Some(s) ==> s@ == decode_utf8(bytes@),
{
    match String::from_utf8(bytes) {
        Ok(s) => Some(s),
        Err(_) => None,
    }
}

/// A string: a length byte, then that many bytes of UTF-8.
pub open spec fn spec_str(b: Seq<u8>, p: int) -> Parsed<Seq<char>> {
    match spec_u8(b, p) {
        Err(e) => Err(e),
        Ok((n, q)) => if q + n > b.len() {
            Err(LoadErr::Io)
        } else if valid_utf8(b.subrange(q, q + n)) {
            Ok((decode_utf8(b.subrange(q, q + n)), q + n))
        } else {
            Err(LoadErr::Utf8)
        },
    }
}

pub fn read_str(b: &[u8], p: usize, path: &str) -> (r: Result<(String, usize), Error>)
    requires
        p <= b@.len(),
    ensures
        spec_agrees(r, spec_str(b@, p as int), |s: String| s@, path@),
{
    let (n, q) = match read_u8(b, p, path) {
        Ok(x) => x,
        Err(e) => return Err(e),
    };
    let n = n as usize;
    if b.len() - q < n {
        return Err(io_error(path));
    }
    let raw = vstd::slice::slice_to_vec(&b[q..q + n]);
    match string_from_utf8(raw) {
        Some(s) => Ok((s, q + n)),
        None => Err(Error::InvalidLabelUtf8),
    }
}

} // verus!
