use vstd::prelude::*;
use vstd::utf8::{decode_utf8, encode_utf8, encode_utf8_decode_utf8, valid_utf8};
use vstd::string::StringSliceAdditionalSpecFns;

verus! {

/// Order in which the bytes of a fixed-width number are laid out in memory.
#[derive(Copy, Clone, Debug, PartialEq, Eq, Structural)]
pub enum ByteOrder {
    Little,
    Big,
}

/// Relies on `u16::from_ne_bytes`: the two bytes read in the machine's own
/// order, which is either little- or big-endian.
#[verifier::external_body]
fn native_u16(b0: u8, b1: u8) -> (r: u16)
    ensures
        r == b0 + 256 * b1 || r == b1 + 256 * b0,
{
    u16::from_ne_bytes([b0, b1])
}

/// Relies on `String::from_utf8`: it succeeds exactly on valid UTF-8, and the
/// string then holds those bytes.
#[verifier::external_body]
fn utf8_string(b: Vec<u8>) -> (r: Option<String>)
    ensures
        r.is_some() == valid_utf8(b@),
        r matches Some(s) ==> encode_utf8(s@) == b@,
{
    String::from_utf8(b).ok()
}

impl ByteOrder {
    /// The byte order of the machine this library runs on.
    pub fn native() -> ByteOrder {
        if native_u16(1, 0) == 1 {
            ByteOrder::Little
        } else {
            ByteOrder::Big
        }
    }
}

/// The byte of significance `i` (0 is the least significant) of a number of
/// `width` bytes laid out in `b`.
pub open spec fn sig_byte(b: Seq<u8>, i: int, width: int, order: ByteOrder) -> nat {
    match order {
        ByteOrder::Little => b[i] as nat,
        ByteOrder::Big => b[width - 1 - i] as nat,
    }
}

/// The unsigned value of the first four bytes of `b`.
pub open spec fn u32_value(b: Seq<u8>, order: ByteOrder) -> nat {
    sig_byte(b, 0, 4, order) + 256 * sig_byte(b, 1, 4, order) + 65536 * sig_byte(b, 2, 4, order)
        + 16777216 * sig_byte(b, 3, 4, order)
}

/// The unsigned value of the first eight bytes of `b`.
pub open spec fn u64_value(b: Seq<u8>, order: ByteOrder) -> nat {
    u32_value_at(b, 0, order) + 4294967296 * u32_value_at(b, 4, order)
}

/// The value of the four bytes of significance `lo .. lo + 4` of an
/// eight-byte number.
pub open spec fn u32_value_at(b: Seq<u8>, lo: int, order: ByteOrder) -> nat {
    sig_byte(b, lo, 8, order) + 256 * sig_byte(b, lo + 1, 8, order) + 65536 * sig_byte(
        b,
        lo + 2,
        8,
        order,
    ) + 16777216 * sig_byte(b, lo + 3, 8, order)
}

/// A 32-bit pattern read as a two's-complement signed number.
pub open spec fn signed32(v: nat) -> int {
    if v < 0x8000_0000 {
        v as int
    } else {
        v - 0x1_0000_0000
    }
}

/// The two's-complement bit pattern of a signed 32-bit number.
pub open spec fn pattern32(v: i32) -> nat {
    if v >= 0 {
        v as nat
    } else {
        (v + 0x1_0000_0000) as nat
    }
}

/// The four bytes of the pattern `n`, laid out in `order`.
pub open spec fn bytes4(n: nat, order: ByteOrder) -> Seq<u8> {
    let le = seq![
        (n % 256) as u8,
        (n / 256 % 256) as u8,
        (n / 65536 % 256) as u8,
        (n / 16777216 % 256) as u8,
    ];
    match order {
        ByteOrder::Little => le,
        ByteOrder::Big => seq![le[3], le[2], le[1], le[0]],
    }
}

/// Length of the text at the start of `b` from index `i` on: up to the first
/// NUL byte, or to the end.
pub open spec fn text_end(b: Seq<u8>, i: nat) -> nat
    decreases b.len() - i,
{
    if i >= b.len() || b[i as int] == 0 {
        i
    } else {
        text_end(b, i + 1)
    }
}

/// The bytes of `b` before its first NUL byte.
pub open spec fn c_text(b: Seq<u8>) -> Seq<u8> {
    b.take(text_end(b, 0) as int)
}

/// What a text field reads as: the bytes before the first NUL, if they are
/// valid UTF-8.
pub open spec fn text_value(b: Seq<u8>) -> Option<Seq<char>> {
    if valid_utf8(c_text(b)) {
        Some(decode_utf8(c_text(b)))
    } else {
        None
    }
}

fn byte_of(b: &Vec<u8>, i: usize, width: usize, order: ByteOrder) -> (r: u8)
    requires
        i < width <= b@.len(),
    ensures
        r as nat == sig_byte(b@, i as int, width as int, order),
{
    match order {
        ByteOrder::Little => b[i],
        ByteOrder::Big => b[width - 1 - i],
    }
}

/// Reads an unsigned 32-bit number from the first four bytes of `b`.
pub fn read_u32(b: &Vec<u8>, order: ByteOrder) -> (r: u32)
    requires
        b@.len() >= 4,
    ensures
        r as nat == u32_value(b@, order),
{
    let b0 = byte_of(b, 0, 4, order) as u32;
    let b1 = byte_of(b, 1, 4, order) as u32;
    let b2 = byte_of(b, 2, 4, order) as u32;
    let b3 = byte_of(b, 3, 4, order) as u32;
    b0 + 256 * b1 + 65536 * b2 + 16777216 * b3
}

/// Reads a signed 32-bit number from the first four bytes of `b`.
pub fn read_i32(b: &Vec<u8>, order: ByteOrder) -> (r: i32)
    requires
        b@.len() >= 4,
    ensures
        r as int == signed32(u32_value(b@, order)),
{
    let u = read_u32(b, order);
    if u < 0x8000_0000 {
        u as i32
    } else {
        let low = (u - 0x8000_0000) as i32;
        low - 0x7fff_ffff - 1
    }
}

/// Reads an unsigned 64-bit number from the first eight bytes of `b`.
pub fn read_u64(b: &Vec<u8>, order: ByteOrder) -> (r: u64)
    requires
        b@.len() >= 8,
    ensures
        r as nat == u64_value(b@, order),
{
    let lo = byte_of(b, 0, 8, order) as u64 + 256 * (byte_of(b, 1, 8, order) as u64) + 65536 * (
    byte_of(b, 2, 8, order) as u64) + 16777216 * (byte_of(b, 3, 8, order) as u64);
    let hi = byte_of(b, 4, 8, order) as u64 + 256 * (byte_of(b, 5, 8, order) as u64) + 65536 * (
    byte_of(b, 6, 8, order) as u64) + 16777216 * (byte_of(b, 7, 8, order) as u64);
    lo + 4294967296 * hi
}

/// The eight bytes of the pattern `n`, laid out in `order`.
pub open spec fn bytes8(n: nat, order: ByteOrder) -> Seq<u8> {
    match order {
        ByteOrder::Little => bytes4(n % 0x1_0000_0000, order) + bytes4(n / 0x1_0000_0000, order),
        ByteOrder::Big => bytes4(n / 0x1_0000_0000, order) + bytes4(n % 0x1_0000_0000, order),
    }
}

/// Lays out `n` in four bytes.
pub fn write_u32(n: u32, order: ByteOrder) -> (r: Vec<u8>)
    ensures
        r@ == bytes4(n as nat, order),
{
    let l0 = (n % 256) as u8;
    let l1 = (n / 256 % 256) as u8;
    let l2 = (n / 65536 % 256) as u8;
    let l3 = (n / 16777216 % 256) as u8;
    let r = match order {
        ByteOrder::Little => vec![l0, l1, l2, l3],
        ByteOrder::Big => vec![l3, l2, l1, l0],
    };
    assert(r@ =~= bytes4(n as nat, order));
    r
}

/// Lays out the two's-complement pattern of `v` in four bytes.
pub fn write_i32(v: i32, order: ByteOrder) -> (r: Vec<u8>)
    ensures
        r@ == bytes4(pattern32(v), order),
{
    let n: u32 = if v >= 0 {
        v as u32
    } else {
        ((v as i64) + 0x1_0000_0000i64) as u32
    };
    write_u32(n, order)
}

/// Lays out `n` in eight bytes.
pub fn write_u64(n: u64, order: ByteOrder) -> (r: Vec<u8>)
    ensures
        r@ == bytes8(n as nat, order),
{
    let lo = (n % 0x1_0000_0000) as u32;
    let hi = (n / 0x1_0000_0000) as u32;
    let (mut first, mut second) = match order {
        ByteOrder::Little => (write_u32(lo, order), write_u32(hi, order)),
        ByteOrder::Big => (write_u32(hi, order), write_u32(lo, order)),
    };
    let ghost a = first@;
    let ghost b = second@;
    first.append(&mut second);
    assert(first@ =~= a + b);
    first
}

/// The text of a field buffer: the bytes before the first NUL, decoded as
/// UTF-8; `None` where they are not valid UTF-8.
pub fn read_text(b: &Vec<u8>) -> (r: Option<String>)
    ensures
        r is Some == text_value(b@) is Some,
        r matches Some(s) ==> text_value(b@) == Some(s@),
{
    let mut i: usize = 0;
    while i < b.len() && b[i] != 0
        invariant
            i <= b@.len(),
            text_end(b@, i as nat) == text_end(b@, 0),
        decreases b@.len() - i,
    {
        i = i + 1;
    }
    let mut t: Vec<u8> = Vec::new();
    let mut j: usize = 0;
    while j < i
        invariant
            j <= i <= b@.len(),
            t@ == b@.take(j as int),
        decreases i - j,
    {
        t.push(b[j]);
        j = j + 1;
        assert(t@ =~= b@.take(j as int));
    }
    assert(t@ =~= c_text(b@));
    let r = utf8_string(t);
    proof {
        if r.is_some() {
            encode_utf8_decode_utf8(r.unwrap()@);
        }
    }
    r
}

/// The bytes handed to the engine for a host name: the name's UTF-8 bytes
/// followed by a NUL terminator. `None` where the name itself holds a NUL
/// byte, which would cut it short.
pub fn c_string(name: &str) -> (r: Option<Vec<u8>>)
    ensures
        r is None <==> name.spec_bytes().contains(0u8),
        r matches Some(b) ==> b@ == name.spec_bytes().push(0u8),
{
    let bytes = name.as_bytes();
    let mut out: Vec<u8> = Vec::new();
    let mut i: usize = 0;
    while i < bytes.len()
        invariant
            i <= bytes@.len(),
            bytes@ == name.spec_bytes(),
            out@ == bytes@.take(i as int),
            !out@.contains(0u8),
        decreases bytes@.len() - i,
    {
        let c = bytes[i];
        if c == 0 {
            assert(name.spec_bytes()[i as int] == 0u8);
            return None;
        }
        out.push(c);
        i = i + 1;
        assert(out@ =~= bytes@.take(i as int));
    }
    assert(out@ =~= name.spec_bytes());
    out.push(0);
    Some(out)
}

} // verus!
