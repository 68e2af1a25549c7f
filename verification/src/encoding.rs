//! Byte- and string-level encodings the engine needs: lowercase hex,
//! little-endian and big-endian integer bytes, hyphenated 128-bit identifier
//! strings, and decimal numerals. All exact; only the hex call itself is
//! delegated to an outside crate.

use vstd::prelude::*;

verus! {

/// The sixteen lowercase hex digits, in value order.
pub open spec fn hex_digits() -> Seq<char> {
    seq!['0', '1', '2', '3', '4', '5', '6', '7', '8', '9', 'a', 'b', 'c', 'd', 'e', 'f']
}

/// Lowercase hex encoding of a byte string: for each byte, the high nibble's
/// digit then the low nibble's digit.
pub open spec fn hex_chars(data: Seq<u8>) -> Seq<char>
    decreases data.len(),
{
    if data.len() == 0 {
        Seq::empty()
    } else {
        seq![
            hex_digits()[(data.first() >> 4) as int],
            hex_digits()[(data.first() & 0x0f) as int],
        ] + hex_chars(data.drop_first())
    }
}

/// Relies on hex::encode: the lowercase hex digits of the input, high nibble
/// before low nibble, two digits per byte.
#[verifier::external_body]
pub(crate) fn hex_lower(data: &Vec<u8>) -> (r: String)
    ensures
        r@ == hex_chars(data@),
{
    hex::encode(data.as_slice())
}

/// The eight bytes of `x`, least significant first.
pub open spec fn u64_le_seq(x: u64) -> Seq<u8> {
    Seq::new(8, |i: int| ((x >> (8 * i)) & 0xff) as u8)
}

/// Little-endian bytes of a 64-bit integer.
pub fn u64_le_bytes(x: u64) -> (r: Vec<u8>)
    ensures
        r@ == u64_le_seq(x),
{
    let mut r: Vec<u8> = Vec::new();
    r.push(((x >> 0) & 0xff) as u8);
    r.push(((x >> 8) & 0xff) as u8);
    r.push(((x >> 16) & 0xff) as u8);
    r.push(((x >> 24) & 0xff) as u8);
    r.push(((x >> 32) & 0xff) as u8);
    r.push(((x >> 40) & 0xff) as u8);
    r.push(((x >> 48) & 0xff) as u8);
    r.push(((x >> 56) & 0xff) as u8);
    proof {
        assert(r@ =~= u64_le_seq(x));
    }
    r
}

/// The sixteen bytes of `x`, most significant first, as a 128-bit identifier
/// is written out.
pub open spec fn u128_be_seq(x: u128) -> Seq<u8> {
    Seq::new(16, |i: int| ((x >> (8 * (15 - i))) & 0xff) as u8)
}

/// Big-endian bytes of a 128-bit integer.
pub fn u128_be_bytes(x: u128) -> (r: Vec<u8>)
    ensures
        r@ == u128_be_seq(x),
{
    let mut r: Vec<u8> = Vec::new();
    let mut k: usize = 0;
    while k < 16
        invariant
            k <= 16,
            r@.len() == k,
            forall|i: int| 0 <= i < k ==> r@[i] == u128_be_seq(x)[i],
        decreases 16 - k,
    {
        let shift: u32 = 8 * (15 - k as u32);
        r.push(((x >> shift) & 0xff) as u8);
        k = k + 1;
    }
    proof {
        assert(r@ =~= u128_be_seq(x));
    }
    r
}

/// The canonical hyphenated text of a 128-bit identifier: the big-endian hex
/// digits in 8-4-4-4-12 groups.
pub open spec fn uuid_chars(id: u128) -> Seq<char> {
    let b = u128_be_seq(id);
    hex_chars(b.subrange(0, 4)) + seq!['-'] + hex_chars(b.subrange(4, 6)) + seq!['-'] + hex_chars(
        b.subrange(6, 8),
    ) + seq!['-'] + hex_chars(b.subrange(8, 10)) + seq!['-'] + hex_chars(b.subrange(10, 16))
}

/// Copies `bytes[lo..hi]` into a fresh vector.
fn byte_range(bytes: &Vec<u8>, lo: usize, hi: usize) -> (r: Vec<u8>)
    requires
        lo <= hi <= bytes@.len(),
    ensures
        r@ == bytes@.subrange(lo as int, hi as int),
{
    let mut r: Vec<u8> = Vec::new();
    let mut k: usize = lo;
    while k < hi
        invariant
            lo <= k <= hi <= bytes@.len(),
            r@ =~= bytes@.subrange(lo as int, k as int),
        decreases hi - k,
    {
        r.push(bytes[k]);
        k = k + 1;
        proof {
            assert(r@ =~= bytes@.subrange(lo as int, k as int));
        }
    }
    r
}

/// Writes a 128-bit identifier in its canonical hyphenated form.
pub fn uuid_string(id: u128) -> (r: String)
    ensures
        r@ == uuid_chars(id),
{
    let bytes = u128_be_bytes(id);
    let mut s = hex_lower(&byte_range(&bytes, 0, 4));
    s.append("-");
    s.append(hex_lower(&byte_range(&bytes, 4, 6)).as_str());
    s.append("-");
    s.append(hex_lower(&byte_range(&bytes, 6, 8)).as_str());
    s.append("-");
    s.append(hex_lower(&byte_range(&bytes, 8, 10)).as_str());
    s.append("-");
    s.append(hex_lower(&byte_range(&bytes, 10, 16)).as_str());
    proof {
        reveal_strlit("-");
        assert("-"@ =~= seq!['-']);
        assert(s@ =~= uuid_chars(id));
    }
    s
}

/// The decimal numeral of a nonnegative integer, most significant digit
/// first, with no leading zeros (a lone zero for 0).
pub open spec fn dec_chars(n: int) -> Seq<char>
    decreases n,
{
    if n < 10 {
        seq![hex_digits()[if n < 0 { 0 } else { n }]]
    } else {
        dec_chars(n / 10).push(hex_digits()[n % 10])
    }
}

/// The single-character text of a decimal digit.
fn digit_str(d: u64) -> (r: &'static str)
    requires
        d < 10,
    ensures
        r@ =~= seq![hex_digits()[d as int]],
{
    proof {
        reveal_strlit("0");
        reveal_strlit("1");
        reveal_strlit("2");
        reveal_strlit("3");
        reveal_strlit("4");
        reveal_strlit("5");
        reveal_strlit("6");
        reveal_strlit("7");
        reveal_strlit("8");
        reveal_strlit("9");
    }
    match d {
        0 => "0",
        1 => "1",
        2 => "2",
        3 => "3",
        4 => "4",
        5 => "5",
        6 => "6",
        7 => "7",
        8 => "8",
        _ => "9",
    }
}

/// Writes a 64-bit integer as a decimal numeral.
pub fn u64_string(n: u64) -> (r: String)
    ensures
        r@ == dec_chars(n as int),
    decreases n,
{
    if n < 10 {
        digit_str(n).to_owned()
    } else {
        let mut s = u64_string(n / 10);
        s.append(digit_str(n % 10));
        s
    }
}


/// The sixteen lowercase hex digits as ASCII bytes, in value order.
pub open spec fn hex_byte_digits() -> Seq<u8> {
    seq![48u8, 49, 50, 51, 52, 53, 54, 55, 56, 57, 97, 98, 99, 100, 101, 102]
}

/// Lowercase hex encoding of a byte string, as ASCII bytes.
pub open spec fn hex_bytes(data: Seq<u8>) -> Seq<u8>
    decreases data.len(),
{
    if data.len() == 0 {
        Seq::empty()
    } else {
        seq![
            hex_byte_digits()[(data.first() >> 4) as int],
            hex_byte_digits()[(data.first() & 0x0f) as int],
        ] + hex_bytes(data.drop_first())
    }
}

/// The ASCII byte of one hex digit.
fn hex_digit_byte(n: u8) -> (r: u8)
    requires
        n < 16,
    ensures
        r == hex_byte_digits()[n as int],
{
    if n < 10 {
        48 + n
    } else {
        87 + n
    }
}

/// Appends the hex encoding of `bytes[lo..hi]` to `out`.
fn append_hex_bytes(out: &mut Vec<u8>, bytes: &Vec<u8>, lo: usize, hi: usize)
    requires
        lo <= hi <= bytes@.len(),
    ensures
        final(out)@ == old(out)@ + hex_bytes(bytes@.subrange(lo as int, hi as int)),
{
    let mut k: usize = lo;
    proof {
        assert(bytes@.subrange(lo as int, lo as int) =~= Seq::<u8>::empty());
        assert(old(out)@ + hex_bytes(bytes@.subrange(lo as int, hi as int)) =~= out@ + hex_bytes(
            bytes@.subrange(k as int, hi as int),
        ));
    }
    while k < hi
        invariant
            lo <= k <= hi <= bytes@.len(),
            old(out)@ + hex_bytes(bytes@.subrange(lo as int, hi as int)) =~= out@ + hex_bytes(
                bytes@.subrange(k as int, hi as int),
            ),
        decreases hi - k,
    {
        let ghost rest = bytes@.subrange(k as int, hi as int);
        proof {
            assert(rest.first() == bytes@[k as int]);
            assert(rest.drop_first() =~= bytes@.subrange(k as int + 1, hi as int));
        }
        let b = bytes[k];
        proof {
            assert(b >> 4 < 16 && b & 0x0f < 16) by (bit_vector);
        }
        out.push(hex_digit_byte(b >> 4));
        out.push(hex_digit_byte(b & 0x0f));
        k = k + 1;
    }
    proof {
        assert(bytes@.subrange(hi as int, hi as int) =~= Seq::<u8>::empty());
        assert(hex_bytes(bytes@.subrange(hi as int, hi as int)) =~= Seq::<u8>::empty());
        assert(final(out)@ =~= old(out)@ + hex_bytes(bytes@.subrange(lo as int, hi as int)));
    }
}

/// The canonical hyphenated text of a 128-bit identifier, as ASCII bytes:
/// what the identifier's written form contributes to a hash.
pub open spec fn uuid_ascii_bytes(id: u128) -> Seq<u8> {
    let b = u128_be_seq(id);
    hex_bytes(b.subrange(0, 4)) + seq![45u8] + hex_bytes(b.subrange(4, 6)) + seq![45u8]
        + hex_bytes(b.subrange(6, 8)) + seq![45u8] + hex_bytes(b.subrange(8, 10)) + seq![45u8]
        + hex_bytes(b.subrange(10, 16))
}

/// Writes a 128-bit identifier in its canonical hyphenated form, as bytes.
pub fn uuid_ascii(id: u128) -> (r: Vec<u8>)
    ensures
        r@ == uuid_ascii_bytes(id),
{
    let bytes = u128_be_bytes(id);
    let mut r: Vec<u8> = Vec::new();
    append_hex_bytes(&mut r, &bytes, 0, 4);
    r.push(45);
    append_hex_bytes(&mut r, &bytes, 4, 6);
    r.push(45);
    append_hex_bytes(&mut r, &bytes, 6, 8);
    r.push(45);
    append_hex_bytes(&mut r, &bytes, 8, 10);
    r.push(45);
    append_hex_bytes(&mut r, &bytes, 10, 16);
    proof {
        assert(r@ =~= uuid_ascii_bytes(id));
    }
    r
}

/// Appends one byte string to another.
pub fn append_bytes(out: &mut Vec<u8>, data: &Vec<u8>)
    ensures
        final(out)@ == old(out)@ + data@,
{
    let n = data.len();
    let mut k: usize = 0;
    while k < n
        invariant
            n == data@.len(),
            k <= n,
            out@ =~= old(out)@ + data@.take(k as int),
        decreases n - k,
    {
        out.push(data[k]);
        k = k + 1;
    }
    proof {
        assert(data@.take(n as int) =~= data@);
        assert(final(out)@ =~= old(out)@ + data@);
    }
}

} // verus!
