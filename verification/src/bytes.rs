//! Little-endian fields in byte buffers.

use vstd::prelude::*;

verus! {

/// The four bytes of `x`, least significant first.
#[verifier::opaque]
pub open spec fn le32(x: u32) -> Seq<u8> {
    seq![
        (x % 256) as u8,
        (x / 256 % 256) as u8,
        (x / 65536 % 256) as u8,
        (x / 16777216) as u8,
    ]
}

/// The eight bytes of `x`, least significant first.
#[verifier::opaque]
pub open spec fn le64(x: u64) -> Seq<u8> {
    le32((x % 0x1_0000_0000) as u32) + le32((x / 0x1_0000_0000) as u32)
}

/// The four bytes of `x` in two's complement, least significant first.
pub open spec fn le_i32(x: i32) -> Seq<u8> {
    le32(bits_of(x))
}

/// The bit pattern of `x`, read as an unsigned number.
pub open spec fn bits_of(x: i32) -> u32 {
    if x >= 0 {
        x as u32
    } else {
        (x + 0x1_0000_0000) as u32
    }
}

/// The signed number whose bit pattern is `x`.
pub open spec fn signed(x: u32) -> i32 {
    if x < 0x8000_0000 {
        x as i32
    } else {
        (x - 0x1_0000_0000) as i32
    }
}

/// The 32-bit field that states a length: its lowest 32 bits.
pub open spec fn len_field(n: nat) -> u32 {
    (n % 0x1_0000_0000) as u32
}

/// The 32-bit field that starts at byte `at`.
#[verifier::opaque]
pub open spec fn u32_at(s: Seq<u8>, at: int) -> u32 {
    (s[at] + 256 * s[at + 1] + 65536 * s[at + 2] + 16777216 * s[at + 3]) as u32
}

/// The 64-bit field that starts at byte `at`.
#[verifier::opaque]
pub open spec fn u64_at(s: Seq<u8>, at: int) -> u64 {
    (u32_at(s, at) + 0x1_0000_0000 * u32_at(s, at + 4)) as u64
}

/// `s` with the bytes from `at` on replaced by `field`.
pub open spec fn overlay(s: Seq<u8>, at: int, field: Seq<u8>) -> Seq<u8> {
    Seq::new(
        s.len(),
        |i: int| if at <= i < at + field.len() { field[i - at] } else { s[i] },
    )
}

/// `n` bytes that are all zero.
pub open spec fn zeros(n: nat) -> Seq<u8> {
    Seq::new(n, |i: int| 0u8)
}

/// A field of `n` bytes that starts with `s`, cut at `n`, and is zero after it.
pub open spec fn padded(s: Seq<u8>, n: nat) -> Seq<u8> {
    Seq::new(n, |i: int| if i < s.len() { s[i] } else { 0u8 })
}

/// The first `n` bytes of `s`, or all of them where there are fewer.
pub open spec fn cut(s: Seq<u8>, n: nat) -> Seq<u8> {
    if s.len() <= n {
        s
    } else {
        s.take(n as int)
    }
}

/// A 32-bit field takes four bytes.
pub broadcast proof fn le32_len(x: u32)
    ensures
        #[trigger] le32(x).len() == 4,
{
    reveal(le32);
}

/// A 64-bit field takes eight bytes.
pub broadcast proof fn le64_len(x: u64)
    ensures
        #[trigger] le64(x).len() == 8,
{
    reveal(le32);
    reveal(le64);
}

pub broadcast group group_field_lengths {
    le32_len,
    le64_len,
}

/// What is written as a 32-bit field is read back from it.
pub proof fn le32_round_trip(x: u32)
    ensures
        le32(x).len() == 4,
        u32_at(le32(x), 0) == x,
{
    reveal(le32);
    reveal(u32_at);
}

/// What is written as a 32-bit field is read back from wherever it stands.
pub proof fn u32_field(s: Seq<u8>, at: int, x: u32)
    requires
        0 <= at,
        at + 4 <= s.len(),
        s.subrange(at, at + 4) == le32(x),
    ensures
        u32_at(s, at) == x,
{
    le32_round_trip(x);
    reveal(u32_at);
    let f = s.subrange(at, at + 4);
    assert(f[0] == s[at] && f[1] == s[at + 1] && f[2] == s[at + 2] && f[3] == s[at + 3]);
}

/// What is written as a 64-bit field is read back from wherever it stands.
pub proof fn u64_field(s: Seq<u8>, at: int, x: u64)
    requires
        0 <= at,
        at + 8 <= s.len(),
        s.subrange(at, at + 8) == le64(x),
    ensures
        u64_at(s, at) == x,
{
    broadcast use group_field_lengths;

    reveal(le64);
    reveal(u64_at);
    let low = (x % 0x1_0000_0000) as u32;
    let high = (x / 0x1_0000_0000) as u32;
    let f = s.subrange(at, at + 8);
    assert(s.subrange(at, at + 4) =~= f.subrange(0, 4));
    assert(f.subrange(0, 4) =~= le32(low));
    assert(s.subrange(at + 4, at + 8) =~= f.subrange(4, 8));
    assert(f.subrange(4, 8) =~= le32(high));
    u32_field(s, at, low);
    u32_field(s, at + 4, high);
}

/// A field of zero is zero bytes.
pub proof fn zero_fields()
    ensures
        le32(0) == zeros(4),
        le64(0) == zeros(8),
{
    reveal(le32);
    reveal(le64);
    assert(le32(0) =~= zeros(4));
    assert(le64(0) =~= zeros(8));
}

/// A 32-bit field holds the bytes of the number that is read from it.
pub proof fn u32_at_round_trip(s: Seq<u8>, at: int)
    requires
        0 <= at,
        at + 4 <= s.len(),
    ensures
        le32(u32_at(s, at)) == s.subrange(at, at + 4),
{
    let (a, b, c, d) = (s[at] as int, s[at + 1] as int, s[at + 2] as int, s[at + 3] as int);
    reveal(le32);
    reveal(u32_at);
    let x = u32_at(s, at) as int;
    assert(x == a + 256 * b + 65536 * c + 16777216 * d);
    assert(x % 256 == a && x / 256 == b + 256 * c + 65536 * d);
    assert(x / 256 % 256 == b && x / 65536 == c + 256 * d);
    assert(x / 65536 % 256 == c && x / 16777216 == d);
    assert(le32(u32_at(s, at)) =~= s.subrange(at, at + 4));
}

/// What is written as a 64-bit field is read back from it.
pub proof fn le64_round_trip(x: u64)
    ensures
        le64(x).len() == 8,
        u64_at(le64(x), 0) == x,
{
    le64_len(x);
    assert(le64(x).subrange(0, 8) =~= le64(x));
    u64_field(le64(x), 0, x);
}

/// A 64-bit field holds the bytes of the number that is read from it.
pub proof fn u64_at_round_trip(s: Seq<u8>, at: int)
    requires
        0 <= at,
        at + 8 <= s.len(),
    ensures
        le64(u64_at(s, at)) == s.subrange(at, at + 8),
{
    u32_at_round_trip(s, at);
    u32_at_round_trip(s, at + 4);
    reveal(le64);
    reveal(u64_at);
    let x = u64_at(s, at);
    assert(x == u32_at(s, at) + 0x1_0000_0000 * u32_at(s, at + 4));
    assert(x % 0x1_0000_0000 == u32_at(s, at));
    assert(x / 0x1_0000_0000 == u32_at(s, at + 4));
    assert(le64(x) =~= s.subrange(at, at + 8));
}

/// A signed number and its bit pattern determine each other.
pub proof fn signed_round_trip(x: i32, y: u32)
    ensures
        signed(bits_of(x)) == x,
        bits_of(signed(y)) == y,
{
}

/// The 32-bit field that states a length.
pub fn length_field(n: usize) -> (r: u32)
    ensures
        r == len_field(n as nat),
{
    (n as u64 % 0x1_0000_0000) as u32
}

/// The bit pattern of `x`, as Rust's `as` gives it.
pub fn to_bits(x: i32) -> (r: u32)
    ensures
        r == bits_of(x),
{
    if x >= 0 {
        x as u32
    } else {
        (x as i64 + 0x1_0000_0000) as u32
    }
}

/// The signed number whose bit pattern is `x`.
pub fn to_signed(x: u32) -> (r: i32)
    ensures
        r == signed(x),
{
    if x < 0x8000_0000 {
        x as i32
    } else {
        (x as i64 - 0x1_0000_0000) as i32
    }
}

/// Reads the 32-bit field at `at`.
pub fn read_u32(buf: &[u8], at: usize) -> (r: u32)
    requires
        at + 4 <= buf.len(),
    ensures
        r == u32_at(buf@, at as int),
{
    reveal(u32_at);
    buf[at] as u32 + 256 * buf[at + 1] as u32 + 65536 * buf[at + 2] as u32
        + 16777216 * buf[at + 3] as u32
}

/// Reads the 64-bit field at `at`.
pub fn read_u64(buf: &[u8], at: usize) -> (r: u64)
    requires
        at + 8 <= buf.len(),
    ensures
        r == u64_at(buf@, at as int),
{
    reveal(u64_at);
    read_u32(buf, at) as u64 + 0x1_0000_0000 * read_u32(buf, at + 4) as u64
}

/// Appends the four bytes of `x`.
pub fn push_u32(out: &mut Vec<u8>, x: u32)
    ensures
        final(out)@ == old(out)@ + le32(x),
{
    out.push((x % 256) as u8);
    out.push((x / 256 % 256) as u8);
    out.push((x / 65536 % 256) as u8);
    out.push((x / 16777216) as u8);
    reveal(le32);
    assert(out@ =~= old(out)@ + le32(x));
}

/// Appends the eight bytes of `x`.
pub fn push_u64(out: &mut Vec<u8>, x: u64)
    ensures
        final(out)@ == old(out)@ + le64(x),
{
    push_u32(out, (x % 0x1_0000_0000) as u32);
    push_u32(out, (x / 0x1_0000_0000) as u32);
    reveal(le64);
    assert(out@ =~= old(out)@ + le64(x));
}

/// Appends the four bytes of `x`.
pub fn push_i32(out: &mut Vec<u8>, x: i32)
    ensures
        final(out)@ == old(out)@ + le_i32(x),
{
    push_u32(out, to_bits(x));
}

/// Appends all of `more`.
pub fn push_bytes(out: &mut Vec<u8>, more: &[u8])
    ensures
        final(out)@ == old(out)@ + more@,
{
    out.extend_from_slice(more);
    assert(out@ =~= old(out)@ + more@);
}

/// Appends `n` zero bytes.
pub fn push_zeros(out: &mut Vec<u8>, n: usize)
    ensures
        final(out)@ == old(out)@ + zeros(n as nat),
{
    let mut i: usize = 0;
    while i < n
        invariant
            i <= n,
            out@ =~= old(out)@ + zeros(i as nat),
        decreases n - i,
    {
        out.push(0);
        i += 1;
    }
}

/// Appends a field of `n` bytes that starts with at most `most` bytes of `s` and is zero after
/// them.
pub fn push_padded(out: &mut Vec<u8>, s: &[u8], most: usize, n: usize)
    requires
        most <= n,
    ensures
        final(out)@ == old(out)@ + padded(cut(s@, most as nat), n as nat),
{
    let len = if s.len() < most { s.len() } else { most };
    push_bytes(out, &s[0..len]);
    push_zeros(out, n - len);
    assert(out@ =~= old(out)@ + padded(cut(s@, most as nat), n as nat));
}

/// A copy of `buf`.
pub fn copied(buf: &[u8]) -> (r: Vec<u8>)
    ensures
        r@ == buf@,
{
    let mut out: Vec<u8> = Vec::new();
    push_bytes(&mut out, buf);
    assert(out@ =~= buf@);
    out
}

/// Replaces the bytes of `buf` from `at` on by `field`.
pub fn put(buf: &mut [u8], at: usize, field: &[u8])
    requires
        at + field.len() <= old(buf).len(),
    ensures
        final(buf)@ == overlay(old(buf)@, at as int, field@),
{
    let mut i: usize = 0;
    let ghost before = buf@;
    while i < field.len()
        invariant
            i <= field@.len(),
            at + field.len() <= before.len(),
            buf.len() == before.len(),
            buf@ =~= overlay(before, at as int, field@.take(i as int)),
        decreases field.len() - i,
    {
        buf[at + i] = field[i];
        i += 1;
    }
    assert(field@.take(i as int) =~= field@);
}

/// Replaces the four bytes of `buf` from `at` on by those of `x`.
pub fn put_u32(buf: &mut Vec<u8>, at: usize, x: u32)
    requires
        at + 4 <= old(buf).len(),
    ensures
        final(buf)@ == overlay(old(buf)@, at as int, le32(x)),
{
    let mut field: Vec<u8> = Vec::new();
    push_u32(&mut field, x);
    proof {
        le32_len(x);
    }
    assert(field@ =~= le32(x));
    put(buf.as_mut_slice(), at, field.as_slice());
}

/// Replaces the eight bytes of `buf` from `at` on by those of `x`.
pub fn put_u64(buf: &mut Vec<u8>, at: usize, x: u64)
    requires
        at + 8 <= old(buf).len(),
    ensures
        final(buf)@ == overlay(old(buf)@, at as int, le64(x)),
{
    let mut field: Vec<u8> = Vec::new();
    push_u64(&mut field, x);
    proof {
        le64_len(x);
    }
    assert(field@ =~= le64(x));
    put(buf.as_mut_slice(), at, field.as_slice());
}

/// Parts of `w` bytes each, put together, take `w` bytes per part, and each part is found again.
pub proof fn equal_parts(parts: Seq<Seq<u8>>, w: int)
    requires
        forall|i: int| 0 <= i < parts.len() ==> (#[trigger] parts[i]).len() == w,
    ensures
        parts.flatten().len() == parts.len() * w,
        forall|i: int|
            0 <= i < parts.len() ==> parts.flatten().subrange(i * w, i * w + w)
                == #[trigger] parts[i],
    decreases parts.len(),
{
    if parts.len() > 0 {
        let tail = parts.drop_first();
        let all = parts.flatten();
        let rest = tail.flatten();
        assert forall|i: int| 0 <= i < tail.len() implies (#[trigger] tail[i]).len() == w by {
            assert(tail[i] == parts[i + 1]);
        }
        equal_parts(tail, w);
        assert(all =~= parts[0] + rest);
        assert(parts.len() * w == w + tail.len() * w) by (nonlinear_arith)
            requires
                parts.len() == tail.len() + 1,
        ;
        assert forall|i: int| 0 <= i < parts.len() implies all.subrange(i * w, i * w + w)
            == #[trigger] parts[i] by {
            if i == 0 {
                assert(all.subrange(0, w) =~= parts[0]);
            } else {
                assert(parts[i] == tail[i - 1]);
                let at = (i - 1) * w;
                assert(i * w == w + at && 0 <= at && at + w <= tail.len() * w) by (nonlinear_arith)
                    requires
                        0 < i <= tail.len(),
                        at == (i - 1) * w,
                        w >= 0,
                ;
                assert(all.subrange(i * w, i * w + w) =~= rest.subrange(at, at + w));
            }
        }
    } else {
        assert(parts.flatten() =~= Seq::empty());
    }
}

/// A field of a part is the field of the whole.
pub proof fn field_of_part(s: Seq<u8>, from: int, to: int, at: int)
    requires
        0 <= from <= to <= s.len(),
        0 <= at,
    ensures
        from + at + 4 <= to ==> u32_at(s.subrange(from, to), at) == u32_at(s, from + at),
        from + at + 8 <= to ==> u64_at(s.subrange(from, to), at) == u64_at(s, from + at),
{
    reveal(u32_at);
    reveal(u64_at);
}

/// Fields are little-endian: the byte at place `i` counts 256 to the power of `i`.
pub proof fn fields_are_little_endian(s: Seq<u8>, at: int)
    requires
        0 <= at,
        at + 8 <= s.len(),
    ensures
        u32_at(s, at) == s[at] + 0x100 * s[at + 1] + 0x1_0000 * s[at + 2] + 0x100_0000 * s[at + 3],
        u64_at(s, at) == u32_at(s, at) + 0x1_0000_0000 * (s[at + 4] + 0x100 * s[at + 5] + 0x1_0000
            * s[at + 6] + 0x100_0000 * s[at + 7]),
{
    reveal(u32_at);
    reveal(u64_at);
}

/// A number is written little-endian: the first byte is its remainder by 256, and so on.
pub proof fn numbers_are_written_little_endian(x: u32, y: u64)
    ensures
        le32(x).len() == 4,
        x == le32(x)[0] + 0x100 * le32(x)[1] + 0x1_0000 * le32(x)[2] + 0x100_0000 * le32(x)[3],
        le64(y).len() == 8,
        y == le64(y)[0] + 0x100 * le64(y)[1] + 0x1_0000 * le64(y)[2] + 0x100_0000 * le64(y)[3]
            + 0x1_0000_0000 * (le64(y)[4] + 0x100 * le64(y)[5] + 0x1_0000 * le64(y)[6] + 0x100_0000
            * le64(y)[7]),
{
    le32_round_trip(x);
    le64_round_trip(y);
    reveal(u32_at);
    reveal(u64_at);
}

/// A signed number and its bit pattern differ by a multiple of two to the power of 32.
pub proof fn signs_are_twos_complement(x: u32, y: i32)
    ensures
        signed(x) == x || signed(x) == x - 0x1_0000_0000,
        signed(x) < 0 <==> x >= 0x8000_0000,
        bits_of(y) == y || bits_of(y) == y + 0x1_0000_0000,
{
}

/// An overlay changes the bytes of the field and no others.
pub proof fn overlay_changes_only_the_field(s: Seq<u8>, at: int, field: Seq<u8>, i: int)
    requires
        0 <= at,
        at + field.len() <= s.len(),
        0 <= i < s.len(),
    ensures
        overlay(s, at, field).len() == s.len(),
        overlay(s, at, field).subrange(at, at + field.len()) == field,
        (i < at || at + field.len() <= i) ==> overlay(s, at, field)[i] == s[i],
{
    assert(overlay(s, at, field).subrange(at, at + field.len()) =~= field);
}

/// A padded field has its size, starts with the text as far as that fits, and is zero after it.
pub proof fn padding_keeps_the_text(s: Seq<u8>, most: nat, n: nat, i: int)
    requires
        most <= n,
        0 <= i < n,
    ensures
        padded(cut(s, most), n).len() == n,
        i < most && i < s.len() ==> padded(cut(s, most), n)[i] == s[i],
        i >= most || i >= s.len() ==> padded(cut(s, most), n)[i] == 0,
        cut(s, most).len() <= most,
        s.len() <= most ==> cut(s, most) == s,
        s.len() > most ==> cut(s, most).len() == most,
{
}

/// The field that states a length states it, where that is below two to the power of 32.
pub proof fn lengths_are_stated(n: nat)
    requires
        n < 0x1_0000_0000,
    ensures
        len_field(n) == n,
{
}

} // verus!
