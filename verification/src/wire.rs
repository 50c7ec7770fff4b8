//! Byte-level building blocks of the wire formats: base-128 varints and
//! fixed-width little-endian integers.

use vstd::prelude::*;

verus! {

/// `128^i`, the weight of the `i`-th seven-bit group of a varint.
pub open spec fn pow128(i: nat) -> nat
    decreases i,
{
    if i == 0 {
        1
    } else {
        128 * pow128((i - 1) as nat)
    }
}

/// Value of a base-128 digit string, least significant group first; each
/// byte contributes its low seven bits.
pub open spec fn le7_value(s: Seq<u8>) -> nat
    decreases s.len(),
{
    if s.len() == 0 {
        0
    } else {
        (s[0] % 128) as nat + 128 * le7_value(s.drop_first())
    }
}

/// The varint encoding of `v`: seven bits per byte, least significant group
/// first, the high bit set on every byte but the last.
pub open spec fn varint_bytes(v: nat) -> Seq<u8>
    decreases v,
{
    if v < 128 {
        seq![v as u8]
    } else {
        seq![((v % 128) + 128) as u8] + varint_bytes(v / 128)
    }
}

/// Length of the varint at the start of `s`: everything up to and including
/// the first byte below 128; `None` when no such byte exists.
pub open spec fn varint_len(s: Seq<u8>) -> Option<nat>
    decreases s.len(),
{
    if s.len() == 0 {
        None
    } else if s[0] < 128 {
        Some(1)
    } else {
        match varint_len(s.drop_first()) {
            Some(n) => Some(n + 1),
            None => None,
        }
    }
}

/// The length prefix read at the start of `s`: a varint of at most five
/// bytes, its value reduced modulo 2^32, together with its length.
pub open spec fn varint32_prefix(s: Seq<u8>) -> Option<(u32, nat)> {
    match varint_len(s) {
        Some(n) => if n <= 5 {
            Some(((le7_value(s.take(n as int)) % 0x1_0000_0000) as u32, n))
        } else {
            None
        },
        None => None,
    }
}

/// Little-endian bytes of a 16-bit value.
pub open spec fn le16_bytes(v: u16) -> Seq<u8> {
    seq![(v % 256) as u8, (v / 256) as u8]
}

/// Little-endian bytes of a 32-bit value.
pub open spec fn le32_bytes(v: u32) -> Seq<u8> {
    seq![(v % 256) as u8, ((v / 256) % 256) as u8, ((v / 0x1_0000) % 256) as u8, (v / 0x100_0000) as u8]
}

/// Little-endian bytes of a 64-bit value.
pub open spec fn le64_bytes(v: u64) -> Seq<u8> {
    le32_bytes((v % 0x1_0000_0000) as u32) + le32_bytes((v / 0x1_0000_0000) as u32)
}

/// The 16-bit value whose little-endian bytes start `s`.
pub open spec fn le16_value(s: Seq<u8>) -> u16 {
    (s[0] + 256 * s[1]) as u16
}

/// The 32-bit value whose little-endian bytes start `s`.
pub open spec fn le32_value(s: Seq<u8>) -> u32 {
    (s[0] + 256 * s[1] + 0x1_0000 * s[2] + 0x100_0000 * s[3]) as u32
}

/// The 64-bit value whose little-endian bytes start `s`.
pub open spec fn le64_value(s: Seq<u8>) -> u64 {
    (le32_value(s) + 0x1_0000_0000 * le32_value(s.skip(4))) as u64
}

pub proof fn lemma_le7_take_step(s: Seq<u8>, i: int)
    requires
        0 <= i < s.len(),
    ensures
        le7_value(s.take(i + 1)) == le7_value(s.take(i)) + (s[i] % 128) as nat * pow128(i as nat),
    decreases i,
{
    assert(le7_value(Seq::<u8>::empty()) == 0);
    if i == 0 {
        assert(s.take(1).drop_first() =~= Seq::<u8>::empty());
        assert(s.take(0) =~= Seq::<u8>::empty());
        assert(s.take(1)[0] == s[0]);
        assert(le7_value(s.take(1)) == (s[0] % 128) as nat + 128 * le7_value(s.take(1).drop_first()));
        assert(le7_value(s.take(1)) == (s[0] % 128) as nat);
        assert(pow128(0) == 1);
    } else {
        let t = s.drop_first();
        lemma_le7_take_step(t, i - 1);
        assert(s.take(i + 1).drop_first() =~= t.take(i));
        assert(s.take(i).drop_first() =~= t.take(i - 1));
        assert(s.take(i + 1)[0] == s[0]);
        assert(s.take(i)[0] == s[0]);
        assert(t[i - 1] == s[i]);
        assert(le7_value(s.take(i + 1)) == (s[0] % 128) as nat + 128 * le7_value(t.take(i)));
        assert(le7_value(s.take(i)) == (s[0] % 128) as nat + 128 * le7_value(t.take(i - 1)));
        assert(pow128(i as nat) == 128 * pow128((i - 1) as nat));
        let a = (s[i] % 128) as nat;
        let p = pow128((i - 1) as nat);
        assert(le7_value(t.take(i)) == le7_value(t.take(i - 1)) + a * p);
        assert(128 * (a * p) == a * (128 * p)) by (nonlinear_arith);
        assert(128 * le7_value(t.take(i)) == 128 * le7_value(t.take(i - 1)) + 128 * (a * p));
        assert(le7_value(s.take(i + 1)) == le7_value(s.take(i)) + a * pow128(i as nat));
    }
}

pub proof fn lemma_varint_len_found(s: Seq<u8>, n: nat)
    requires
        0 < n <= s.len(),
        s[n - 1] < 128,
        forall|j: int| 0 <= j < n - 1 ==> s[j] >= 128,
    ensures
        varint_len(s) == Some(n),
    decreases n,
{
    if n > 1 {
        lemma_varint_len_found(s.drop_first(), (n - 1) as nat);
    }
}

pub proof fn lemma_varint_len_beyond(s: Seq<u8>, k: nat)
    requires
        forall|j: int| 0 <= j < k && j < s.len() ==> s[j] >= 128,
    ensures
        match varint_len(s) {
            Some(n) => n > k && 1 <= n <= s.len(),
            None => true,
        },
    decreases s.len(),
{
    if s.len() > 0 && s[0] >= 128 {
        let t = s.drop_first();
        let k2: nat = if k > 0 { (k - 1) as nat } else { 0 };
        assert forall|j: int| 0 <= j < k2 && j < t.len() implies t[j] >= 128 by {
            assert(t[j] == s[j + 1]);
        }
        lemma_varint_len_beyond(t, k2);
    }
}

pub proof fn lemma_varint_bytes_props(v: nat, rest: Seq<u8>)
    ensures
        varint_len(varint_bytes(v) + rest) == Some(varint_bytes(v).len()),
        le7_value(varint_bytes(v)) == v,
        varint_bytes(v).len() >= 1,
        v < pow128(varint_bytes(v).len()),
        varint_bytes(v).len() > 1 ==> v >= pow128((varint_bytes(v).len() - 1) as nat),
        (varint_bytes(v) + rest).take(varint_bytes(v).len() as int) == varint_bytes(v),
    decreases v,
{
    let b = varint_bytes(v);
    assert(le7_value(Seq::<u8>::empty()) == 0);
    if v < 128 {
        assert(b[0] == v);
        assert((b + rest)[0] == b[0]);
        assert((b + rest).drop_first() =~= rest);
        assert(b.drop_first() =~= Seq::<u8>::empty());
        assert(pow128(1) == 128) by {
            reveal_with_fuel(pow128, 2);
        }
    } else {
        let w = v / 128;
        lemma_varint_bytes_props(w, rest);
        assert((b + rest).drop_first() =~= varint_bytes(w) + rest);
        assert(b.drop_first() =~= varint_bytes(w));
        assert(b[0] % 128 == v % 128);
        assert(b[0] >= 128);
        assert((b + rest)[0] == b[0]);
        assert(pow128(b.len()) == 128 * pow128(varint_bytes(w).len()));
        assert(pow128((b.len() - 1) as nat) == 128 * pow128((varint_bytes(w).len() - 1) as nat));
        assert(v == v % 128 + 128 * w);
    }
    assert((b + rest).take(b.len() as int) =~= b);
}

pub proof fn lemma_pow128_values()
    ensures
        pow128(0) == 1,
        pow128(1) == 128,
        pow128(2) == 0x4000,
        pow128(3) == 0x20_0000,
        pow128(4) == 0x1000_0000,
        pow128(5) == 0x8_0000_0000,
{
    reveal_with_fuel(pow128, 6);
}

/// A varint of a 32-bit value fits the five bytes the length reader accepts,
/// and reading it back at the head of any byte string gives the value.
pub proof fn lemma_varint32_roundtrip(v: u32, rest: Seq<u8>)
    ensures
        varint32_prefix(varint_bytes(v as nat) + rest) == Some((v, varint_bytes(v as nat).len())),
{
    let b = varint_bytes(v as nat);
    lemma_varint_bytes_props(v as nat, rest);
    lemma_pow128_values();
    if b.len() > 5 {
        lemma_pow128_monotone(5, (b.len() - 1) as nat);
    }
    assert(b.len() <= 5);
    assert(le7_value((b + rest).take(b.len() as int)) == v);
}

pub proof fn lemma_pow128_monotone(i: nat, j: nat)
    requires
        i <= j,
    ensures
        pow128(i) <= pow128(j),
    decreases j - i,
{
    if i < j {
        lemma_pow128_monotone(i, (j - 1) as nat);
    }
}

/// Appends the varint encoding of `v` to `out`.
pub fn push_varint(out: &mut Vec<u8>, v: u64)
    ensures
        final(out)@ == old(out)@ + varint_bytes(v as nat),
{
    let ghost start = out@;
    let mut code: u64 = v;
    while code >= 0x80
        invariant
            start + varint_bytes(v as nat) == out@ + varint_bytes(code as nat),
        decreases code,
    {
        let low: u64 = code & 0x7f;
        assert(low == code % 128) by (bit_vector)
            requires
                low == code & 0x7f,
        ;
        let b: u8 = (low as u8) | 0x80;
        assert(b == low + 128) by (bit_vector)
            requires
                b == (low as u8) | 0x80,
                low < 128,
        ;
        let ghost before = out@;
        out.push(b);
        let next: u64 = code >> 7;
        assert(next == code / 128) by (bit_vector)
            requires
                next == code >> 7,
        ;
        assert(varint_bytes(code as nat) == seq![b] + varint_bytes(next as nat));
        assert(before + (seq![b] + varint_bytes(next as nat)) =~= out@ + varint_bytes(next as nat));
        code = next;
    }
    out.push(code as u8);
}

/// Reads the length prefix that starts at `pos`: `Some((value, next_pos))`
/// exactly when `varint32_prefix` accepts the bytes from `pos` on.
pub fn read_varint32(data: &[u8], pos: usize) -> (res: Option<(u32, usize)>)
    requires
        pos <= data@.len(),
    ensures
        res == match varint32_prefix(data@.subrange(pos as int, data@.len() as int)) {
            Some((v, n)) => Some((v, (pos + n) as usize)),
            None => None,
        },
{
    let ghost s = data@.subrange(pos as int, data@.len() as int);
    proof {
        lemma_pow128_values();
    }
    let mut i: usize = 0;
    let mut acc: u64 = 0;
    let mut mult: u64 = 1;
    while i < 5
        invariant
            0 <= i <= 5,
            pos <= data@.len(),
            s == data@.subrange(pos as int, data@.len() as int),
            forall|j: int| 0 <= j < i ==> s[j] >= 128,
            i <= s.len(),
            acc == le7_value(s.take(i as int)),
            mult == pow128(i as nat),
            acc < mult,
            pow128(0) == 1,
            pow128(1) == 128,
            pow128(2) == 0x4000,
            pow128(3) == 0x20_0000,
            pow128(4) == 0x1000_0000,
            pow128(5) == 0x8_0000_0000,
        decreases 5 - i,
    {
        if i >= data.len() - pos {
            proof {
                lemma_varint_len_beyond(s, i as nat);
            }
            return None;
        }
        let b: u8 = data[pos + i];
        assert(b == s[i as int]);
        let digit: u64 = (b % 128) as u64;
        proof {
            lemma_le7_take_step(s, i as int);
            assert(digit * mult <= 127 * mult) by (nonlinear_arith)
                requires
                    digit <= 127,
            ;
            assert(acc + digit * mult < 128 * mult) by (nonlinear_arith)
                requires
                    acc < mult,
                    digit <= 127,
            ;
        }
        acc = acc + digit * mult;
        if b < 128 {
            proof {
                lemma_varint_len_found(s, (i + 1) as nat);
            }
            return Some(((acc % 0x1_0000_0000) as u32, pos + i + 1));
        }
        mult = mult * 128;
        i = i + 1;
    }
    proof {
        lemma_varint_len_beyond(s, 5);
    }
    None
}

/// Appends the little-endian bytes of `v`.
pub fn push_le16(out: &mut Vec<u8>, v: u16)
    ensures
        final(out)@ == old(out)@ + le16_bytes(v),
{
    out.push((v % 256) as u8);
    out.push((v / 256) as u8);
    assert(out@ =~= old(out)@ + le16_bytes(v));
}

/// Appends the little-endian bytes of `v`.
pub fn push_le32(out: &mut Vec<u8>, v: u32)
    ensures
        final(out)@ == old(out)@ + le32_bytes(v),
{
    out.push((v % 256) as u8);
    out.push(((v / 256) % 256) as u8);
    out.push(((v / 0x1_0000) % 256) as u8);
    out.push((v / 0x100_0000) as u8);
    assert(out@ =~= old(out)@ + le32_bytes(v));
}

/// Appends the little-endian bytes of `v`.
pub fn push_le64(out: &mut Vec<u8>, v: u64)
    ensures
        final(out)@ == old(out)@ + le64_bytes(v),
{
    push_le32(out, (v % 0x1_0000_0000) as u32);
    push_le32(out, (v / 0x1_0000_0000) as u32);
    assert(out@ =~= old(out)@ + le64_bytes(v));
}

/// Reads the 32-bit little-endian value stored at `pos`.
pub fn read_le32(data: &[u8], pos: usize) -> (v: u32)
    requires
        pos + 4 <= data@.len(),
    ensures
        v == le32_value(data@.skip(pos as int)),
{
    let v = data[pos] as u32 + 256 * (data[pos + 1] as u32) + 0x1_0000 * (data[pos + 2] as u32)
        + 0x100_0000 * (data[pos + 3] as u32);
    v
}

/// Reads the 64-bit little-endian value stored at `pos`.
pub fn read_le64(data: &[u8], pos: usize) -> (v: u64)
    requires
        pos + 8 <= data@.len(),
    ensures
        v == le64_value(data@.skip(pos as int)),
{
    assert(data@.len() == data.len());
    let lo = read_le32(data, pos);
    let hi = read_le32(data, pos + 4);
    assert(data@.skip(pos as int).skip(4) =~= data@.skip(pos + 4));
    lo as u64 + 0x1_0000_0000 * (hi as u64)
}

pub proof fn lemma_le16_roundtrip(a: u16, rest: Seq<u8>)
    ensures
        le16_value(le16_bytes(a) + rest) == a,
        le16_bytes(a).len() == 2,
{
    let x = le16_bytes(a) + rest;
    assert(x[0] == (a % 256) as u8);
    assert(x[1] == (a / 256) as u8);
    assert((a % 256) + 256 * (a / 256) == a) by (bit_vector);
}

pub proof fn lemma_le32_roundtrip(b: u32, rest: Seq<u8>)
    ensures
        le32_value(le32_bytes(b) + rest) == b,
        le32_bytes(b).len() == 4,
{
    let x = le32_bytes(b) + rest;
    assert(x[0] == (b % 256) as u8);
    assert(x[1] == ((b / 256) % 256) as u8);
    assert(x[2] == ((b / 0x1_0000) % 256) as u8);
    assert(x[3] == (b / 0x100_0000) as u8);
    assert((b % 256) + 256 * ((b / 256) % 256) + 0x1_0000 * ((b / 0x1_0000) % 256) + 0x100_0000 * (b
        / 0x100_0000) == b) by (bit_vector);
}

/// The little-endian encodings read back to the value written.
pub proof fn lemma_le_roundtrip(a: u16, b: u32, c: u64, rest: Seq<u8>)
    ensures
        le16_value(le16_bytes(a) + rest) == a,
        le32_value(le32_bytes(b) + rest) == b,
        le64_value(le64_bytes(c) + rest) == c,
        le16_bytes(a).len() == 2,
        le32_bytes(b).len() == 4,
        le64_bytes(c).len() == 8,
{
    lemma_le16_roundtrip(a, rest);
    lemma_le32_roundtrip(b, rest);
    let lo = (c % 0x1_0000_0000) as u32;
    let hi = (c / 0x1_0000_0000) as u32;
    assert((le64_bytes(c) + rest).skip(4) =~= le32_bytes(hi) + rest);
    assert((le64_bytes(c) + rest) =~= le32_bytes(lo) + (le32_bytes(hi) + rest));
    lemma_le32_roundtrip(lo, le32_bytes(hi) + rest);
    lemma_le32_roundtrip(hi, rest);
    assert(lo + 0x1_0000_0000 * hi == c) by (bit_vector)
        requires
            lo == (c % 0x1_0000_0000) as u32,
            hi == (c / 0x1_0000_0000) as u32,
    ;
}

/// Appends `bytes` to `out`.
pub fn push_bytes(out: &mut Vec<u8>, bytes: &[u8])
    ensures
        final(out)@ == old(out)@ + bytes@,
{
    let ghost start = out@;
    let mut i: usize = 0;
    while i < bytes.len()
        invariant
            i <= bytes@.len(),
            out@ == start + bytes@.take(i as int),
        decreases bytes@.len() - i,
    {
        out.push(bytes[i]);
        assert(bytes@.take(i + 1) =~= bytes@.take(i as int).push(bytes@[i as int]));
        i = i + 1;
    }
    assert(bytes@.take(bytes@.len() as int) =~= bytes@);
}

/// Concatenation of `f` applied to each element of `items`, in order.
pub open spec fn concat_map<T>(items: Seq<T>, f: spec_fn(T) -> Seq<u8>) -> Seq<u8>
    decreases items.len(),
{
    if items.len() == 0 {
        Seq::empty()
    } else {
        f(items[0]) + concat_map(items.drop_first(), f)
    }
}

pub proof fn lemma_concat_map_push<T>(items: Seq<T>, f: spec_fn(T) -> Seq<u8>, k: int)
    requires
        0 <= k < items.len(),
    ensures
        concat_map(items.take(k + 1), f) == concat_map(items.take(k), f) + f(items[k]),
    decreases k,
{
    assert(concat_map(Seq::<T>::empty(), f) =~= Seq::<u8>::empty());
    if k == 0 {
        assert(items.take(1).drop_first() =~= Seq::<T>::empty());
        assert(items.take(0) =~= Seq::<T>::empty());
        assert(concat_map(items.take(1), f) =~= f(items[0]));
    } else {
        let t = items.drop_first();
        lemma_concat_map_push(t, f, k - 1);
        assert(items.take(k + 1).drop_first() =~= t.take(k));
        assert(items.take(k).drop_first() =~= t.take(k - 1));
        assert(items.take(k + 1)[0] == items[0]);
        assert(items.take(k)[0] == items[0]);
        assert(concat_map(items.take(k + 1), f) =~= concat_map(items.take(k), f) + f(items[k]));
    }
}

} // verus!
