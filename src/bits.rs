//! Bit-exact reading and writing of unsigned integer fields that may start
//! inside a byte, span several bytes and use big- or little-endian order.
//!
//! A field is described by the byte where it starts, its bit offset inside
//! that byte (counted from the most significant bit), its width in bits and
//! its byte order. The bytes it touches form a window that is read as one
//! big-endian number; the field's raw bits sit in that number, and the byte
//! order decides how the raw bits map to the value.
//!
//! Bytes past the end of a buffer read as zero, and writes past its end are
//! dropped, so every access is total and never leaves the buffer.
use vstd::arithmetic::div_mod::*;
use vstd::arithmetic::mul::*;
use vstd::arithmetic::power2::*;
use vstd::prelude::*;

verus! {

/// Byte order of a multi-byte field.
///
/// `Host` is an explicit, fixed choice in this library: it means
/// little-endian order on every target, and is never detected from the
/// platform.
#[derive(Clone, Copy, Debug, PartialEq, Eq, Structural)]
pub enum Endianness {
    Big,
    Little,
    Host,
}

/// The byte at `i`, or zero past either end of `s`.
pub open spec fn byte_at(s: Seq<u8>, i: int) -> u8 {
    if 0 <= i < s.len() {
        s[i]
    } else {
        0
    }
}

/// The number whose big-endian bytes are `s`.
pub open spec fn be_nat(s: Seq<u8>) -> nat
    decreases s.len(),
{
    if s.len() == 0 {
        0
    } else {
        be_nat(s.drop_last()) * 256 + s.last() as nat
    }
}

/// Byte `j` of the `n`-byte big-endian form of `w`.
pub open spec fn byte_of(w: nat, n: nat, j: int) -> u8 {
    ((w / pow2((8 * (n - 1 - j)) as nat)) % 256) as u8
}

/// The `n`-byte big-endian form of `w`.
pub open spec fn be_bytes(w: nat, n: nat) -> Seq<u8> {
    Seq::new(n, |j: int| byte_of(w, n, j))
}

/// Number of bytes that a field of `width` bits starting at bit `bit_off`
/// of its first byte touches.
pub open spec fn span(bit_off: nat, width: nat) -> nat {
    (bit_off + width + 7) / 8
}

/// Number of bits of the window that follow the field.
pub open spec fn trailing(bit_off: nat, width: nat) -> nat {
    (8 * span(bit_off, width) - bit_off - width) as nat
}

/// The bytes a field touches, zero past the end of `s`.
pub open spec fn window(s: Seq<u8>, pos: int, bit_off: nat, width: nat) -> Seq<u8> {
    Seq::new(span(bit_off, width), |j: int| byte_at(s, pos + j))
}

/// The window read as one big-endian number.
pub open spec fn window_nat(s: Seq<u8>, pos: int, bit_off: nat, width: nat) -> nat {
    be_nat(window(s, pos, bit_off, width))
}

/// The field's bits, in the order in which they are stored.
pub open spec fn raw_bits(s: Seq<u8>, pos: int, bit_off: nat, width: nat) -> nat {
    (window_nat(s, pos, bit_off, width) / pow2(trailing(bit_off, width))) % pow2(width)
}

/// Little-endian decoding of `width` stored bits: the first stored byte
/// is the least significant one; a last partial byte holds the top bits.
pub open spec fn swap_le(v: nat, width: nat) -> nat
    decreases width,
{
    if width <= 8 {
        v
    } else {
        (v % 256) * pow2((width - 8) as nat) + swap_le(v / 256, (width - 8) as nat)
    }
}

/// Little-endian encoding: the inverse of `swap_le`.
pub open spec fn unswap_le(r: nat, width: nat) -> nat
    decreases width,
{
    if width <= 8 {
        r
    } else {
        r / pow2((width - 8) as nat) + 256 * unswap_le(r % pow2((width - 8) as nat), (width - 8) as nat)
    }
}

/// The value that stored bits `r` stand for.
pub open spec fn decode(e: Endianness, width: nat, r: nat) -> nat {
    match e {
        Endianness::Big => r,
        _ => swap_le(r, width),
    }
}

/// The stored bits that stand for value `v`.
pub open spec fn encode(e: Endianness, width: nat, v: nat) -> nat {
    match e {
        Endianness::Big => v,
        _ => unswap_le(v, width),
    }
}

/// The value of a field.
pub open spec fn field_value(s: Seq<u8>, pos: int, bit_off: nat, width: nat, e: Endianness) -> nat {
    decode(e, width, raw_bits(s, pos, bit_off, width))
}

/// Window number `w` with the field's bits replaced by `r`: the bits
/// before and after the field are kept.
pub open spec fn splice(w: nat, t: nat, width: nat, r: nat) -> nat {
    (w / pow2(t + width)) * pow2(t + width) + r * pow2(t) + w % pow2(t)
}

/// The window after storing `v` (taken modulo 2^width).
pub open spec fn stored_window(s: Seq<u8>, pos: int, bit_off: nat, width: nat, e: Endianness, v: nat) -> nat {
    splice(
        window_nat(s, pos, bit_off, width),
        trailing(bit_off, width),
        width,
        encode(e, width, v % pow2(width)),
    )
}

/// The buffer after storing `v` in a field: bytes of the window inside the
/// buffer take the new window's bytes, all others are kept.
pub open spec fn field_store(s: Seq<u8>, pos: int, bit_off: nat, width: nat, e: Endianness, v: nat) -> Seq<u8> {
    let n = span(bit_off, width);
    let w = stored_window(s, pos, bit_off, width, e, v);
    Seq::new(s.len(), |i: int| if pos <= i < pos + n { byte_of(w, n, i - pos) } else { s[i] })
}

/// The parameters a field access accepts.
pub open spec fn valid_field(bit_off: nat, width: nat) -> bool {
    bit_off < 8 && 1 <= width <= 64
}

proof fn lemma_be_nat_bound(s: Seq<u8>)
    ensures
        be_nat(s) < pow2(8 * s.len()),
    decreases s.len(),
{
    lemma_pow2_pos(8 * s.len());
    if s.len() > 0 {
        let p = s.drop_last();
        lemma_be_nat_bound(p);
        lemma_pow2_adds(8 * p.len(), 8);
        lemma2_to64();
        let a = be_nat(p);
        let b = pow2(8 * p.len());
        assert(a * 256 + (s.last() as nat) < b * 256) by (nonlinear_arith)
            requires
                a < b,
                s.last() < 256,
        ;
        assert(8 * s.len() == 8 * p.len() + 8);
        assert(pow2(8 * s.len()) == b * 256);
        assert(be_nat(s) == a * 256 + (s.last() as nat));
    }
}

proof fn lemma_be_bytes_round(w: nat, n: nat)
    requires
        w < pow2(8 * n),
    ensures
        be_nat(be_bytes(w, n)) == w,
    decreases n,
{
    lemma2_to64();
    if n == 0 {
        assert(w == 0);
    } else {
        let q = w / 256;
        let s = be_bytes(w, n);
        lemma_pow2_adds(8 * (n - 1) as nat, 8);
        assert(pow2(8 * n) == pow2(8 * (n - 1) as nat) * 256) by {
            assert(8 * n == 8 * (n - 1) as nat + 8);
        }
        assert(q < pow2(8 * (n - 1) as nat)) by {
            lemma_div_denominator(w as int, 1, 1);
            lemma_fundamental_div_mod(w as int, 256);
            let b = pow2(8 * (n - 1) as nat);
            assert(q < b) by (nonlinear_arith)
                requires
                    w == 256 * q + w % 256,
                    w % 256 >= 0,
                    w < b * 256,
            ;
        }
        assert forall|j: int| 0 <= j < n - 1 implies s.drop_last()[j] == byte_of(q, (n - 1) as nat, j) by {
            let e = (8 * (n - 2 - j)) as nat;
            lemma_pow2_adds(8, e);
            assert((8 * (n - 1 - j)) as nat == 8 + e);
            lemma_pow2_pos(e);
            lemma_div_denominator(w as int, 256, pow2(e) as int);
        }
        assert(s.drop_last() =~= be_bytes(q, (n - 1) as nat));
        lemma_be_bytes_round(q, (n - 1) as nat);
        assert(s.last() == (w % 256) as u8) by {
            assert(pow2(0) == 1);
            assert((8 * (n - 1 - (n - 1))) as nat == 0);
            assert(w / 1 == w);
        }
        lemma_fundamental_div_mod(w as int, 256);
    }
}

proof fn lemma_swap_bound(v: nat, width: nat)
    requires
        v < pow2(width),
    ensures
        swap_le(v, width) < pow2(width),
    decreases width,
{
    if width > 8 {
        let k = (width - 8) as nat;
        lemma2_to64();
        lemma_pow2_adds(k, 8);
        assert(width == k + 8);
        let q = v / 256;
        assert(q < pow2(k)) by {
            lemma_fundamental_div_mod(v as int, 256);
            let b = pow2(k);
            assert(q < b) by (nonlinear_arith)
                requires
                    v == 256 * q + v % 256,
                    v % 256 >= 0,
                    v < b * 256,
            ;
        }
        lemma_swap_bound(q, k);
        let lo = v % 256;
        let b = pow2(k);
        let sw = swap_le(q, k);
        assert(lo * b + sw < b * 256) by (nonlinear_arith)
            requires
                lo < 256,
                sw < b,
        ;
    }
}

proof fn lemma_unswap_round(r: nat, width: nat)
    requires
        r < pow2(width),
    ensures
        unswap_le(r, width) < pow2(width),
        swap_le(unswap_le(r, width), width) == r,
    decreases width,
{
    if width > 8 {
        let k = (width - 8) as nat;
        lemma2_to64();
        lemma_pow2_adds(k, 8);
        assert(width == k + 8);
        let b = pow2(k);
        lemma_pow2_pos(k);
        let hi = r / b;
        let lo = r % b;
        lemma_fundamental_div_mod(r as int, b as int);
        assert(hi < 256) by (nonlinear_arith)
            requires
                r == b * hi + lo,
                lo >= 0,
                r < b * 256,
                b > 0,
        ;
        lemma_unswap_round(lo, k);
        let u = unswap_le(lo, k);
        let whole = unswap_le(r, width);
        assert(whole == hi + 256 * u);
        assert(whole < pow2(width)) by (nonlinear_arith)
            requires
                whole == hi + 256 * u,
                hi < 256,
                u < b,
                pow2(width) == b * 256,
        ;
        lemma_fundamental_div_mod_converse(whole as int, 256, u as int, hi as int);
        assert(swap_le(whole, width) == hi * b + swap_le(u, k));
        assert(hi * b + lo == r) by (nonlinear_arith)
            requires
                r == b * hi + lo,
        ;
    }
}

proof fn lemma_decode_encode(e: Endianness, width: nat, v: nat)
    requires
        v < pow2(width),
    ensures
        encode(e, width, v) < pow2(width),
        decode(e, width, encode(e, width, v)) == v,
{
    if e != Endianness::Big {
        lemma_unswap_round(v, width);
    }
}

proof fn lemma_decode_bound(e: Endianness, width: nat, r: nat)
    requires
        r < pow2(width),
    ensures
        decode(e, width, r) < pow2(width),
{
    if e != Endianness::Big {
        lemma_swap_bound(r, width);
    }
}

proof fn lemma_splice(w: nat, t: nat, width: nat, r: nat, n: nat)
    requires
        r < pow2(width),
        w < pow2(8 * n),
        t + width <= 8 * n,
    ensures
        splice(w, t, width, r) < pow2(8 * n),
        (splice(w, t, width, r) / pow2(t)) % pow2(width) == r,
        splice(w, t, width, r) % pow2(t) == w % pow2(t),
        splice(w, t, width, r) / pow2(t + width) == w / pow2(t + width),
{
    let pt = pow2(t);
    let pw = pow2(width);
    let ptw = pow2(t + width);
    let rest = (8 * n - t - width) as nat;
    lemma_pow2_adds(t, width);
    lemma_pow2_adds(t + width, rest);
    assert(8 * n == t + width + rest);
    lemma_pow2_pos(t);
    lemma_pow2_pos(width);
    lemma_pow2_pos(rest);
    let hi = w / ptw;
    let lo = w % pt;
    lemma_fundamental_div_mod(w as int, ptw as int);
    let pn = pow2(8 * n);
    let pr = pow2(rest);
    assert(hi < pr) by (nonlinear_arith)
        requires
            w == ptw * hi + w % ptw,
            w % ptw >= 0,
            w < pn,
            pn == ptw * pr,
            ptw > 0,
    ;
    lemma_mod_bound(w as int, pt as int);
    let sp = splice(w, t, width, r);
    assert(sp == pt * (hi * pw + r) + lo) by (nonlinear_arith)
        requires
            sp == hi * ptw + r * pt + lo,
            ptw == pt * pw,
    ;
    assert(sp < pn) by (nonlinear_arith)
        requires
            sp == pt * (hi * pw + r) + lo,
            lo < pt,
            r < pw,
            hi < pr,
            pn == pt * pw * pr,
            ptw == pt * pw,
            pt > 0,
    ;
    lemma_fundamental_div_mod_converse(sp as int, pt as int, (hi * pw + r) as int, lo as int);
    lemma_fundamental_div_mod_converse((hi * pw + r) as int, pw as int, hi as int, r as int);
    assert(sp == hi * ptw + (r * pt + lo));
    assert(r * pt + lo < ptw) by (nonlinear_arith)
        requires
            lo < pt,
            r < pw,
            ptw == pt * pw,
    ;
    lemma_fundamental_div_mod_converse(sp as int, ptw as int, hi as int, (r * pt + lo) as int);
}

/// Storing a value in a field and then reading that field gives the value
/// taken modulo 2^width, for every bit offset, width and byte order, when
/// the field lies inside the buffer.
pub proof fn lemma_store_then_read(s: Seq<u8>, pos: int, bit_off: nat, width: nat, e: Endianness, v: nat)
    requires
        valid_field(bit_off, width),
        0 <= pos,
        pos + span(bit_off, width) <= s.len(),
    ensures
        field_value(field_store(s, pos, bit_off, width, e, v), pos, bit_off, width, e) == v % pow2(width),
{
    let n = span(bit_off, width);
    let t = trailing(bit_off, width);
    let vm = v % pow2(width);
    lemma_pow2_pos(width);
    lemma_mod_bound(v as int, pow2(width) as int);
    lemma_decode_encode(e, width, vm);
    let r = encode(e, width, vm);
    let w = window_nat(s, pos, bit_off, width);
    lemma_be_nat_bound(window(s, pos, bit_off, width));
    lemma_splice(w, t, width, r, n);
    let w2 = stored_window(s, pos, bit_off, width, e, v);
    let s2 = field_store(s, pos, bit_off, width, e, v);
    assert(window(s2, pos, bit_off, width) =~= be_bytes(w2, n));
    lemma_be_bytes_round(w2, n);
}

/// Storing a value in a field keeps every bit of the window that is not
/// the field's, and every byte outside the window.
pub proof fn lemma_store_keeps_neighbours(s: Seq<u8>, pos: int, bit_off: nat, width: nat, e: Endianness, v: nat)
    requires
        valid_field(bit_off, width),
        0 <= pos,
        pos + span(bit_off, width) <= s.len(),
    ensures
        ({
            let s2 = field_store(s, pos, bit_off, width, e, v);
            let t = trailing(bit_off, width);
            &&& s2.len() == s.len()
            &&& forall|i: int| 0 <= i < s.len() && !(pos <= i < pos + span(bit_off, width)) ==> s2[i] == s[i]
            &&& window_nat(s2, pos, bit_off, width) % pow2(t) == window_nat(s, pos, bit_off, width) % pow2(t)
            &&& window_nat(s2, pos, bit_off, width) / pow2(t + width) == window_nat(s, pos, bit_off, width)
                / pow2(t + width)
        }),
{
    let n = span(bit_off, width);
    let t = trailing(bit_off, width);
    let vm = v % pow2(width);
    lemma_pow2_pos(width);
    lemma_mod_bound(v as int, pow2(width) as int);
    lemma_decode_encode(e, width, vm);
    let r = encode(e, width, vm);
    let w = window_nat(s, pos, bit_off, width);
    lemma_be_nat_bound(window(s, pos, bit_off, width));
    lemma_splice(w, t, width, r, n);
    let w2 = stored_window(s, pos, bit_off, width, e, v);
    let s2 = field_store(s, pos, bit_off, width, e, v);
    assert(window(s2, pos, bit_off, width) =~= be_bytes(w2, n));
    lemma_be_bytes_round(w2, n);
}


proof fn lemma_pow2_le72(k: nat)
    requires
        k <= 72,
    ensures
        0 < pow2(k) <= 0x1000000000000000000,
{
    lemma2_to64();
    lemma_pow2_adds(64, 8);
    lemma_pow2_pos(k);
    if k < 72 {
        lemma_pow2_strictly_increases(k, 72);
    }
}

/// 2^k as a machine integer.
fn pow2_exec(k: u32) -> (r: u128)
    requires
        k <= 72,
    ensures
        r as nat == pow2(k as nat),
        r > 0,
{
    let mut p: u128 = 1;
    let mut i: u32 = 0;
    proof {
        lemma2_to64();
    }
    while i < k
        invariant
            i <= k <= 72,
            p as nat == pow2(i as nat),
            p > 0,
        decreases k - i,
    {
        proof {
            lemma_pow2_unfold((i + 1) as nat);
            lemma_pow2_pos((i + 1) as nat);
            lemma_pow2_le72((i + 1) as nat);
        }
        p = p * 2;
        i = i + 1;
    }
    p
}

/// Reads the window of a field as one big-endian number.
fn read_window(buf: &[u8], pos: usize, bit_off: u8, width: u8) -> (r: u128)
    requires
        valid_field(bit_off as nat, width as nat),
    ensures
        r as nat == window_nat(buf@, pos as int, bit_off as nat, width as nat),
        r < pow2(8 * span(bit_off as nat, width as nat)),
{
    let n: usize = (bit_off as usize + width as usize + 7) / 8;
    let ghost win = window(buf@, pos as int, bit_off as nat, width as nat);
    let mut acc: u128 = 0;
    let mut j: usize = 0;
    while j < n
        invariant
            j <= n,
            n == span(bit_off as nat, width as nat),
            n <= 9,
            win == window(buf@, pos as int, bit_off as nat, width as nat),
            acc as nat == be_nat(win.subrange(0, j as int)),
        decreases n - j,
    {
        let b: u8 = if pos < buf.len() && j < buf.len() - pos {
            buf[pos + j]
        } else {
            0
        };
        proof {
            assert(b == win[j as int]);
            assert(win.subrange(0, j + 1).drop_last() =~= win.subrange(0, j as int));
            lemma_be_nat_bound(win.subrange(0, j as int));
            lemma_pow2_le72(8 * j as nat);
        }
        acc = acc * 256 + b as u128;
        j = j + 1;
    }
    proof {
        assert(win.subrange(0, n as int) =~= win);
        lemma_be_nat_bound(win);
    }
    acc
}

/// Little-endian decoding of stored bits, as `swap_le` states it.
fn swap_exec(v: u128, width: u8) -> (r: u128)
    requires
        1 <= width <= 64,
        v < pow2(width as nat),
    ensures
        r as nat == swap_le(v as nat, width as nat),
        r < pow2(width as nat),
{
    let mut res: u128 = 0;
    let mut cur: u128 = v;
    let mut rw: u8 = width;
    proof {
        lemma_pow2_le72(width as nat);
        lemma2_to64();
    }
    while rw > 8
        invariant
            rw <= width <= 64,
            swap_le(v as nat, width as nat) == res + swap_le(cur as nat, rw as nat),
            cur < pow2(rw as nat),
            res + pow2(rw as nat) <= pow2(width as nat),
            pow2(width as nat) <= 0x1000000000000000000,
            pow2(8) == 256,
        decreases rw,
    {
        let k: u8 = rw - 8;
        let pk = pow2_exec(k as u32);
        proof {
            lemma_pow2_adds(k as nat, 8);
            assert(rw as nat == k as nat + 8);
            let c = cur as nat;
            let b = pow2(k as nat);
            lemma_fundamental_div_mod(c as int, 256);
            assert(c / 256 < b) by (nonlinear_arith)
                requires
                    c == 256 * (c / 256) + c % 256,
                    c % 256 >= 0,
                    c < b * 256,
            ;
            assert((c % 256) * b + b <= b * 256) by (nonlinear_arith)
                requires
                    c % 256 < 256,
            ;
        }
        res = res + (cur % 256) * pk;
        cur = cur / 256;
        rw = k;
    }
    proof {
        lemma_swap_bound(v as nat, width as nat);
    }
    res + cur
}

/// Little-endian encoding of a value, as `unswap_le` states it.
fn unswap_exec(v: u128, width: u8) -> (r: u128)
    requires
        1 <= width <= 64,
        v < pow2(width as nat),
    ensures
        r as nat == unswap_le(v as nat, width as nat),
        r < pow2(width as nat),
{
    let mut res: u128 = 0;
    let mut mult: u128 = 1;
    let mut cur: u128 = v;
    let mut rw: u8 = width;
    proof {
        lemma_pow2_le72(width as nat);
        lemma2_to64();
        lemma_unswap_round(v as nat, width as nat);
    }
    while rw > 8
        invariant
            rw <= width <= 64,
            unswap_le(v as nat, width as nat) == res + mult * unswap_le(cur as nat, rw as nat),
            mult as nat == pow2((width - rw) as nat),
            res < mult,
            cur < pow2(rw as nat),
            pow2(8) == 256,
        decreases rw,
    {
        let k: u8 = rw - 8;
        let pk = pow2_exec(k as u32);
        proof {
            lemma_pow2_adds(k as nat, 8);
            assert(rw as nat == k as nat + 8);
            lemma_pow2_pos(k as nat);
            let c = cur as nat;
            let b = pow2(k as nat);
            lemma_fundamental_div_mod(c as int, b as int);
            assert(c / b < 256) by (nonlinear_arith)
                requires
                    c == b * (c / b) + c % b,
                    c % b >= 0,
                    c < b * 256,
                    b > 0,
            ;
            lemma_mod_bound(c as int, b as int);
            lemma_pow2_adds((width - rw) as nat, 8);
            assert((width - k) as nat == (width - rw) as nat + 8);
            lemma_pow2_le72((width - k) as nat);
            let m = mult as nat;
            let u = unswap_le((c % b) as nat, k as nat);
            let h = c / b;
            let rs = res as nat;
            assert(rs + m * (h + 256 * u) == (rs + m * h) + (m * 256) * u) by (nonlinear_arith);
            assert(rs + m * h < m * 256) by (nonlinear_arith)
                requires
                    rs < m,
                    h < 256,
            ;
        }
        res = res + mult * (cur / pk);
        mult = mult * 256;
        cur = cur % pk;
        rw = k;
    }
    proof {
        let m = mult as nat;
        let whole = unswap_le(v as nat, width as nat);
        assert(whole == res + m * cur);
        assert(m * cur <= whole) by (nonlinear_arith)
            requires
                whole == res + m * cur,
                res >= 0,
        ;
    }
    res + mult * cur
}

/// Reads a field: `width` bits starting `bit_off` bits into byte `pos`.
pub fn read_field(buf: &[u8], pos: usize, bit_off: u8, width: u8, e: Endianness) -> (r: u64)
    requires
        valid_field(bit_off as nat, width as nat),
    ensures
        r as nat == field_value(buf@, pos as int, bit_off as nat, width as nat, e),
{
    let n: u32 = (bit_off as u32 + width as u32 + 7) / 8;
    let t: u32 = 8 * n - bit_off as u32 - width as u32;
    let w = read_window(buf, pos, bit_off, width);
    let pt = pow2_exec(t);
    let pw = pow2_exec(width as u32);
    let raw = (w / pt) % pw;
    proof {
        lemma_mod_bound((w / pt) as int, pw as int);
        lemma_decode_bound(e, width as nat, raw as nat);
        lemma2_to64();
        lemma_pow2_le72(width as nat);
        if width < 64 {
            lemma_pow2_strictly_increases(width as nat, 64);
        }
    }
    let value = match e {
        Endianness::Big => raw,
        _ => swap_exec(raw, width),
    };
    value as u64
}

/// Writes `v`, taken modulo 2^width, into a field, keeping every other bit
/// of the buffer.
pub fn write_field(buf: &mut [u8], pos: usize, bit_off: u8, width: u8, e: Endianness, v: u64)
    requires
        valid_field(bit_off as nat, width as nat),
    ensures
        final(buf)@ == field_store(old(buf)@, pos as int, bit_off as nat, width as nat, e, v as nat),
{
    let n: u32 = (bit_off as u32 + width as u32 + 7) / 8;
    let t: u32 = 8 * n - bit_off as u32 - width as u32;
    let w = read_window(buf, pos, bit_off, width);
    let pt = pow2_exec(t);
    let pw = pow2_exec(width as u32);
    let ptw = pow2_exec(t + width as u32);
    let vm = (v as u128) % pw;
    proof {
        lemma_pow2_pos(width as nat);
        lemma_mod_bound(v as int, pw as int);
        lemma_decode_encode(e, width as nat, vm as nat);
    }
    let r = match e {
        Endianness::Big => vm,
        _ => unswap_exec(vm, width),
    };
    let ghost nn = span(bit_off as nat, width as nat);
    proof {
        lemma_splice(w as nat, t as nat, width as nat, r as nat, nn);
        lemma_pow2_le72(8 * nn);
        lemma_pow2_pos(t as nat);
        lemma_pow2_pos((t + width) as nat);
        let hi = w as nat / ptw as nat;
        assert(hi * ptw <= hi * ptw + r * pt) by (nonlinear_arith);
    }
    let w2: u128 = (w / ptw) * ptw + r * pt + w % pt;
    let ghost s0 = buf@;
    let ghost n9 = n as nat;
    let mut cur: u128 = w2;
    let mut j: u32 = n;
    proof {
        lemma2_to64();
        assert(w2 / 1 == w2);
    }
    while j > 0
        invariant
            j <= n,
            n as nat == nn,
            buf@.len() == s0.len(),
            cur as nat == w2 as nat / pow2((8 * (n - j)) as nat),
            forall|i: int|
                0 <= i < s0.len() ==> #[trigger] buf@[i] == if pos + j <= i < pos + n {
                    byte_of(w2 as nat, nn, i - pos)
                } else {
                    s0[i]
                },
        decreases j,
    {
        j = j - 1;
        proof {
            let e8 = (8 * (n - 1 - j)) as nat;
            lemma_pow2_adds(e8, 8);
            assert((8 * (n - j)) as nat == e8 + 8);
            lemma_pow2_pos(e8);
            lemma2_to64();
            lemma_div_denominator(w2 as int, pow2(e8) as int, 256);
        }
        if pos < buf.len() && (j as usize) < buf.len() - pos {
            buf[pos + j as usize] = (cur % 256) as u8;
        }
        cur = cur / 256;
    }
    proof {
        assert(buf@ =~= field_store(s0, pos as int, bit_off as nat, width as nat, e, v as nat));
    }
}


/// A field's value fits in its width.
pub proof fn lemma_value_bound(s: Seq<u8>, pos: int, bit_off: nat, width: nat, e: Endianness)
    requires
        valid_field(bit_off, width),
    ensures
        field_value(s, pos, bit_off, width, e) < pow2(width),
{
    lemma_pow2_pos(width);
    lemma_mod_bound((window_nat(s, pos, bit_off, width) / pow2(trailing(bit_off, width))) as int, pow2(width) as int);
    lemma_decode_bound(e, width, raw_bits(s, pos, bit_off, width));
}

} // verus!
