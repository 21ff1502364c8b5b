//! Reading and writing the fields of a packet in a buffer, and the two
//! views over a buffer: read-only and read-write.
use crate::bits::{field_store, field_value, read_field, write_field, Endianness};
use crate::expr::{LengthFunctions, NoCalls};
use crate::layout::{
    arg_list, arg_types, lemma_fixed_bits_mono, lemma_walk_len, args_width, clip_exec, field_pos, fixed_bits, layout_ok, length_of, payload_field,
    min_size, packet_size_of, payload_from, payload_of, pos_of, prim_ok, walk, Layout,
};
use crate::schema::Field;
use crate::types::Type;
use vstd::prelude::*;
use vstd::slice::{slice_subrange, slice_to_vec};

verus! {

/// The value of field `k`: its number for a primitive field, zero for
/// other fields.
pub open spec fn value_of<F: LengthFunctions>(fs: Seq<Field>, c: F, s: Seq<u8>, k: int) -> u64 {
    walk(fs, c, s, k + 1).vals[k]
}

/// The bytes of variable-length field `k`, clipped to the buffer; empty for
/// other fields.
pub open spec fn region_of<F: LengthFunctions>(fs: Seq<Field>, c: F, s: Seq<u8>, k: int) -> Seq<u8> {
    walk(fs, c, s, k + 1).regions[k]
}

/// The byte length that field `k`'s expression gives in `s`.
pub open spec fn declared_len<F: LengthFunctions>(fs: Seq<Field>, c: F, s: Seq<u8>, k: int) -> nat {
    length_of(fs[k], walk(fs, c, s, k), c)
}

/// `s` after storing `v` in primitive field `k`; unchanged for other fields.
pub open spec fn store_value<F: LengthFunctions>(fs: Seq<Field>, c: F, s: Seq<u8>, k: int, v: u64) -> Seq<u8> {
    match fs[k].ty {
        Type::Primitive(_, w, e) => field_store(s, field_pos(fs, c, s, k) as int, fixed_bits(fs, k) % 8, w as nat, e, v as nat),
        _ => s,
    }
}

/// `s` with `vals` copied in at byte `pos`.
pub open spec fn store_bytes(s: Seq<u8>, pos: int, vals: Seq<u8>) -> Seq<u8> {
    Seq::new(s.len(), |i: int| if pos <= i < pos + vals.len() { vals[i - pos] } else { s[i] })
}

/// Bit position of argument `a` of semantic field `k`.
pub open spec fn arg_bits(fs: Seq<Field>, k: int, a: int) -> nat {
    fixed_bits(fs, k) + args_width(arg_types(fs[k]), a)
}

/// The value of argument `a` of semantic field `k`.
pub open spec fn arg_value<F: LengthFunctions>(fs: Seq<Field>, c: F, s: Seq<u8>, k: int, a: int) -> u64 {
    let bits = arg_bits(fs, k, a);
    match arg_types(fs[k])[a] {
        Type::Primitive(_, w, e) => field_value(
            s,
            pos_of(bits, walk(fs, c, s, k).var) as int,
            bits % 8,
            w as nat,
            e,
        ) as u64,
        _ => 0,
    }
}

/// `s` after storing the first `n` of `vals` in the arguments of semantic
/// field `k`, each at the position it has in `s0`.
pub open spec fn store_args<F: LengthFunctions>(fs: Seq<Field>, c: F, s0: Seq<u8>, s: Seq<u8>, k: int, vals: Seq<u64>, n: int) -> Seq<u8>
    decreases n,
{
    if n <= 0 {
        s
    } else {
        let prev = store_args(fs, c, s0, s, k, vals, n - 1);
        let bits = arg_bits(fs, k, n - 1);
        match arg_types(fs[k])[n - 1] {
            Type::Primitive(_, w, e) => field_store(
                prev,
                pos_of(bits, walk(fs, c, s0, k).var) as int,
                bits % 8,
                w as nat,
                e,
                vals[n - 1] as nat,
            ),
            _ => prev,
        }
    }
}

/// Position of field `k` and the length its expression gives.
fn pos_and_len<F: LengthFunctions>(layout: &Layout<F>, s: &[u8], k: usize) -> (r: (usize, u64))
    requires
        layout.wf(),
        k < layout.fields().len(),
    ensures
        r.0 as nat == field_pos(layout.fields(), layout.calls(), s@, k as int),
        r.1 as nat == declared_len(layout.fields(), layout.calls(), s@, k as int),
{
    let st = layout.walk_to(s, k);
    let bits = layout.fixed_bits_before(k);
    let p = (bits / 8) as u128 + st.var as u128;
    let pos: usize = if p > usize::MAX as u128 {
        usize::MAX
    } else {
        p as usize
    };
    let len: u64 = match &layout.packet.fields[k].packet_length {
        Some(e) => crate::expr::eval_expr(e, &st.vals, &st.regions, &layout.funcs),
        None => 0,
    };
    (pos, len)
}

/// The value of field `k`: its number for a primitive field, zero for
/// other fields.
pub fn get_value<F: LengthFunctions>(layout: &Layout<F>, s: &[u8], k: usize) -> (r: u64)
    requires
        layout.wf(),
        k < layout.fields().len(),
    ensures
        r == value_of(layout.fields(), layout.calls(), s@, k as int),
{
    let n = layout.packet.fields.len();
    proof {
        lemma_walk_len(layout.fields(), layout.calls(), s@, k + 1);
    }
    let st = layout.walk_to(s, k + 1);
    st.vals[k]
}

/// The bytes of variable-length field `k`, clipped to the buffer; empty for
/// other fields.
pub fn get_region<'a, F: LengthFunctions>(layout: &Layout<F>, s: &'a [u8], k: usize) -> (r: &'a [u8])
    requires
        layout.wf(),
        k < layout.fields().len(),
    ensures
        r@ == region_of(layout.fields(), layout.calls(), s@, k as int),
{
    let (pos, len) = pos_and_len(layout, s, k);
    let f = &layout.packet.fields[k];
    proof {
        lemma_walk_len(layout.fields(), layout.calls(), s@, k as int);
    }
    match &f.ty {
        Type::Vector(_) => clip_exec(s, pos, f.packet_length.is_some(), len),
        _ => slice_subrange(s, 0, 0),
    }
}

/// The values of the arguments of semantic field `k`, in order.
pub fn get_args<F: LengthFunctions>(layout: &Layout<F>, s: &[u8], k: usize) -> (r: Vec<u64>)
    requires
        layout.wf(),
        k < layout.fields().len(),
    ensures
        r@.len() == arg_types(layout.fields()[k as int]).len(),
        forall|a: int| 0 <= a < r@.len() ==> r@[a] == arg_value(layout.fields(), layout.calls(), s@, k as int, a),
{
    let ghost fs = layout.fields();
    let ghost c = layout.calls();
    let st = layout.walk_to(s, k);
    let mut bits = layout.fixed_bits_before(k);
    let f = &layout.packet.fields[k];
    let args = arg_list(f);
    let mut out: Vec<u64> = Vec::new();
    let mut a: usize = 0;
    proof {
        lemma_args_bound(fs, k as int);
    }
    while a < args.len()
        invariant
            fs == layout.fields(),
            c == layout.calls(),
            layout_ok(fs),
            k < fs.len(),
            args@ == arg_types(fs[k as int]),
            a <= args@.len(),
            out@.len() == a,
            bits as nat == arg_bits(fs, k as int, a as int),
            fixed_bits(fs, k as int) + args_width(args@, args@.len() as int) <= u32::MAX,
            st.matches(walk(fs, c, s@, k as int)),
            forall|x: int| 0 <= x < a ==> out@[x] == arg_value(fs, c, s@, k as int, x),
        decreases args.len() - a,
    {
        proof {
            lemma_args_width_mono(args@, a + 1, args@.len() as int);
            assert(prim_ok(arg_types(fs[k as int])[a as int]));
        }
        let p = (bits / 8) as u128 + st.var as u128;
        let pos: usize = if p > usize::MAX as u128 {
            usize::MAX
        } else {
            p as usize
        };
        let (v, w) = match &args[a] {
            Type::Primitive(_, w, e) => (read_field(s, pos, (bits % 8) as u8, *w as u8, *e), *w),
            _ => (0, 0),
        };
        out.push(v);
        bits = bits + w;
        a = a + 1;
    }
    out
}

proof fn lemma_args_width_mono(ts: Seq<Type>, j: int, k: int)
    requires
        0 <= j <= k,
    ensures
        args_width(ts, j) <= args_width(ts, k),
    decreases k - j,
{
    if j < k {
        lemma_args_width_mono(ts, j, k - 1);
    }
}

proof fn lemma_args_bound(fs: Seq<Field>, k: int)
    requires
        layout_ok(fs),
        0 <= k < fs.len(),
    ensures
        fixed_bits(fs, k) + args_width(arg_types(fs[k]), arg_types(fs[k]).len() as int)
            <= u32::MAX,
{
    lemma_fixed_bits_mono(fs, k + 1, fs.len() as int);
}

/// The payload window, as `payload_of` states it.
pub fn get_payload<'a, F: LengthFunctions>(layout: &Layout<F>, s: &'a [u8]) -> (r: &'a [u8])
    requires
        layout.wf(),
    ensures
        r@ == payload_of(layout.fields(), layout.calls(), s@),
{
    let ghost fs = layout.fields();
    let ghost c = layout.calls();
    let mut k: usize = 0;
    while k < layout.packet.fields.len()
        invariant
            k <= fs.len(),
            fs == layout.fields(),
            c == layout.calls(),
            layout.wf(),
            payload_field(fs) == payload_from(fs, k as int),
        decreases fs.len() - k,
    {
        if layout.packet.fields[k].is_payload {
            let (lower, len) = pos_and_len(layout, s, k);
            if s.len() <= lower {
                return slice_subrange(s, 0, 0);
            }
            return clip_exec(s, lower, layout.packet.fields[k].packet_length.is_some(), len);
        }
        k = k + 1;
    }
    slice_subrange(s, 0, 0)
}


/// Stores `v` in primitive field `k`, as `store_value` states it; other
/// fields are left alone.
pub fn set_value<F: LengthFunctions>(layout: &Layout<F>, s: &mut [u8], k: usize, v: u64)
    requires
        layout.wf(),
        k < layout.fields().len(),
    ensures
        final(s)@ == store_value(layout.fields(), layout.calls(), old(s)@, k as int, v),
{
    let (pos, _) = pos_and_len(layout, s, k);
    let bits = layout.fixed_bits_before(k);
    proof {
        assert(prim_ok(layout.fields()[k as int].ty));
    }
    match &layout.packet.fields[k].ty {
        Type::Primitive(_, w, e) => write_field(s, pos, (bits % 8) as u8, *w as u8, *e, v),
        _ => {},
    }
}

/// Copies `vals` into variable-length field `k`, from its first byte on.
/// The bytes must fit both the buffer and the field's declared length.
pub fn set_region<F: LengthFunctions>(layout: &Layout<F>, s: &mut [u8], k: usize, vals: &[u8])
    requires
        layout.wf(),
        k < layout.fields().len(),
        layout.fields()[k as int].ty is Vector,
        layout.fields()[k as int].packet_length is Some ==> vals@.len() <= declared_len(
            layout.fields(), layout.calls(),
            old(s)@,
            k as int,
        ),
        field_pos(layout.fields(), layout.calls(), old(s)@, k as int) + vals@.len() <= old(s)@.len(),
    ensures
        final(s)@ == store_bytes(old(s)@, field_pos(layout.fields(), layout.calls(), old(s)@, k as int) as int, vals@),
{
    let (pos, _) = pos_and_len(layout, s, k);
    let ghost s0 = s@;
    let len = s.len();
    let mut i: usize = 0;
    while i < vals.len()
        invariant
            len == s0.len(),
            i <= vals@.len(),
            pos + vals@.len() <= s0.len(),
            s@.len() == s0.len(),
            forall|j: int|
                0 <= j < s0.len() ==> #[trigger] s@[j] == if pos <= j < pos + i {
                    vals@[j - pos]
                } else {
                    s0[j]
                },
        decreases vals.len() - i,
    {
        s[pos + i] = vals[i];
        i = i + 1;
    }
    proof {
        assert(s@ =~= store_bytes(s0, pos as int, vals@));
    }
}

/// Stores `vals` in the arguments of semantic field `k`, in order, each
/// at the position it had before the call.
pub fn set_args<F: LengthFunctions>(layout: &Layout<F>, s: &mut [u8], k: usize, vals: &[u64])
    requires
        layout.wf(),
        k < layout.fields().len(),
        vals@.len() == arg_types(layout.fields()[k as int]).len(),
    ensures
        final(s)@ == store_args(
            layout.fields(), layout.calls(),
            old(s)@,
            old(s)@,
            k as int,
            vals@,
            vals@.len() as int,
        ),
{
    let ghost fs = layout.fields();
    let ghost c = layout.calls();
    let ghost s0 = s@;
    let st = layout.walk_to(s, k);
    let mut bits = layout.fixed_bits_before(k);
    let args = arg_list(&layout.packet.fields[k]);
    let mut a: usize = 0;
    proof {
        lemma_args_bound(fs, k as int);
    }
    while a < args.len()
        invariant
            fs == layout.fields(),
            c == layout.calls(),
            layout_ok(fs),
            k < fs.len(),
            args@ == arg_types(fs[k as int]),
            vals@.len() == args@.len(),
            a <= args@.len(),
            bits as nat == arg_bits(fs, k as int, a as int),
            fixed_bits(fs, k as int) + args_width(args@, args@.len() as int) <= u32::MAX,
            st.matches(walk(fs, c, s0, k as int)),
            s@ == store_args(fs, c, s0, s0, k as int, vals@, a as int),
        decreases args.len() - a,
    {
        proof {
            lemma_args_width_mono(args@, a + 1, args@.len() as int);
            assert(prim_ok(arg_types(fs[k as int])[a as int]));
        }
        let p = (bits / 8) as u128 + st.var as u128;
        let pos: usize = if p > usize::MAX as u128 {
            usize::MAX
        } else {
            p as usize
        };
        let w = match &args[a] {
            Type::Primitive(_, w, e) => {
                write_field(s, pos, (bits % 8) as u8, *w as u8, *e, vals[a]);
                *w
            },
            _ => 0,
        };
        bits = bits + w;
        a = a + 1;
    }
}

/// Elements of a container of primitives: the field's bytes cut into
/// whole elements, each read in the element's byte order.
pub open spec fn elements_of<F: LengthFunctions>(fs: Seq<Field>, c: F, s: Seq<u8>, k: int) -> Seq<u64> {
    let region = region_of(fs, c, s, k);
    match fs[k].ty {
        Type::Vector(inner) => match *inner {
            Type::Primitive(_, w, e) => {
                let eb = (w / 8) as nat;
                Seq::new(region.len() / eb, |j: int| field_value(region, j * eb, 0, w as nat, e) as u64)
            },
            _ => Seq::empty(),
        },
        _ => Seq::empty(),
    }
}

/// The elements of container field `k` (copied), as `elements_of` states.
pub fn get_elements<F: LengthFunctions>(layout: &Layout<F>, s: &[u8], k: usize) -> (r: Vec<u64>)
    requires
        layout.wf(),
        k < layout.fields().len(),
    ensures
        r@ == elements_of(layout.fields(), layout.calls(), s@, k as int),
{
    let region = get_region(layout, s, k);
    let mut out: Vec<u64> = Vec::new();
    proof {
        assert(crate::layout::elem_ok(layout.fields()[k as int].ty));
    }
    match &layout.packet.fields[k].ty {
        Type::Vector(inner) => match &**inner {
            Type::Primitive(_, w, e) => {
                let eb: usize = *w / 8;
                let rl = region.len();
                let n = rl / eb;
                let mut j: usize = 0;
                while j < n
                    invariant
                        8 <= *w <= 64,
                        eb == *w / 8,
                        rl == region@.len(),
                        n == region@.len() / (eb as nat),
                        j <= n,
                        out@.len() == j,
                        forall|x: int|
                            0 <= x < j ==> out@[x] == field_value(region@, x * eb, 0, *w as nat, *e) as u64,
                    decreases n - j,
                {
                    proof {
                        assert(j * eb <= n * eb) by (nonlinear_arith)
                            requires
                                j <= n,
                        ;
                        assert(n * eb <= region@.len()) by (nonlinear_arith)
                            requires
                                n == region@.len() / (eb as nat),
                                eb > 0,
                        ;
                    }
                    let v = read_field(region, j * eb, 0, *w as u8, *e);
                    out.push(v);
                    j = j + 1;
                }
                proof {
                    assert(out@ =~= elements_of(layout.fields(), layout.calls(), s@, k as int));
                }
                out
            },
            _ => out,
        },
        _ => out,
    }
}


/// Width and byte order of the elements of a container of primitives;
/// zero width otherwise.
pub open spec fn elem_of(f: Field) -> (nat, Endianness) {
    match f.ty {
        Type::Vector(inner) => match *inner {
            Type::Primitive(_, w, e) => (w as nat, e),
            _ => (0, Endianness::Big),
        },
        _ => (0, Endianness::Big),
    }
}

/// `s` after storing the first `n` of `vals` as elements of width `w` and
/// order `e` from byte `pos` on, one after the other.
pub open spec fn store_elements(s: Seq<u8>, pos: int, w: nat, e: Endianness, vals: Seq<u64>, n: int) -> Seq<u8>
    decreases n,
{
    if n <= 0 {
        s
    } else {
        field_store(store_elements(s, pos, w, e, vals, n - 1), pos + (n - 1) * (w / 8) as int, 0, w, e, vals[n - 1] as nat)
    }
}

/// Stores `vals` as the elements of container field `k`, whose elements are
/// primitives. They must fit the buffer and the field's declared length.
pub fn set_elements<F: LengthFunctions>(layout: &Layout<F>, s: &mut [u8], k: usize, vals: &[u64])
    requires
        layout.wf(),
        k < layout.fields().len(),
        elem_of(layout.fields()[k as int]).0 > 0,
        layout.fields()[k as int].packet_length is Some ==> vals@.len() * (elem_of(layout.fields()[k as int]).0
            / 8) <= declared_len(layout.fields(), layout.calls(), old(s)@, k as int),
        field_pos(layout.fields(), layout.calls(), old(s)@, k as int) + vals@.len() * (elem_of(layout.fields()[k as int]).0 / 8)
            <= old(s)@.len(),
    ensures
        final(s)@ == store_elements(
            old(s)@,
            field_pos(layout.fields(), layout.calls(), old(s)@, k as int) as int,
            elem_of(layout.fields()[k as int]).0,
            elem_of(layout.fields()[k as int]).1,
            vals@,
            vals@.len() as int,
        ),
{
    let ghost fs = layout.fields();
    let ghost c = layout.calls();
    let ghost s0 = s@;
    let (pos, _) = pos_and_len(layout, s, k);
    proof {
        assert(crate::layout::elem_ok(fs[k as int].ty));
    }
    let (w, e) = match &layout.packet.fields[k].ty {
        Type::Vector(inner) => match &**inner {
            Type::Primitive(_, w, e) => (*w, *e),
            _ => (0, Endianness::Big),
        },
        _ => (0, Endianness::Big),
    };
    let eb: usize = w / 8;
    let sl = s.len();
    let mut j: usize = 0;
    let mut at: usize = pos;
    while j < vals.len()
        invariant
            s0 == old(s)@,
            sl == s0.len(),
            8 <= w <= 64,
            eb == w / 8,
            (w as nat, e) == elem_of(fs[k as int]),
            j <= vals@.len(),
            at == pos + j * eb,
            pos + vals@.len() * eb <= s0.len(),
            s@ == store_elements(s0, pos as int, w as nat, e, vals@, j as int),
        decreases vals@.len() - j,
    {
        proof {
            assert((j + 1) * eb <= vals@.len() * eb) by (nonlinear_arith)
                requires
                    j < vals@.len(),
            ;
            assert((j + 1) * eb == j * eb + eb) by (nonlinear_arith);
        }
        write_field(s, at, 0, w as u8, e, vals[j]);
        at = at + eb;
        j = j + 1;
    }
}

/// Size of the packet in `s`, as `packet_size_of` states it.
pub fn get_packet_size<F: LengthFunctions>(layout: &Layout<F>, s: &[u8]) -> (r: usize)
    requires
        layout.wf(),
    ensures
        r as nat == packet_size_of(layout.fields(), layout.calls(), s@),
{
    let n = layout.packet.fields.len();
    let st = layout.walk_to(s, n);
    let bits = layout.fixed_bits_before(n);
    let p = (bits / 8) as u128 + st.var as u128;
    if p > usize::MAX as u128 {
        usize::MAX
    } else {
        p as usize
    }
}

/// The payload is empty when the buffer ends at or before the payload's
/// first byte; when the declared end lies past the buffer, it runs exactly
/// to the buffer's end; it never holds more than the buffer.
pub proof fn lemma_payload_clipped<F: LengthFunctions>(fs: Seq<Field>, c: F, s: Seq<u8>)
    ensures
        payload_of(fs, c, s).len() <= s.len(),
        payload_field(fs) matches Some(k) ==> {
            let lower = field_pos(fs, c, s, k);
            let upper = lower + declared_len(fs, c, s, k);
            &&& s.len() <= lower ==> payload_of(fs, c, s) == Seq::<u8>::empty()
            &&& (lower < s.len() && (fs[k].packet_length is None || upper >= s.len())) ==> payload_of(fs, c, s)
                == s.subrange(lower as int, s.len() as int)
            &&& (lower < s.len() && fs[k].packet_length is Some && upper < s.len()) ==> payload_of(fs, c, s)
                == s.subrange(lower as int, upper as int)
        },
{
}

/// The minimum size is the fixed width rounded up to whole bytes: it
/// holds every fixed bit, and one byte less would not.
pub proof fn lemma_minimum_size_is_ceiling(fs: Seq<Field>)
    ensures
        min_size(fs) * 8 >= fixed_bits(fs, fs.len() as int),
        min_size(fs) == 0 || (min_size(fs) - 1) * 8 < fixed_bits(fs, fs.len() as int),
{
    let w = fixed_bits(fs, fs.len() as int);
    let m = min_size(fs);
    assert(m * 8 >= w && (m == 0 || (m - 1) * 8 < w)) by (nonlinear_arith)
        requires
            m == (w + 7) / 8,
    ;
}

/// The value of one field, as `populate` writes it: a number for a
/// primitive field, the argument values of a semantic field, the bytes of
/// a variable-length field.
#[derive(Debug)]
pub enum FieldValue {
    Number(u64),
    Args(Vec<u64>),
    Bytes(Vec<u8>),
}

/// Whether `vals` fit variable-length field `k` of `s`: within the buffer,
/// and within the declared length when there is one.
pub open spec fn bytes_fit<F: LengthFunctions>(fs: Seq<Field>, c: F, s: Seq<u8>, k: int, vals: Seq<u8>) -> bool {
    &&& fs[k].packet_length is Some ==> vals.len() <= declared_len(fs, c, s, k)
    &&& field_pos(fs, c, s, k) + vals.len() <= s.len()
}

/// `s` after writing value `v` into field `k`, or `None` when the value
/// does not suit the field or does not fit.
pub open spec fn store_field<F: LengthFunctions>(fs: Seq<Field>, c: F, s: Seq<u8>, k: int, v: FieldValue) -> Option<Seq<u8>> {
    match (fs[k].ty, v) {
        (Type::Primitive(_, _, _), FieldValue::Number(n)) => Some(store_value(fs, c, s, k, n)),
        (Type::Misc(_), FieldValue::Args(a)) => if a@.len() == arg_types(fs[k]).len() {
            Some(store_args(fs, c, s, s, k, a@, a@.len() as int))
        } else {
            None
        },
        (Type::Vector(_), FieldValue::Bytes(b)) => if bytes_fit(fs, c, s, k, b@) {
            Some(store_bytes(s, field_pos(fs, c, s, k) as int, b@))
        } else {
            None
        },
        _ => None,
    }
}

/// `s` after writing the first `n` of `vals` in field order, each into
/// the buffer as the writes before it left it.
pub open spec fn populated<F: LengthFunctions>(fs: Seq<Field>, c: F, s: Seq<u8>, vals: Seq<FieldValue>, n: int) -> Option<Seq<u8>>
    decreases n,
{
    if n <= 0 {
        Some(s)
    } else {
        match populated(fs, c, s, vals, n - 1) {
            Some(t) => store_field(fs, c, t, n - 1, vals[n - 1]),
            None => None,
        }
    }
}

/// Writes one field value, as `store_field` states; false, with the
/// buffer untouched, when it does not suit or fit.
pub fn set_field<F: LengthFunctions>(layout: &Layout<F>, s: &mut [u8], k: usize, v: &FieldValue) -> (r: bool)
    requires
        layout.wf(),
        k < layout.fields().len(),
    ensures
        r == store_field(layout.fields(), layout.calls(), old(s)@, k as int, *v) is Some,
        r ==> final(s)@ == store_field(layout.fields(), layout.calls(), old(s)@, k as int, *v)->0,
        !r ==> final(s)@ == old(s)@,
{
    let f = &layout.packet.fields[k];
    match (&f.ty, v) {
        (Type::Primitive(_, _, _), FieldValue::Number(n)) => {
            set_value(layout, s, k, *n);
            true
        },
        (Type::Misc(_), FieldValue::Args(a)) => {
            if a.len() == arg_list(f).len() {
                set_args(layout, s, k, a.as_slice());
                true
            } else {
                false
            }
        },
        (Type::Vector(_), FieldValue::Bytes(b)) => {
            let (pos, len) = pos_and_len(layout, s, k);
            let fits_len = f.packet_length.is_none() || (b.len() as u64) <= len;
            if fits_len && pos <= s.len() && b.len() <= s.len() - pos {
                set_region(layout, s, k, b.as_slice());
                true
            } else {
                false
            }
        },
        _ => false,
    }
}

/// Writes `vals` into the fields in declared order, as `populated`
/// states; stops with false at the first value that does not suit or fit
/// its field (the fields before it stay written).
pub fn populate<F: LengthFunctions>(layout: &Layout<F>, s: &mut [u8], vals: &Vec<FieldValue>) -> (r: bool)
    requires
        layout.wf(),
        vals@.len() == layout.fields().len(),
    ensures
        r == populated(layout.fields(), layout.calls(), old(s)@, vals@, vals@.len() as int) is Some,
        r ==> final(s)@ == populated(layout.fields(), layout.calls(), old(s)@, vals@, vals@.len() as int)->0,
{
    let ghost s0 = s@;
    let mut k: usize = 0;
    while k < vals.len()
        invariant
            layout.wf(),
            vals@.len() == layout.fields().len(),
            k <= vals@.len(),
            s0 == old(s)@,
            populated(layout.fields(), layout.calls(), s0, vals@, k as int) == Some(s@),
        decreases vals@.len() - k,
    {
        let ghost before = s@;
        let ok = set_field(layout, s, k, &vals[k]);
        proof {
            assert(populated(layout.fields(), layout.calls(), s0, vals@, k as int + 1) == store_field(
                layout.fields(), layout.calls(),
                before,
                k as int,
                vals@[k as int],
            ));
        }
        if !ok {
            proof {
                lemma_populated_stops(layout.fields(), layout.calls(), s0, vals@, k as int + 1, vals@.len() as int);
            }
            return false;
        }
        k = k + 1;
    }
    true
}

proof fn lemma_populated_stops<F: LengthFunctions>(fs: Seq<Field>, c: F, s: Seq<u8>, vals: Seq<FieldValue>, k: int, n: int)
    requires
        0 <= k <= n,
        populated(fs, c, s, vals, k) is None,
    ensures
        populated(fs, c, s, vals, n) is None,
    decreases n - k,
{
    if k < n {
        lemma_populated_stops(fs, c, s, vals, k + 1, n);
    }
}

/// `v` is what field `k` of `s` holds: the number of a primitive field,
/// the argument values of a semantic field, the bytes of a variable-length
/// field.
pub open spec fn read_back<F: LengthFunctions>(fs: Seq<Field>, c: F, s: Seq<u8>, k: int, v: FieldValue) -> bool {
    match fs[k].ty {
        Type::Primitive(_, _, _) => v == FieldValue::Number(value_of(fs, c, s, k)),
        Type::Misc(_) => v matches FieldValue::Args(a) && a@.len() == arg_types(fs[k]).len() && forall|i: int|
            0 <= i < a@.len() ==> a@[i] == arg_value(fs, c, s, k, i),
        Type::Vector(_) => v matches FieldValue::Bytes(b) && b@ == region_of(fs, c, s, k),
    }
}

/// Every field of the packet in `s`, in declared order, as `read_back`
/// states: the value that `populate` would write back.
pub fn read_all<F: LengthFunctions>(layout: &Layout<F>, s: &[u8]) -> (r: Vec<FieldValue>)
    requires
        layout.wf(),
    ensures
        r@.len() == layout.fields().len(),
        forall|k: int| 0 <= k < r@.len() ==> read_back(layout.fields(), layout.calls(), s@, k, #[trigger] r@[k]),
{
    let mut out: Vec<FieldValue> = Vec::new();
    let mut k: usize = 0;
    while k < layout.packet.fields.len()
        invariant
            layout.wf(),
            k <= layout.fields().len(),
            out@.len() == k,
            forall|j: int| 0 <= j < k ==> read_back(layout.fields(), layout.calls(), s@, j, #[trigger] out@[j]),
        decreases layout.fields().len() - k,
    {
        let v = match &layout.packet.fields[k].ty {
            Type::Primitive(_, _, _) => FieldValue::Number(get_value(layout, s, k)),
            Type::Misc(_) => FieldValue::Args(get_args(layout, s, k)),
            Type::Vector(_) => FieldValue::Bytes(slice_to_vec(get_region(layout, s, k))),
        };
        out.push(v);
        k = k + 1;
    }
    out
}

/// Size in bytes of a packet holding `vals`: the fixed part in whole bytes
/// (rounded down) and the bytes of every variable-length field.
pub open spec fn value_size(fs: Seq<Field>, vals: Seq<FieldValue>, n: int) -> nat
    decreases n,
{
    if n <= 0 {
        fixed_bits(fs, fs.len() as int) / 8
    } else {
        value_size(fs, vals, n - 1) + match vals[n - 1] {
            FieldValue::Bytes(b) => b@.len(),
            _ => 0,
        }
    }
}

/// The size of a packet holding `vals`, as `value_size` states; `None`
/// when it does not fit in `usize`.
pub fn packet_size_of_value<F: LengthFunctions>(layout: &Layout<F>, vals: &Vec<FieldValue>) -> (r: Option<usize>)
    requires
        layout.wf(),
    ensures
        r is Some <==> value_size(layout.fields(), vals@, vals@.len() as int) <= usize::MAX,
        r matches Some(n) ==> n == value_size(layout.fields(), vals@, vals@.len() as int),
{
    let n = layout.packet.fields.len();
    let mut total: usize = layout.fixed_bits_before(n) / 8;
    let mut k: usize = 0;
    while k < vals.len()
        invariant
            layout.wf(),
            n == layout.fields().len(),
            k <= vals@.len(),
            total == value_size(layout.fields(), vals@, k as int),
        decreases vals@.len() - k,
    {
        let add: usize = match &vals[k] {
            FieldValue::Bytes(b) => b.len(),
            _ => 0,
        };
        if add > usize::MAX - total {
            proof {
                lemma_value_size_grows(layout.fields(), vals@, k as int + 1, vals@.len() as int);
            }
            return None;
        }
        total = total + add;
        k = k + 1;
    }
    Some(total)
}

proof fn lemma_value_size_grows(fs: Seq<Field>, vals: Seq<FieldValue>, k: int, n: int)
    requires
        0 <= k <= n,
    ensures
        value_size(fs, vals, k) <= value_size(fs, vals, n),
    decreases n - k,
{
    if k < n {
        lemma_value_size_grows(fs, vals, k, n - 1);
    }
}

/// The bytes of one nested packet of layout `fs` written from `vals`: a
/// buffer of zeros of the value's size, populated; `None` when a value does
/// not suit or fit, or the size does not fit in `usize`.
pub open spec fn element_image<F: LengthFunctions>(fs: Seq<Field>, c: F, vals: Seq<FieldValue>) -> Option<Seq<u8>> {
    let n = value_size(fs, vals, vals.len() as int);
    if n > usize::MAX {
        None
    } else {
        populated(fs, c, Seq::new(n, |i: int| 0u8), vals, vals.len() as int)
    }
}

/// The bytes of the first `n` nested packets, one after the other.
pub open spec fn nested_image<F: LengthFunctions>(fs: Seq<Field>, c: F, elems: Seq<Vec<FieldValue>>, n: int) -> Option<Seq<u8>>
    decreases n,
{
    if n <= 0 {
        Some(Seq::empty())
    } else {
        match (nested_image(fs, c, elems, n - 1), element_image(fs, c, elems[n - 1]@)) {
            (Some(a), Some(b)) => Some(a + b),
            _ => None,
        }
    }
}

/// A buffer of `n` zeros.
fn zeros(n: usize) -> (r: Vec<u8>)
    ensures
        r@ == Seq::new(n as nat, |i: int| 0u8),
{
    let mut v: Vec<u8> = Vec::new();
    let mut i: usize = 0;
    while i < n
        invariant
            i <= n,
            v@ =~= Seq::new(i as nat, |j: int| 0u8),
        decreases n - i,
    {
        v.push(0);
        i = i + 1;
    }
    v
}

/// Writes a sequence of nested packets of layout `elem` into variable-length
/// field `k`: each is populated from its values at the end of the one
/// before, and together they must fit the field's declared length and the
/// buffer. False, with the buffer untouched, when a value does not suit or
/// fit or the whole does not fit.
pub fn set_nested<F: LengthFunctions, G: LengthFunctions>(
    layout: &Layout<F>,
    s: &mut [u8],
    k: usize,
    elem: &Layout<G>,
    elems: &Vec<Vec<FieldValue>>,
) -> (r: bool)
    requires
        layout.wf(),
        elem.wf(),
        k < layout.fields().len(),
        layout.fields()[k as int].ty is Vector,
        forall|i: int| 0 <= i < elems@.len() ==> (#[trigger] elems@[i])@.len() == elem.fields().len(),
    ensures
        r == (nested_image(elem.fields(), elem.calls(), elems@, elems@.len() as int) matches Some(img) && bytes_fit(
            layout.fields(),
            layout.calls(),
            old(s)@,
            k as int,
            img,
        )),
        r ==> final(s)@ == store_bytes(
            old(s)@,
            field_pos(layout.fields(), layout.calls(), old(s)@, k as int) as int,
            nested_image(elem.fields(), elem.calls(), elems@, elems@.len() as int)->0,
        ),
        !r ==> final(s)@ == old(s)@,
{
    let mut acc: Vec<u8> = Vec::new();
    let mut i: usize = 0;
    while i < elems.len()
        invariant
            elem.wf(),
            i <= elems@.len(),
            forall|j: int| 0 <= j < elems@.len() ==> (#[trigger] elems@[j])@.len() == elem.fields().len(),
            nested_image(elem.fields(), elem.calls(), elems@, i as int) == Some(acc@),
        decreases elems@.len() - i,
    {
        let size = match packet_size_of_value(elem, &elems[i]) {
            Some(n) => n,
            None => {
                proof {
                    lemma_nested_stops(elem.fields(), elem.calls(), elems@, i + 1, elems@.len() as int);
                }
                return false;
            },
        };
        let mut buf = zeros(size);
        let ghost z = buf@;
        if !populate(elem, buf.as_mut_slice(), &elems[i]) {
            proof {
                lemma_nested_stops(elem.fields(), elem.calls(), elems@, i + 1, elems@.len() as int);
            }
            return false;
        }
        proof {
            assert(element_image(elem.fields(), elem.calls(), elems@[i as int]@) == Some(buf@));
        }
        acc.append(&mut buf);
        i = i + 1;
    }
    let (pos, len) = pos_and_len(layout, s, k);
    let fits_len = layout.packet.fields[k].packet_length.is_none() || (acc.len() as u64) <= len;
    if fits_len && pos <= s.len() && acc.len() <= s.len() - pos {
        set_region(layout, s, k, acc.as_slice());
        true
    } else {
        false
    }
}

proof fn lemma_nested_stops<F: LengthFunctions>(fs: Seq<Field>, c: F, elems: Seq<Vec<FieldValue>>, k: int, n: int)
    requires
        0 <= k <= n,
        nested_image(fs, c, elems, k) is None,
    ensures
        nested_image(fs, c, elems, n) is None,
    decreases n - k,
{
    if k < n {
        lemma_nested_stops(fs, c, elems, k + 1, n);
    }
}

/// A read-only view of a packet in a buffer.
#[derive(Debug)]
pub struct PacketView<'a, F: LengthFunctions = NoCalls> {
    pub layout: Layout<F>,
    pub buf: &'a [u8],
}

impl<'a, F: LengthFunctions> PacketView<'a, F> {
    pub open spec fn fields(&self) -> Seq<Field> {
        self.layout.fields()
    }

    /// The functions that the layout's length expressions call.
    pub open spec fn calls(&self) -> F {
        self.layout.calls()
    }

    /// A view of `buf`, when it holds at least the fixed part.
    pub fn new(layout: Layout<F>, buf: &'a [u8]) -> (r: Option<PacketView<'a, F>>)
        requires
            layout.wf(),
        ensures
            r is Some <==> buf@.len() >= min_size(layout.fields()),
            r matches Some(v) ==> v.layout == layout && v.buf@ == buf@,
    {
        if buf.len() >= layout.minimum_packet_size() {
            Some(PacketView { layout, buf })
        } else {
            None
        }
    }

    /// The whole buffer.
    pub fn packet(&self) -> (r: &[u8])
        ensures
            r@ == self.buf@,
    {
        self.buf
    }

    pub fn minimum_packet_size(&self) -> (r: usize)
        requires
            self.layout.wf(),
        ensures
            r as nat == min_size(self.fields()),
    {
        self.layout.minimum_packet_size()
    }

    pub fn packet_size(&self) -> (r: usize)
        requires
            self.layout.wf(),
        ensures
            r as nat == packet_size_of(self.fields(), self.calls(), self.buf@),
    {
        get_packet_size(&self.layout, self.buf)
    }

    pub fn get(&self, k: usize) -> (r: u64)
        requires
            self.layout.wf(),
            k < self.fields().len(),
        ensures
            r == value_of(self.fields(), self.calls(), self.buf@, k as int),
    {
        get_value(&self.layout, self.buf, k)
    }

    pub fn get_raw(&self, k: usize) -> (r: &[u8])
        requires
            self.layout.wf(),
            k < self.fields().len(),
        ensures
            r@ == region_of(self.fields(), self.calls(), self.buf@, k as int),
    {
        get_region(&self.layout, self.buf, k)
    }

    pub fn payload(&self) -> (r: &[u8])
        requires
            self.layout.wf(),
        ensures
            r@ == payload_of(self.fields(), self.calls(), self.buf@),
    {
        get_payload(&self.layout, self.buf)
    }
}

/// A read-write view of a packet in a buffer.
#[derive(Debug)]
pub struct MutablePacketView<'a, F: LengthFunctions = NoCalls> {
    pub layout: Layout<F>,
    pub buf: &'a mut [u8],
}

impl<'a, F: LengthFunctions> MutablePacketView<'a, F> {
    pub open spec fn fields(&self) -> Seq<Field> {
        self.layout.fields()
    }

    /// The functions that the layout's length expressions call.
    pub open spec fn calls(&self) -> F {
        self.layout.calls()
    }

    /// The bytes the view holds.
    pub open spec fn bytes(&self) -> Seq<u8> {
        (*self.buf)@
    }

    /// A view of `buf`, when it holds at least the fixed part.
    pub fn new(layout: Layout<F>, buf: &'a mut [u8]) -> (r: Option<MutablePacketView<'a, F>>)
        requires
            layout.wf(),
        ensures
            r is Some <==> old(buf)@.len() >= min_size(layout.fields()),
            r matches Some(v) ==> v.layout == layout && v.bytes() == old(buf)@,
    {
        if buf.len() >= layout.minimum_packet_size() {
            Some(MutablePacketView { layout, buf })
        } else {
            None
        }
    }

    /// A read-only view of the same bytes and layout, borrowed from this
    /// view.
    pub fn to_immutable(&self) -> (r: PacketRef<'_, F>)
        ensures
            *r.layout == self.layout,
            r.buf@ == self.bytes(),
    {
        PacketRef { layout: &self.layout, buf: &*self.buf }
    }

    /// A read-only view of the same bytes, ending this view.
    pub fn consume_to_immutable(self) -> (r: PacketView<'a, F>)
        ensures
            r.layout == self.layout,
            r.buf@ == self.bytes(),
    {
        PacketView { layout: self.layout, buf: self.buf }
    }

    pub fn packet(&self) -> (r: &[u8])
        ensures
            r@ == self.bytes(),
    {
        &*self.buf
    }

    pub fn get(&self, k: usize) -> (r: u64)
        requires
            self.layout.wf(),
            k < self.fields().len(),
        ensures
            r == value_of(self.fields(), self.calls(), self.bytes(), k as int),
    {
        get_value(&self.layout, self.buf, k)
    }

    pub fn get_raw(&self, k: usize) -> (r: &[u8])
        requires
            self.layout.wf(),
            k < self.fields().len(),
        ensures
            r@ == region_of(self.fields(), self.calls(), self.bytes(), k as int),
    {
        get_region(&self.layout, self.buf, k)
    }

    pub fn payload(&self) -> (r: &[u8])
        requires
            self.layout.wf(),
        ensures
            r@ == payload_of(self.fields(), self.calls(), self.bytes()),
    {
        get_payload(&self.layout, self.buf)
    }

    pub fn set(&mut self, k: usize, v: u64)
        requires
            old(self).layout.wf(),
            k < old(self).fields().len(),
        ensures
            final(self).layout == old(self).layout,
            final(self).bytes() == store_value(old(self).fields(), old(self).calls(), old(self).bytes(), k as int, v),
    {
        set_value(&self.layout, self.buf, k, v)
    }

    pub fn set_raw(&mut self, k: usize, vals: &[u8])
        requires
            old(self).layout.wf(),
            k < old(self).fields().len(),
            old(self).fields()[k as int].ty is Vector,
            old(self).fields()[k as int].packet_length is Some ==> vals@.len() <= declared_len(
                old(self).fields(), old(self).calls(),
                old(self).bytes(),
                k as int,
            ),
            field_pos(old(self).fields(), old(self).calls(), old(self).bytes(), k as int) + vals@.len() <= old(self).bytes().len(),
        ensures
            final(self).layout == old(self).layout,
            final(self).bytes() == store_bytes(
                old(self).bytes(),
                field_pos(old(self).fields(), old(self).calls(), old(self).bytes(), k as int) as int,
                vals@,
            ),
    {
        set_region(&self.layout, self.buf, k, vals)
    }

    /// Writes `vals` into the fields in declared order, as `populated`
    /// states.
    pub fn populate(&mut self, vals: &Vec<FieldValue>) -> (r: bool)
        requires
            old(self).layout.wf(),
            vals@.len() == old(self).fields().len(),
        ensures
            final(self).layout == old(self).layout,
            r == populated(old(self).fields(), old(self).calls(), old(self).bytes(), vals@, vals@.len() as int) is Some,
            r ==> final(self).bytes() == populated(old(self).fields(), old(self).calls(), old(self).bytes(), vals@, vals@.len() as int)->0,
    {
        populate(&self.layout, self.buf, vals)
    }
}


/// A read-only view that borrows both its layout and its bytes.
#[derive(Debug)]
pub struct PacketRef<'a, F: LengthFunctions = NoCalls> {
    pub layout: &'a Layout<F>,
    pub buf: &'a [u8],
}

impl<'a, F: LengthFunctions> PacketRef<'a, F> {
    pub open spec fn fields(&self) -> Seq<Field> {
        self.layout.fields()
    }

    /// The functions that the layout's length expressions call.
    pub open spec fn calls(&self) -> F {
        self.layout.calls()
    }

    pub fn packet(&self) -> (r: &[u8])
        ensures
            r@ == self.buf@,
    {
        self.buf
    }

    pub fn get(&self, k: usize) -> (r: u64)
        requires
            self.layout.wf(),
            k < self.fields().len(),
        ensures
            r == value_of(self.fields(), self.calls(), self.buf@, k as int),
    {
        get_value(self.layout, self.buf, k)
    }

    pub fn get_raw(&self, k: usize) -> (r: &[u8])
        requires
            self.layout.wf(),
            k < self.fields().len(),
        ensures
            r@ == region_of(self.fields(), self.calls(), self.buf@, k as int),
    {
        get_region(self.layout, self.buf, k)
    }

    pub fn payload(&self) -> (r: &[u8])
        requires
            self.layout.wf(),
        ensures
            r@ == payload_of(self.fields(), self.calls(), self.buf@),
    {
        get_payload(self.layout, self.buf)
    }

    pub fn packet_size(&self) -> (r: usize)
        requires
            self.layout.wf(),
        ensures
            r as nat == packet_size_of(self.fields(), self.calls(), self.buf@),
    {
        get_packet_size(self.layout, self.buf)
    }
}

/// A view of a packet in a buffer that the view owns; it reads and
/// writes.
#[derive(Debug)]
pub struct OwnedPacketView<F: LengthFunctions = NoCalls> {
    pub layout: Layout<F>,
    pub buf: Vec<u8>,
}

impl<F: LengthFunctions> OwnedPacketView<F> {
    pub open spec fn fields(&self) -> Seq<Field> {
        self.layout.fields()
    }

    /// The functions that the layout's length expressions call.
    pub open spec fn calls(&self) -> F {
        self.layout.calls()
    }

    /// A view owning `buf`, when it holds at least the fixed part.
    pub fn owned(layout: Layout<F>, buf: Vec<u8>) -> (r: Option<OwnedPacketView<F>>)
        requires
            layout.wf(),
        ensures
            r is Some <==> buf@.len() >= min_size(layout.fields()),
            r matches Some(v) ==> v.layout == layout && v.buf@ == buf@,
    {
        if buf.len() >= layout.minimum_packet_size() {
            Some(OwnedPacketView { layout, buf })
        } else {
            None
        }
    }

    pub fn packet(&self) -> (r: &[u8])
        ensures
            r@ == self.buf@,
    {
        self.buf.as_slice()
    }

    pub fn get(&self, k: usize) -> (r: u64)
        requires
            self.layout.wf(),
            k < self.fields().len(),
        ensures
            r == value_of(self.fields(), self.calls(), self.buf@, k as int),
    {
        get_value(&self.layout, self.buf.as_slice(), k)
    }

    pub fn get_raw(&self, k: usize) -> (r: &[u8])
        requires
            self.layout.wf(),
            k < self.fields().len(),
        ensures
            r@ == region_of(self.fields(), self.calls(), self.buf@, k as int),
    {
        get_region(&self.layout, self.buf.as_slice(), k)
    }

    pub fn payload(&self) -> (r: &[u8])
        requires
            self.layout.wf(),
        ensures
            r@ == payload_of(self.fields(), self.calls(), self.buf@),
    {
        get_payload(&self.layout, self.buf.as_slice())
    }

    /// A read-only view of the same bytes and layout, borrowed from this
    /// view.
    pub fn to_immutable(&self) -> (r: PacketRef<'_, F>)
        ensures
            *r.layout == self.layout,
            r.buf@ == self.buf@,
    {
        PacketRef { layout: &self.layout, buf: self.buf.as_slice() }
    }

    pub fn set(&mut self, k: usize, v: u64)
        requires
            old(self).layout.wf(),
            k < old(self).fields().len(),
        ensures
            final(self).layout == old(self).layout,
            final(self).buf@ == store_value(old(self).fields(), old(self).calls(), old(self).buf@, k as int, v),
    {
        set_value(&self.layout, self.buf.as_mut_slice(), k, v)
    }

    pub fn set_raw(&mut self, k: usize, vals: &[u8])
        requires
            old(self).layout.wf(),
            k < old(self).fields().len(),
            old(self).fields()[k as int].ty is Vector,
            old(self).fields()[k as int].packet_length is Some ==> vals@.len() <= declared_len(
                old(self).fields(), old(self).calls(),
                old(self).buf@,
                k as int,
            ),
            field_pos(old(self).fields(), old(self).calls(), old(self).buf@, k as int) + vals@.len() <= old(self).buf@.len(),
        ensures
            final(self).layout == old(self).layout,
            final(self).buf@ == store_bytes(
                old(self).buf@,
                field_pos(old(self).fields(), old(self).calls(), old(self).buf@, k as int) as int,
                vals@,
            ),
    {
        set_region(&self.layout, self.buf.as_mut_slice(), k, vals)
    }

    /// Writes `vals` into the fields in declared order, as `populated`
    /// states.
    pub fn populate(&mut self, vals: &Vec<FieldValue>) -> (r: bool)
        requires
            old(self).layout.wf(),
            vals@.len() == old(self).fields().len(),
        ensures
            final(self).layout == old(self).layout,
            r == populated(old(self).fields(), old(self).calls(), old(self).buf@, vals@, vals@.len() as int) is Some,
            r ==> final(self).buf@ == populated(old(self).fields(), old(self).calls(), old(self).buf@, vals@, vals@.len() as int)->0,
    {
        populate(&self.layout, self.buf.as_mut_slice(), vals)
    }

    /// The schema and the buffer, ending the view.
    pub fn into_parts(self) -> (r: (Layout<F>, Vec<u8>))
        ensures
            r.0 == self.layout,
            r.1@ == self.buf@,
    {
        (self.layout, self.buf)
    }
}


/// Where the nested packets of a sequence start in `buf`, from `at` on.
/// Each starts where the one before ended (its size, clipped to what is
/// left); the sequence stops at the end of `buf`, before a rest too short
/// for the element's fixed part, and after an element of size zero.
pub open spec fn nested_starts<F: LengthFunctions>(fs: Seq<Field>, c: F, buf: Seq<u8>, at: int) -> Seq<nat>
    decreases buf.len() - at,
{
    if at < 0 || at >= buf.len() || buf.len() - at < min_size(fs) {
        Seq::empty()
    } else {
        let rest = buf.subrange(at, buf.len() as int);
        let size = packet_size_of(fs, c, rest);
        let step = if size > rest.len() { rest.len() } else { size };
        if step == 0 {
            seq![at as nat]
        } else {
            seq![at as nat] + nested_starts(fs, c, buf, at + step)
        }
    }
}

/// The start of each nested packet of layout `elem` in `buf`, as
/// `nested_starts` states.
pub fn nested_packets<F: LengthFunctions>(elem: &Layout<F>, buf: &[u8]) -> (r: Vec<usize>)
    requires
        elem.wf(),
    ensures
        r@.map_values(|x: usize| x as nat) == nested_starts(elem.fields(), elem.calls(), buf@, 0),
{
    let min = elem.minimum_packet_size();
    let mut out: Vec<usize> = Vec::new();
    let mut at: usize = 0;
    let ghost fs = elem.fields();
    let ghost c = elem.calls();
    loop
        invariant
            elem.wf(),
            fs == elem.fields(),
            c == elem.calls(),
            min == min_size(fs),
            at <= buf@.len(),
            out@.map_values(|x: usize| x as nat) + nested_starts(fs, c, buf@, at as int) == nested_starts(fs, c, buf@, 0),
        decreases buf@.len() - at,
    {
        if at >= buf.len() || buf.len() - at < min {
            proof {
                assert(nested_starts(fs, c, buf@, at as int) =~= Seq::<nat>::empty());
                assert(out@.map_values(|x: usize| x as nat) + Seq::<nat>::empty() =~= out@.map_values(
                    |x: usize| x as nat,
                ));
            }
            return out;
        }
        let rest = slice_subrange(buf, at, buf.len());
        let size = get_packet_size(elem, rest);
        let step = if size > rest.len() { rest.len() } else { size };
        let ghost before = out@.map_values(|x: usize| x as nat);
        out.push(at);
        proof {
            assert(out@.map_values(|x: usize| x as nat) =~= before.push(at as nat));
        }
        if step == 0 {
            proof {
                assert(nested_starts(fs, c, buf@, at as int) =~= seq![at as nat]);
                assert(before + seq![at as nat] =~= before.push(at as nat));
            }
            return out;
        }
        proof {
            assert(nested_starts(fs, c, buf@, at as int) == seq![at as nat] + nested_starts(fs, c, buf@, at + step));
            assert(before + (seq![at as nat] + nested_starts(fs, c, buf@, at + step)) =~= before.push(at as nat)
                + nested_starts(fs, c, buf@, at + step));
        }
        at = at + step;
    }
}

} // verus!
