//! Where each field of a packet lies in a buffer.
//!
//! Fixed-size fields (primitives and the primitives behind semantic
//! fields) are packed bit by bit in declaration order. A variable-length
//! field with a length expression moves every later field by that many
//! bytes; one without (the last field, or the payload) moves nothing and
//! runs to the end of the buffer.
use crate::bits::{field_value, read_field, valid_field};
use crate::expr::{eval, eval_expr, sat, LengthFunctions, NoCalls};
use crate::schema::{Field, Packet};
use crate::types::Type;
use vstd::prelude::*;
use vstd::slice::{slice_subrange, slice_to_vec};

verus! {

/// Width of a primitive type, zero for other types.
pub open spec fn type_width(t: Type) -> nat {
    match t {
        Type::Primitive(_, w, _) => w as nat,
        _ => 0,
    }
}

/// Total width of the first `n` constructor arguments.
pub open spec fn args_width(ts: Seq<Type>, n: int) -> nat
    decreases n,
{
    if n <= 0 {
        0
    } else {
        args_width(ts, n - 1) + type_width(ts[n - 1])
    }
}

/// The constructor arguments of a semantic field; empty for other fields.
pub open spec fn arg_types(f: Field) -> Seq<Type> {
    match (f.ty, f.construct_with) {
        (Type::Misc(_), Some(v)) => v@,
        _ => Seq::empty(),
    }
}

/// The constructor arguments of a semantic field, as `arg_types` states.
pub fn arg_list(f: &Field) -> (r: &[Type])
    ensures
        r@ == arg_types(*f),
{
    match (&f.ty, &f.construct_with) {
        (Type::Misc(_), Some(v)) => v.as_slice(),
        _ => &[],
    }
}

/// Bits of fixed layout that a field takes.
pub open spec fn fixed_width(f: Field) -> nat {
    match f.ty {
        Type::Primitive(_, w, _) => w as nat,
        Type::Misc(_) => args_width(arg_types(f), arg_types(f).len() as int),
        Type::Vector(_) => 0,
    }
}

/// Bits of fixed layout before field `k`.
pub open spec fn fixed_bits(fs: Seq<Field>, k: int) -> nat
    decreases k,
{
    if k <= 0 {
        0
    } else {
        fixed_bits(fs, k - 1) + fixed_width(fs[k - 1])
    }
}

/// Smallest buffer that holds every fixed-size field: ceil(bits / 8).
pub open spec fn min_size(fs: Seq<Field>) -> nat {
    (fixed_bits(fs, fs.len() as int) + 7) / 8
}

pub open spec fn prim_ok(t: Type) -> bool {
    match t {
        Type::Primitive(_, w, _) => 1 <= w <= 64,
        _ => true,
    }
}

/// A schema the layout can place: every primitive is 1 to 64 bits wide,
/// container elements are whole-byte primitives or semantic types (never
/// containers), and the fixed part fits in
/// `u32::MAX` bits.
pub open spec fn layout_ok(fs: Seq<Field>) -> bool {
    &&& forall|k: int| 0 <= k < fs.len() ==> prim_ok(#[trigger] fs[k].ty)
    &&& forall|k: int, a: int|
        0 <= k < fs.len() && 0 <= a < arg_types(fs[k]).len() ==> prim_ok(#[trigger] arg_types(fs[k])[a])
    &&& forall|k: int| 0 <= k < fs.len() ==> elem_ok(#[trigger] fs[k].ty)
    &&& fixed_bits(fs, fs.len() as int) <= u32::MAX
}

pub open spec fn elem_ok(t: Type) -> bool {
    match t {
        Type::Vector(inner) => match *inner {
            Type::Primitive(_, w, _) => 8 <= w <= 64 && w % 8 == 0,
            Type::Vector(_) => false,
            Type::Misc(_) => true,
        },
        _ => true,
    }
}

/// Byte position of bit `bits` of the fixed layout after `var` bytes of
/// variable-length fields, capped at `usize::MAX`.
pub open spec fn pos_of(bits: nat, var: nat) -> nat {
    if bits / 8 + var > usize::MAX {
        usize::MAX as nat
    } else {
        bits / 8 + var
    }
}

/// Bytes `pos..pos + len` of `s` (to the end when unbounded), clipped to
/// the buffer.
pub open spec fn clip(s: Seq<u8>, pos: nat, bounded: bool, len: nat) -> Seq<u8> {
    let a = if pos < s.len() { pos } else { s.len() };
    let b = if !bounded || pos + len > s.len() { s.len() } else { pos + len };
    s.subrange(a as int, b as int)
}

/// What reading the fields before some position has found: the value of
/// each primitive field, the bytes of each variable-length field, and the
/// bytes taken by variable-length fields so far.
pub struct Walk {
    pub vals: Seq<u64>,
    pub regions: Seq<Seq<u8>>,
    pub var: nat,
}

/// The byte length a field's expression gives, zero without one.
pub open spec fn length_of<F: LengthFunctions>(f: Field, w: Walk, c: F) -> nat {
    match f.packet_length {
        Some(e) => eval(e, w.vals, w.regions, c) as nat,
        None => 0,
    }
}

/// Reading the first `k` fields of `s`.
pub open spec fn walk<F: LengthFunctions>(fs: Seq<Field>, c: F, s: Seq<u8>, k: int) -> Walk
    decreases k,
{
    if k <= 0 {
        Walk { vals: Seq::empty(), regions: Seq::empty(), var: 0 }
    } else {
        let w = walk(fs, c, s, k - 1);
        let f = fs[k - 1];
        let bits = fixed_bits(fs, k - 1);
        let pos = pos_of(bits, w.var);
        let val: u64 = match f.ty {
            Type::Primitive(_, wd, e) => if valid_field(bits % 8, wd as nat) {
                field_value(s, pos as int, bits % 8, wd as nat, e) as u64
            } else {
                0
            },
            _ => 0,
        };
        let len = length_of(f, w, c);
        let region = match f.ty {
            Type::Vector(_) => clip(s, pos, f.packet_length is Some, len),
            _ => Seq::empty(),
        };
        Walk { vals: w.vals.push(val), regions: w.regions.push(region), var: sat((w.var + len) as int) as nat }
    }
}

/// A walk over `k` fields has one value and one region per field.
pub proof fn lemma_walk_len<F: LengthFunctions>(fs: Seq<Field>, c: F, s: Seq<u8>, k: int)
    requires
        0 <= k,
    ensures
        walk(fs, c, s, k).vals.len() == k,
        walk(fs, c, s, k).regions.len() == k,
    decreases k,
{
    if k > 0 {
        lemma_walk_len(fs, c, s, k - 1);
    }
}

/// Byte position of field `k`.
pub open spec fn field_pos<F: LengthFunctions>(fs: Seq<Field>, c: F, s: Seq<u8>, k: int) -> nat {
    pos_of(fixed_bits(fs, k), walk(fs, c, s, k).var)
}

/// Size of the packet in `s`: the fixed part (whole bytes) and every
/// variable-length field with a length expression.
pub open spec fn packet_size_of<F: LengthFunctions>(fs: Seq<Field>, c: F, s: Seq<u8>) -> nat {
    pos_of(fixed_bits(fs, fs.len() as int), walk(fs, c, s, fs.len() as int).var)
}

/// The position of the first payload field at or after `i`.
pub open spec fn payload_from(fs: Seq<Field>, i: int) -> Option<int>
    decreases fs.len() - i,
{
    if i < 0 || i >= fs.len() {
        None
    } else if fs[i].is_payload {
        Some(i)
    } else {
        payload_from(fs, i + 1)
    }
}

/// The position of the payload field, if there is one.
pub open spec fn payload_field(fs: Seq<Field>) -> Option<int> {
    payload_from(fs, 0)
}

/// The payload window: from the payload field's position to its declared
/// end (or the end of the buffer without a length), clipped to the
/// buffer; empty when the buffer ends before the window starts, or when
/// there is no payload field.
pub open spec fn payload_of<F: LengthFunctions>(fs: Seq<Field>, c: F, s: Seq<u8>) -> Seq<u8> {
    match payload_field(fs) {
        Some(k) => {
            let lower = field_pos(fs, c, s, k);
            if s.len() <= lower {
                Seq::empty()
            } else {
                clip(s, lower, fs[k].packet_length is Some, length_of(fs[k], walk(fs, c, s, k), c))
            }
        },
        None => Seq::empty(),
    }
}

/// The fixed part grows with the number of fields.
pub proof fn lemma_fixed_bits_mono(fs: Seq<Field>, j: int, k: int)
    requires
        0 <= j <= k <= fs.len(),
    ensures
        fixed_bits(fs, j) <= fixed_bits(fs, k),
    decreases k - j,
{
    if j < k {
        lemma_fixed_bits_mono(fs, j, k - 1);
    }
}

/// Whether `t` is a primitive of 1 to 64 bits.
fn check_prim(t: &Type) -> (r: bool)
    ensures
        r == prim_ok(*t),
{
    match t {
        Type::Primitive(_, w, _) => 1 <= *w && *w <= 64,
        _ => true,
    }
}

fn check_elem(t: &Type) -> (r: bool)
    ensures
        r == elem_ok(*t),
{
    match t {
        Type::Vector(inner) => match &**inner {
            Type::Primitive(_, w, _) => 8 <= *w && *w <= 64 && *w % 8 == 0,
            Type::Vector(_) => false,
            Type::Misc(_) => true,
        },
        _ => true,
    }
}

/// Width of field `f`'s fixed part, when its primitives are checked.
fn fixed_width_exec(f: &Field) -> (r: Option<u128>)
    ensures
        r matches Some(w) ==> w as nat == fixed_width(*f) && forall|a: int|
            0 <= a < arg_types(*f).len() ==> prim_ok(#[trigger] arg_types(*f)[a]),
        r is None ==> exists|a: int| 0 <= a < arg_types(*f).len() && !prim_ok(#[trigger] arg_types(*f)[a]),
{
    let args = arg_list(f);
    let ghost ts = arg_types(*f);
    let mut total: u128 = 0;
    let mut a: usize = 0;
    while a < args.len()
        invariant
            a <= args@.len(),
            args@ == ts,
            ts == arg_types(*f),
            total as nat == args_width(ts, a as int),
            total <= 64 * a,
            forall|x: int| 0 <= x < a ==> prim_ok(#[trigger] ts[x]),
        decreases args.len() - a,
    {
        if !check_prim(&args[a]) {
            proof {
                assert(!prim_ok(ts[a as int]));
            }
            return None;
        }
        let w: u128 = match &args[a] {
            Type::Primitive(_, w, _) => *w as u128,
            _ => 0,
        };
        total = total + w;
        a = a + 1;
    }
    match &f.ty {
        Type::Primitive(_, w, _) => Some(*w as u128),
        Type::Misc(_) => Some(total),
        Type::Vector(_) => Some(0),
    }
}

/// A schema whose fields the layout can place.
#[derive(Debug)]
pub struct Layout<F: LengthFunctions = NoCalls> {
    pub packet: Packet,
    /// The functions that the schema's length expressions call.
    pub funcs: F,
}

impl<F: LengthFunctions> Layout<F> {
    pub open spec fn fields(&self) -> Seq<Field> {
        self.packet.fields@
    }

    /// The functions that the layout's length expressions call.
    pub open spec fn calls(&self) -> F {
        self.funcs
    }

    pub open spec fn wf(&self) -> bool {
        layout_ok(self.fields())
    }

    /// Accepts a schema when every primitive is 1 to 64 bits wide,
    /// container elements are whole-byte primitives or semantic types (never
/// containers), and the fixed part fits in
    /// `u32::MAX` bits.
    pub fn new(packet: Packet, funcs: F) -> (r: Option<Layout<F>>)
        ensures
            r is Some <==> layout_ok(packet.fields@),
            r matches Some(l) ==> l.packet == packet && l.funcs == funcs,
    {
        let ghost fs = packet.fields@;
        let mut bits: u64 = 0;
        let mut k: usize = 0;
        while k < packet.fields.len()
            invariant
                k <= fs.len(),
                fs == packet.fields@,
                bits as nat == fixed_bits(fs, k as int),
                bits <= u32::MAX,
                forall|j: int| 0 <= j < k ==> prim_ok(#[trigger] fs[j].ty),
                forall|j: int| 0 <= j < k ==> elem_ok(#[trigger] fs[j].ty),
                forall|j: int, a: int|
                    0 <= j < k && 0 <= a < arg_types(fs[j]).len() ==> prim_ok(
                        #[trigger] arg_types(fs[j])[a],
                    ),
            decreases fs.len() - k,
        {
            let f = &packet.fields[k];
            if !check_prim(&f.ty) || !check_elem(&f.ty) {
                return None;
            }
            let w = match fixed_width_exec(f) {
                Some(w) => w,
                None => {
                    proof {
                        let a = choose|a: int| 0 <= a < arg_types(*f).len() && !prim_ok(#[trigger] arg_types(*f)[a]);
                        assert(!prim_ok(arg_types(fs[k as int])[a]));
                    }
                    return None;
                },
            };
            if w > (u32::MAX as u64 - bits) as u128 {
                proof {
                    lemma_fixed_bits_mono(fs, k + 1, fs.len() as int);
                }
                return None;
            }
            bits = bits + w as u64;
            k = k + 1;
        }
        Some(Layout { packet, funcs })
    }

    /// Smallest buffer that holds every fixed-size field: the fixed widths
    /// summed, in whole bytes rounded up.
    pub fn minimum_packet_size(&self) -> (r: usize)
        requires
            self.wf(),
        ensures
            r as nat == min_size(self.fields()),
    {
        let bits = self.fixed_bits_before(self.packet.fields.len());
        ((bits as u64 + 7) / 8) as usize
    }

    /// Bits of fixed layout before field `k`.
    pub fn fixed_bits_before(&self, k: usize) -> (r: usize)
        requires
            self.wf(),
            k <= self.fields().len(),
        ensures
            r as nat == fixed_bits(self.fields(), k as int),
            r <= u32::MAX,
    {
        let ghost fs = self.fields();
    let ghost c = self.calls();
        let mut bits: usize = 0;
        let mut j: usize = 0;
        while j < k
            invariant
                j <= k <= fs.len(),
                fs == self.fields(),
                c == self.calls(),
                layout_ok(fs),
                bits as nat == fixed_bits(fs, j as int),
            decreases k - j,
        {
            proof {
                lemma_fixed_bits_mono(fs, j + 1, fs.len() as int);
            }
            let w = fixed_width_exec(&self.packet.fields[j]);
            let w = match w {
                Some(w) => w,
                None => {
                    proof {
                        let a = choose|a: int|
                            0 <= a < arg_types(fs[j as int]).len() && !prim_ok(#[trigger] arg_types(fs[j as int])[a]);
                        assert(false);
                    }
                    0
                },
            };
            bits = bits + w as usize;
            j = j + 1;
        }
        proof {
            lemma_fixed_bits_mono(fs, k as int, fs.len() as int);
        }
        bits
    }
}

/// Byte position from fixed bits and variable bytes, capped at
/// `usize::MAX`.
fn pos_exec(bits: usize, var: u64) -> (r: usize)
    requires
        bits <= u32::MAX,
    ensures
        r as nat == pos_of(bits as nat, var as nat),
{
    let p: u128 = (bits / 8) as u128 + var as u128;
    if p > usize::MAX as u128 {
        usize::MAX
    } else {
        p as usize
    }
}

/// The bytes of `s` from `pos` for `len` bytes (to the end when
/// unbounded), clipped to `s`.
pub fn clip_exec(s: &[u8], pos: usize, bounded: bool, len: u64) -> (r: &[u8])
    ensures
        r@ == clip(s@, pos as nat, bounded, len as nat),
{
    let a = if pos < s.len() { pos } else { s.len() };
    let b = if !bounded || pos as u128 + len as u128 > s.len() as u128 {
        s.len()
    } else {
        pos + len as usize
    };
    slice_subrange(s, a, b)
}

/// The state of a walk over the first fields of a buffer.
pub struct WalkState {
    pub vals: Vec<u64>,
    pub regions: Vec<Vec<u8>>,
    pub var: u64,
}

impl WalkState {
    pub open spec fn matches(&self, w: Walk) -> bool {
        &&& self.vals@ == w.vals
        &&& self.regions@.map_values(|v: Vec<u8>| v@) == w.regions
        &&& self.var as nat == w.var
    }
}

impl<F: LengthFunctions> Layout<F> {
    /// Reads the first `k` fields of `s`, as `walk` states it.
    pub fn walk_to(&self, s: &[u8], k: usize) -> (r: WalkState)
        requires
            self.wf(),
            k <= self.fields().len(),
        ensures
            r.matches(walk(self.fields(), self.calls(), s@, k as int)),
    {
        let ghost fs = self.fields();
    let ghost c = self.calls();
        let mut st = WalkState { vals: Vec::new(), regions: Vec::new(), var: 0 };
        let mut bits: usize = 0;
        let mut j: usize = 0;
        proof {
            assert(st.regions@.map_values(|v: Vec<u8>| v@) =~= Seq::<Seq<u8>>::empty());
        }
        while j < k
            invariant
                j <= k <= fs.len(),
                fs == self.fields(),
                c == self.calls(),
                layout_ok(fs),
                bits as nat == fixed_bits(fs, j as int),
                bits <= u32::MAX,
                st.matches(walk(fs, c, s@, j as int)),
            decreases k - j,
        {
            let f = &self.packet.fields[j];
            let pos = pos_exec(bits, st.var);
            let bit_off: usize = bits % 8;
            let val: u64 = match &f.ty {
                Type::Primitive(_, wd, e) => {
                    proof {
                        assert(prim_ok(fs[j as int].ty));
                    }
                    read_field(s, pos, bit_off as u8, *wd as u8, *e)
                },
                _ => 0,
            };
            let len: u64 = match &f.packet_length {
                Some(e) => eval_expr(e, &st.vals, &st.regions, &self.funcs),
                None => 0,
            };
            let region: Vec<u8> = match &f.ty {
                Type::Vector(_) => slice_to_vec(clip_exec(s, pos, f.packet_length.is_some(), len)),
                _ => Vec::new(),
            };
            let ghost old_regions = st.regions@;
            st.vals.push(val);
            st.regions.push(region);
            st.var = if len > u64::MAX - st.var {
                u64::MAX
            } else {
                st.var + len
            };
            proof {
                assert(st.regions@.map_values(|v: Vec<u8>| v@) =~= old_regions.map_values(
                    |v: Vec<u8>| v@,
                ).push(region@));
                lemma_fixed_bits_mono(fs, j + 1, fs.len() as int);
            }
            let w = fixed_width_exec(f);
            let w: u128 = match w {
                Some(w) => w,
                None => {
                    proof {
                        let a = choose|a: int|
                            0 <= a < arg_types(fs[j as int]).len() && !prim_ok(#[trigger] arg_types(fs[j as int])[a]);
                        assert(false);
                    }
                    0
                },
            };
            bits = bits + w as usize;
            j = j + 1;
        }
        st
    }
}

} // verus!
