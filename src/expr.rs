//! Length expressions: the restricted arithmetic that gives the byte length
//! of a variable-length field in terms of earlier fields.
//!
//! Arithmetic saturates: sums and products stop at `u64::MAX`, a
//! difference never goes below zero, and division or remainder by zero
//! gives zero. Evaluation is therefore total.
use crate::bits::be_nat;
use vstd::arithmetic::power2::*;
use vstd::prelude::*;
use vstd::string::*;
use vstd::slice::slice_subrange;

verus! {

/// A length expression over the fields declared before the one it sizes.
#[derive(Debug)]
pub enum Expr {
    /// An unsigned integer literal.
    Lit(u64),
    /// The value of the primitive field at this position.
    Field(usize),
    /// The number of bytes of the variable-length field at this position.
    Len(usize),
    Add(Box<Expr>, Box<Expr>),
    Sub(Box<Expr>, Box<Expr>),
    Mul(Box<Expr>, Box<Expr>),
    Div(Box<Expr>, Box<Expr>),
    Rem(Box<Expr>, Box<Expr>),
    /// Bitwise or.
    Or(Box<Expr>, Box<Expr>),
    /// `varint_length` of the low byte of the operand.
    VarintLength(Box<Expr>),
    /// `varint` of the low byte of the first field and the bytes of the
    /// second.
    Varint(usize, usize),
    /// One when both sides are equal, else zero.
    Eq(Box<Expr>, Box<Expr>),
    /// Bitwise and.
    And(Box<Expr>, Box<Expr>),
    /// The variable-length integer at the start of the bytes of a field:
    /// its first byte, then as many as `varint_length` asks for that the
    /// field holds; zero for an empty field.
    VarintAt(usize),
    /// A call of the function at this position of the layout's
    /// `LengthFunctions`, with its arguments, if any, joined by `Comma`.
    Call(usize, Option<Box<Expr>>),
    /// Two arguments of a call; as a value on its own, the right one.
    Comma(Box<Expr>, Box<Expr>),
}

/// The functions that length expressions may call by name, beyond the
/// arithmetic the library knows. A user implements it for the functions a
/// schema's length expressions call: `index_of` names them, `call_value`
/// says what each call gives, and `lookup` and `call` compute those.
pub trait LengthFunctions {
    /// The position of the function called `name`, if there is one.
    spec fn index_of(&self, name: Seq<char>) -> Option<nat>;

    /// What the function at position `f` gives for `args`.
    spec fn call_value(&self, f: nat, args: Seq<u64>) -> u64;

    fn lookup(&self, name: &str) -> (r: Option<usize>)
        ensures
            match r {
                Some(i) => self.index_of(name@) == Some(i as nat),
                None => self.index_of(name@) is None,
            },
    ;

    fn call(&self, f: usize, args: &[u64]) -> (r: u64)
        ensures
            r == self.call_value(f as nat, args@),
    ;
}

/// No functions: length expressions can call nothing.
#[derive(Clone, Copy, Debug)]
pub struct NoCalls;

impl LengthFunctions for NoCalls {
    open spec fn index_of(&self, name: Seq<char>) -> Option<nat> {
        None
    }

    open spec fn call_value(&self, f: nat, args: Seq<u64>) -> u64 {
        0
    }

    fn lookup(&self, name: &str) -> (r: Option<usize>) {
        None
    }

    fn call(&self, f: usize, args: &[u64]) -> (r: u64) {
        0
    }
}

/// The least of `args`, zero for none.
pub open spec fn seq_min(args: Seq<u64>) -> u64
    decreases args.len(),
{
    if args.len() == 0 {
        0
    } else if args.len() == 1 {
        args[0]
    } else {
        let m = seq_min(args.drop_last());
        if args.last() < m { args.last() } else { m }
    }
}

/// The greatest of `args`, zero for none.
pub open spec fn seq_max(args: Seq<u64>) -> u64
    decreases args.len(),
{
    if args.len() == 0 {
        0
    } else {
        let m = seq_max(args.drop_last());
        if args.last() > m { args.last() } else { m }
    }
}

/// Two functions: `min` and `max` of their arguments (zero for none).
#[derive(Clone, Copy, Debug)]
pub struct MinMax;

impl LengthFunctions for MinMax {
    open spec fn index_of(&self, name: Seq<char>) -> Option<nat> {
        if name == seq!['m', 'i', 'n'] {
            Some(0)
        } else if name == seq!['m', 'a', 'x'] {
            Some(1)
        } else {
            None
        }
    }

    open spec fn call_value(&self, f: nat, args: Seq<u64>) -> u64 {
        if f == 0 {
            seq_min(args)
        } else {
            seq_max(args)
        }
    }

    fn lookup(&self, name: &str) -> (r: Option<usize>) {
        if name.unicode_len() != 3 || name.get_char(0) != 'm' {
            proof {
                assert(name@ != seq!['m', 'i', 'n']);
                assert(name@ != seq!['m', 'a', 'x']);
            }
            return None;
        }
        let (b, c) = (name.get_char(1), name.get_char(2));
        if b == 'i' && c == 'n' {
            proof {
                assert(name@ =~= seq!['m', 'i', 'n']);
            }
            Some(0)
        } else if b == 'a' && c == 'x' {
            proof {
                assert(name@ =~= seq!['m', 'a', 'x']);
            }
            Some(1)
        } else {
            proof {
                assert(name@ != seq!['m', 'i', 'n'] && name@ != seq!['m', 'a', 'x']) by {
                    if name@ == seq!['m', 'i', 'n'] {
                        assert(name@[1] == 'i');
                    }
                    if name@ == seq!['m', 'a', 'x'] {
                        assert(name@[1] == 'a');
                    }
                }
            }
            None
        }
    }

    fn call(&self, f: usize, args: &[u64]) -> (r: u64) {
        let mut m: u64 = 0;
        let mut i: usize = 0;
        while i < args.len()
            invariant
                i <= args@.len(),
                m == (if f == 0 { seq_min(args@.subrange(0, i as int)) } else { seq_max(args@.subrange(0, i as int)) }),
            decreases args.len() - i,
        {
            proof {
                assert(args@.subrange(0, i + 1).drop_last() =~= args@.subrange(0, i as int));
            }
            let x = args[i];
            if i == 0 {
                m = x;
                proof {
                    if f != 0 {
                        assert(seq_max(args@.subrange(0, 0)) == 0);
                    }
                }
            } else if f == 0 {
                if x < m {
                    m = x;
                }
            } else if x > m {
                m = x;
            }
            i = i + 1;
        }
        proof {
            assert(args@.subrange(0, args@.len() as int) =~= args@);
        }
        m
    }
}

/// The variable-length integer at the start of `r`.
pub open spec fn varint_at(r: Seq<u8>) -> nat {
    if r.len() == 0 {
        0
    } else {
        let n = varint_length_spec(r[0]);
        let end = if 1 + n > r.len() { r.len() } else { 1 + n };
        varint_spec(r[0], r.subrange(1, end as int))
    }
}

pub open spec fn sat(x: int) -> u64 {
    if x > u64::MAX {
        u64::MAX
    } else if x < 0 {
        0
    } else {
        x as u64
    }
}

/// Number of bytes that follow the first byte of a variable-length
/// integer whose first byte is `b`.
pub open spec fn varint_length_spec(b: u8) -> nat {
    (pow2((b / 64) as nat) - 1) as nat
}

/// Value of a variable-length integer: the low six bits of the first byte,
/// then each further byte shifted in (bits shifted past 64 are lost).
pub open spec fn varint_spec(first: u8, rest: Seq<u8>) -> nat
    decreases rest.len(),
{
    if rest.len() == 0 {
        (first % 64) as nat
    } else {
        (varint_spec(first, rest.drop_last()) % pow2(56)) * 256 + rest.last() as nat
    }
}

/// The value of `e`, given the values of the fields before it (zero for
/// non-primitive ones) and their bytes (empty for fixed-size ones).
pub open spec fn eval<F: LengthFunctions>(e: Expr, vals: Seq<u64>, regions: Seq<Seq<u8>>, c: F) -> u64
    decreases e, 0nat,
{
    match e {
        Expr::Lit(n) => n,
        Expr::Field(j) => if j < vals.len() { vals[j as int] } else { 0 },
        Expr::Len(j) => if j < regions.len() { sat(regions[j as int].len() as int) } else { 0 },
        Expr::Add(a, b) => sat(eval(*a, vals, regions, c) + eval(*b, vals, regions, c)),
        Expr::Sub(a, b) => sat(eval(*a, vals, regions, c) - eval(*b, vals, regions, c)),
        Expr::Mul(a, b) => sat(eval(*a, vals, regions, c) * eval(*b, vals, regions, c)),
        Expr::Div(a, b) => {
            let d = eval(*b, vals, regions, c);
            if d == 0 { 0 } else { eval(*a, vals, regions, c) / d }
        },
        Expr::Rem(a, b) => {
            let d = eval(*b, vals, regions, c);
            if d == 0 { 0 } else { eval(*a, vals, regions, c) % d }
        },
        Expr::Or(a, b) => eval(*a, vals, regions, c) | eval(*b, vals, regions, c),
        Expr::VarintLength(a) => varint_length_spec((eval(*a, vals, regions, c) % 256) as u8) as u64,
        Expr::Varint(j, k) => {
            let first = if j < vals.len() { (vals[j as int] % 256) as u8 } else { 0 };
            let rest = if k < regions.len() { regions[k as int] } else { Seq::empty() };
            varint_spec(first, rest) as u64
        },
        Expr::Eq(a, b) => if eval(*a, vals, regions, c) == eval(*b, vals, regions, c) { 1 } else { 0 },
        Expr::And(a, b) => eval(*a, vals, regions, c) & eval(*b, vals, regions, c),
        Expr::VarintAt(j) => if j < regions.len() { varint_at(regions[j as int]) as u64 } else { 0 },
        Expr::Call(f, a) => c.call_value(
            f as nat,
            match a {
                Some(b) => args_of(*b, vals, regions, c),
                None => Seq::empty(),
            },
        ),
        Expr::Comma(_, b) => eval(*b, vals, regions, c),
    }
}

/// The values of the arguments of a call, left to right.
pub open spec fn args_of<F: LengthFunctions>(e: Expr, vals: Seq<u64>, regions: Seq<Seq<u8>>, c: F) -> Seq<u64>
    decreases e, 1nat,
{
    match e {
        Expr::Comma(a, b) => args_of(*a, vals, regions, c) + args_of(*b, vals, regions, c),
        _ => seq![eval(e, vals, regions, c)],
    }
}


/// Every field position in `e` is below `k`.
pub open spec fn refers_below(e: Expr, k: nat) -> bool
    decreases e,
{
    match e {
        Expr::Lit(_) => true,
        Expr::Field(j) => j < k,
        Expr::Len(j) => j < k,
        Expr::Add(a, b) => refers_below(*a, k) && refers_below(*b, k),
        Expr::Sub(a, b) => refers_below(*a, k) && refers_below(*b, k),
        Expr::Mul(a, b) => refers_below(*a, k) && refers_below(*b, k),
        Expr::Div(a, b) => refers_below(*a, k) && refers_below(*b, k),
        Expr::Rem(a, b) => refers_below(*a, k) && refers_below(*b, k),
        Expr::Or(a, b) => refers_below(*a, k) && refers_below(*b, k),
        Expr::VarintLength(a) => refers_below(*a, k),
        Expr::Varint(j, l) => j < k && l < k,
        Expr::Eq(a, b) => refers_below(*a, k) && refers_below(*b, k),
        Expr::And(a, b) => refers_below(*a, k) && refers_below(*b, k),
        Expr::VarintAt(j) => j < k,
        Expr::Call(_, a) => match a {
            Some(b) => refers_below(*b, k),
            None => true,
        },
        Expr::Comma(a, b) => refers_below(*a, k) && refers_below(*b, k),
    }
}

/// The number of bytes after the first byte of a QUIC variable-length
/// integer: 0, 1, 3 or 7, chosen by the top two bits.
pub fn varint_length(first_byte: u8) -> (r: usize)
    ensures
        r as nat == varint_length_spec(first_byte),
{
    let prefix = first_byte >> 6;
    proof {
        assert(prefix == first_byte / 64) by (bit_vector)
            requires
                prefix == first_byte >> 6,
        ;
        lemma2_to64();
    }
    if prefix == 0 {
        0
    } else if prefix == 1 {
        1
    } else if prefix == 2 {
        3
    } else {
        7
    }
}

/// The value of a QUIC variable-length integer from its first byte and the
/// bytes that follow it.
pub fn varint(first_byte: u8, rest: &[u8]) -> (r: usize)
    ensures
        r == varint_spec(first_byte, rest@) as u64 as usize,
{
    let length = varint_u64(first_byte, rest);
    #[verifier::truncate]
    (length as usize)
}

fn varint_u64(first_byte: u8, rest: &[u8]) -> (r: u64)
    ensures
        r as nat == varint_spec(first_byte, rest@),
{
    let mut length: u64 = (first_byte % 64) as u64;
    let mut i: usize = 0;
    proof {
        lemma2_to64();
        lemma2_to64_rest();
    }
    while i < rest.len()
        invariant
            i <= rest@.len(),
            length as nat == varint_spec(first_byte, rest@.subrange(0, i as int)),
            pow2(56) == 0x100000000000000,
        decreases rest.len() - i,
    {
        proof {
            assert(rest@.subrange(0, i + 1).drop_last() =~= rest@.subrange(0, i as int));
        }
        length = (length % 0x100000000000000) * 256 + rest[i] as u64;
        i = i + 1;
    }
    proof {
        assert(rest@.subrange(0, rest@.len() as int) =~= rest@);
    }
    length
}

/// The big-endian value of up to eight bytes of a packet number.
pub fn packet_number(bytes: &[u8]) -> (r: u64)
    requires
        bytes@.len() <= 8,
    ensures
        r as nat == be_nat(bytes@),
{
    let mut acc: u64 = 0;
    let mut i: usize = 0;
    proof {
        lemma2_to64();
        lemma2_to64_rest();
    }
    while i < bytes.len()
        invariant
            i <= bytes@.len() <= 8,
            acc as nat == be_nat(bytes@.subrange(0, i as int)),
            acc < pow2(8 * i as nat),
        decreases bytes.len() - i,
    {
        proof {
            assert(bytes@.subrange(0, i + 1).drop_last() =~= bytes@.subrange(0, i as int));
            lemma2_to64();
            lemma2_to64_rest();
            lemma_pow2_adds(8 * i as nat, 8);
            assert(8 * (i + 1) as nat == 8 * i as nat + 8);
            if i < 7 {
                lemma_pow2_strictly_increases(8 * i as nat, 56);
            }
            let a = acc as nat;
            let b = pow2(8 * i as nat);
            assert(a * 256 + 255 < b * 256) by (nonlinear_arith)
                requires
                    a < b,
            ;
            assert(b * 256 <= 0x100000000000000 * 256) by (nonlinear_arith)
                requires
                    b <= 0x100000000000000,
            ;
        }
        acc = acc * 256 + bytes[i] as u64;
        i = i + 1;
    }
    proof {
        assert(bytes@.subrange(0, bytes@.len() as int) =~= bytes@);
    }
    acc
}

/// Evaluates a length expression, as `eval` states it.
pub fn eval_expr<F: LengthFunctions>(e: &Expr, vals: &Vec<u64>, regions: &Vec<Vec<u8>>, funcs: &F) -> (r: u64)
    ensures
        r == eval(*e, vals@, regions@.map_values(|v: Vec<u8>| v@), *funcs),
    decreases e, 0nat,
{
    let ghost rs = regions@.map_values(|v: Vec<u8>| v@);
    match e {
        Expr::Lit(n) => *n,
        Expr::Field(j) => if *j < vals.len() { vals[*j] } else { 0 },
        Expr::Len(j) => if *j < regions.len() { regions[*j].len() as u64 } else { 0 },
        Expr::Add(a, b) => {
            let x = eval_expr(a, vals, regions, funcs);
            let y = eval_expr(b, vals, regions, funcs);
            x.saturating_add(y)
        },
        Expr::Sub(a, b) => {
            let x = eval_expr(a, vals, regions, funcs);
            let y = eval_expr(b, vals, regions, funcs);
            x.saturating_sub(y)
        },
        Expr::Mul(a, b) => {
            let x = eval_expr(a, vals, regions, funcs);
            let y = eval_expr(b, vals, regions, funcs);
            match x.checked_mul(y) {
                Some(v) => v,
                None => u64::MAX,
            }
        },
        Expr::Div(a, b) => {
            let x = eval_expr(a, vals, regions, funcs);
            let y = eval_expr(b, vals, regions, funcs);
            if y == 0 { 0 } else { x / y }
        },
        Expr::Rem(a, b) => {
            let x = eval_expr(a, vals, regions, funcs);
            let y = eval_expr(b, vals, regions, funcs);
            if y == 0 { 0 } else { x % y }
        },
        Expr::Or(a, b) => {
            let x = eval_expr(a, vals, regions, funcs);
            let y = eval_expr(b, vals, regions, funcs);
            x | y
        },
        Expr::VarintLength(a) => {
            let x = eval_expr(a, vals, regions, funcs);
            varint_length((x % 256) as u8) as u64
        },
        Expr::Varint(j, k) => {
            let first: u8 = if *j < vals.len() { (vals[*j] % 256) as u8 } else { 0 };
            let empty: Vec<u8> = Vec::new();
            let rest: &Vec<u8> = if *k < regions.len() { &regions[*k] } else { &empty };
            proof {
                assert(rest@ == (if *k < rs.len() { rs[*k as int] } else { Seq::<u8>::empty() }));
            }
            varint_u64(first, rest.as_slice())
        },
        Expr::Eq(a, b) => {
            let x = eval_expr(a, vals, regions, funcs);
            let y = eval_expr(b, vals, regions, funcs);
            if x == y { 1 } else { 0 }
        },
        Expr::And(a, b) => {
            let x = eval_expr(a, vals, regions, funcs);
            let y = eval_expr(b, vals, regions, funcs);
            x & y
        },
        Expr::VarintAt(j) => {
            if *j < regions.len() {
                let r = &regions[*j];
                if r.len() == 0 {
                    0
                } else {
                    let n = varint_length(r[0]);
                    let end = if n >= r.len() - 1 { r.len() } else { 1 + n };
                    varint_u64(r[0], slice_subrange(r.as_slice(), 1, end))
                }
            } else {
                0
            }
        },
        Expr::Call(f, a) => {
            let args: Vec<u64> = match a {
                Some(b) => args_exec(b, vals, regions, funcs),
                None => Vec::new(),
            };
            funcs.call(*f, args.as_slice())
        },
        Expr::Comma(_, b) => eval_expr(b, vals, regions, funcs),
    }
}

/// The values of the arguments of a call, as `args_of` states.
fn args_exec<F: LengthFunctions>(e: &Expr, vals: &Vec<u64>, regions: &Vec<Vec<u8>>, funcs: &F) -> (r: Vec<u64>)
    ensures
        r@ == args_of(*e, vals@, regions@.map_values(|v: Vec<u8>| v@), *funcs),
    decreases e, 1nat,
{
    match e {
        Expr::Comma(a, b) => {
            let mut x = args_exec(a, vals, regions, funcs);
            let mut y = args_exec(b, vals, regions, funcs);
            x.append(&mut y);
            x
        },
        _ => {
            let v = eval_expr(e, vals, regions, funcs);
            let mut out: Vec<u64> = Vec::new();
            out.push(v);
            proof {
                assert(out@ =~= seq![v]);
            }
            out
        },
    }
}

} // verus!
