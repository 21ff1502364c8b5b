//! Translating the text of a length expression into an `Expr`.
//!
//! The grammar is restricted arithmetic: names of earlier fields, unsigned
//! integer literals, `+ - * / % |` and parentheses, with Rust's precedence
//! (`|` binds loosest, then `+ -`, then `* / %`). Each name becomes a read
//! of that field; nothing is evaluated here. Any other name is a call of
//! one of the layout's `LengthFunctions`, with an optional parenthesised
//! list of arguments separated by commas; it stays a call node, evaluated
//! only when the layout reads the packet. Literals are read as Rust writes
//! unsigned integers (`16`, `0x10`, `1_000`, `4usize`); any other literal
//! (`2.5`, a quoted string) is refused.
use crate::expr::{refers_below, Expr, LengthFunctions};
use crate::schema::SchemaError;
use vstd::arithmetic::power2::{lemma2_to64, pow2};
use vstd::prelude::*;
use vstd::string::*;

verus! {

pub open spec fn is_alpha(c: char) -> bool {
    ('a' <= c <= 'z') || ('A' <= c <= 'Z') || c == '_'
}

pub open spec fn is_dec(c: char) -> bool {
    '0' <= c <= '9'
}

pub open spec fn is_operator(c: char) -> bool {
    c == '+' || c == '-' || c == '*' || c == '/' || c == '%' || c == '|' || c == '(' || c == ')'
}

/// The characters a length expression may hold: besides names, digits,
/// operators, commas and spaces, the dots and quotes that other literals
/// are written with (such literals are refused as `InvalidLengthLiteral`).
pub open spec fn allowed(c: char) -> bool {
    is_alpha(c) || is_dec(c) || is_operator(c) || c == ' ' || c == ',' || c == '.' || c == '"' || c == '\''
}

/// An error of the parse proper, for the field at `field`.
pub open spec fn is_parse_error(e: SchemaError, field: usize) -> bool {
    e == SchemaError::InvalidLengthLiteral(field) || e == SchemaError::UnknownLengthName(field) || e
        == SchemaError::MalformedLength(field)
}

/// The first position at or after `i` that does not hold a space.
pub open spec fn skip(cs: Seq<char>, i: int) -> int
    decreases cs.len() - i,
{
    if 0 <= i < cs.len() && cs[i] == ' ' {
        skip(cs, i + 1)
    } else {
        i
    }
}

pub open spec fn is_word_char(c: char) -> bool {
    is_alpha(c) || is_dec(c)
}

/// The end of the run of name characters (with `dots`, literal
/// characters) that starts at `i`.
pub open spec fn run_end(cs: Seq<char>, i: int, dots: bool) -> int
    decreases cs.len() - i,
{
    if 0 <= i < cs.len() && (is_word_char(cs[i]) || (dots && cs[i] == '.')) {
        run_end(cs, i + 1, dots)
    } else {
        i
    }
}

/// The first of fields `j..f` named `w`.
pub open spec fn find_name(ns: Seq<Seq<char>>, f: nat, w: Seq<char>, j: nat) -> Option<nat>
    decreases f - j,
{
    if j >= f || j >= ns.len() {
        None
    } else if ns[j as int] == w {
        Some(j)
    } else {
        find_name(ns, f, w, j + 1)
    }
}

/// The value of a digit in bases up to 16; 99 for any other character.
pub open spec fn digit_val(c: char) -> nat {
    if '0' <= c <= '9' {
        (c as nat - '0' as nat) as nat
    } else if 'a' <= c <= 'f' {
        (c as nat - 'a' as nat + 10) as nat
    } else if 'A' <= c <= 'F' {
        (c as nat - 'A' as nat + 10) as nat
    } else {
        99
    }
}

pub open spec fn ends_with(w: Seq<char>, t: Seq<char>) -> bool {
    t.len() <= w.len() && w.subrange(w.len() - t.len(), w.len() as int) == t
}

/// The length of the unsigned type suffix that `w` ends with, and the
/// number of bits that type holds (at most 64, the width of a length);
/// no suffix bounds the value by 64 bits.
pub open spec fn suffix_of(w: Seq<char>) -> (nat, nat) {
    if ends_with(w, seq!['u', '1', '2', '8']) {
        (4, 64)
    } else if ends_with(w, seq!['u', 's', 'i', 'z', 'e']) {
        (5, 64)
    } else if ends_with(w, seq!['u', '6', '4']) {
        (3, 64)
    } else if ends_with(w, seq!['u', '3', '2']) {
        (3, 32)
    } else if ends_with(w, seq!['u', '1', '6']) {
        (3, 16)
    } else if ends_with(w, seq!['u', '8']) {
        (2, 8)
    } else {
        (0, 64)
    }
}

/// The base a literal body is written in: `0x`, `0o` and `0b` prefixes,
/// else decimal.
pub open spec fn lit_base(b: Seq<char>) -> nat {
    if b.len() >= 2 && b[0] == '0' && b[1] == 'x' {
        16
    } else if b.len() >= 2 && b[0] == '0' && b[1] == 'o' {
        8
    } else if b.len() >= 2 && b[0] == '0' && b[1] == 'b' {
        2
    } else {
        10
    }
}

/// The digits of a literal body, after its base prefix.
pub open spec fn lit_digits(b: Seq<char>) -> Seq<char> {
    if lit_base(b) == 10 {
        b
    } else {
        b.subrange(2, b.len() as int)
    }
}

/// Every character is a digit of `base` or an underscore.
pub open spec fn digits_ok(d: Seq<char>, base: nat) -> bool {
    forall|i: int| 0 <= i < d.len() ==> (d[i] == '_' || digit_val(#[trigger] d[i]) < base)
}

/// Some character is not an underscore.
pub open spec fn has_digit(d: Seq<char>) -> bool
    decreases d.len(),
{
    d.len() > 0 && (d.last() != '_' || has_digit(d.drop_last()))
}

/// The number the digits write in `base`, underscores aside.
pub open spec fn digits_value(d: Seq<char>, base: nat) -> nat
    decreases d.len(),
{
    if d.len() == 0 {
        0
    } else if d.last() == '_' {
        digits_value(d.drop_last(), base)
    } else {
        digits_value(d.drop_last(), base) * base + digit_val(d.last())
    }
}

/// The value of an unsigned integer literal as Rust writes it: decimal,
/// or hexadecimal, octal or binary after `0x`, `0o` or `0b`, with
/// underscores between digits and an optional unsigned type suffix; the
/// value must fit the suffix's type and 64 bits.
#[verifier::opaque]
pub open spec fn int_literal(w: Seq<char>) -> Option<nat> {
    let (sl, bits) = suffix_of(w);
    let b = w.subrange(0, w.len() - sl);
    let base = lit_base(b);
    let d = lit_digits(b);
    if digits_ok(d, base) && has_digit(d) && digits_value(d, base) < pow2(bits) {
        Some(digits_value(d, base))
    } else {
        None
    }
}

/// What the translator makes of an atom at `pos`: the expression and
/// where it ends, or the error. After spaces: `(` opens a parenthesised
/// expression; a digit starts a literal (letters, digits, `_` and `.`),
/// which must be an unsigned integer literal, as `int_literal` reads it; a letter or `_` starts a name, which is
/// one of the first `fld` fields or else a function of `c`, called with
/// the parenthesised arguments that follow, if any; a quote starts a
/// literal that is never an integer.
pub open spec fn p_atom<F: LengthFunctions>(cs: Seq<char>, ns: Seq<Seq<char>>, fld: usize, c: F, pos: int) -> Result<(Expr, int), SchemaError>
    decreases cs.len() - pos, 0nat,
{
    let s = skip(cs, pos);
    if pos < 0 || s < pos || s >= cs.len() {
        Err(SchemaError::MalformedLength(fld))
    } else if cs[s] == '(' {
        match p_or(cs, ns, fld, c, s + 1) {
            Ok((e, p2)) => {
                let p3 = skip(cs, p2);
                if 0 <= p3 < cs.len() && cs[p3] == ')' {
                    Ok((e, p3 + 1))
                } else {
                    Err(SchemaError::MalformedLength(fld))
                }
            },
            Err(x) => Err(x),
        }
    } else if is_dec(cs[s]) {
        let q = run_end(cs, s, true);
        match int_literal(cs.subrange(s, q)) {
            Some(v) => Ok((Expr::Lit(v as u64), q)),
            None => Err(SchemaError::InvalidLengthLiteral(fld)),
        }
    } else if is_alpha(cs[s]) {
        let q = run_end(cs, s, false);
        match find_name(ns, fld as nat, cs.subrange(s, q), 0) {
            Some(j) => Ok((Expr::Field(j as usize), q)),
            None => match c.index_of(cs.subrange(s, q)) {
                Some(i) => {
                    let t = skip(cs, q);
                    if i > usize::MAX {
                        Err(SchemaError::UnknownLengthName(fld))
                    } else if s < q <= t < cs.len() && cs[t] == '(' {
                        let u = skip(cs, t + 1);
                        if t < u < cs.len() && cs[u] == ')' {
                            Ok((Expr::Call(i as usize, None), u + 1))
                        } else {
                            match p_args(cs, ns, fld, c, t + 1) {
                                Ok((a, p2)) => {
                                    let p3 = skip(cs, p2);
                                    if 0 <= p3 < cs.len() && cs[p3] == ')' {
                                        Ok((Expr::Call(i as usize, Some(Box::new(a))), p3 + 1))
                                    } else {
                                        Err(SchemaError::MalformedLength(fld))
                                    }
                                },
                                Err(x) => Err(x),
                            }
                        }
                    } else {
                        Ok((Expr::Call(i as usize, None), q))
                    }
                },
                None => Err(SchemaError::UnknownLengthName(fld)),
            },
        }
    } else if cs[s] == '"' || cs[s] == '\'' {
        Err(SchemaError::InvalidLengthLiteral(fld))
    } else {
        Err(SchemaError::MalformedLength(fld))
    }
}

/// Products: an atom at `pos`, then the rest of the chain.
pub open spec fn p_mul<F: LengthFunctions>(cs: Seq<char>, ns: Seq<Seq<char>>, fld: usize, c: F, pos: int) -> Result<(Expr, int), SchemaError>
    decreases cs.len() - pos, 1nat,
{
    match p_atom(cs, ns, fld, c, pos) {
        Ok((e, p)) => if pos < p <= cs.len() {
            p_mul_tail(cs, ns, fld, c, e, p)
        } else {
            Err(SchemaError::MalformedLength(fld))
        },
        Err(x) => Err(x),
    }
}

/// The rest of a product after `e`, which ends at `p`: each `* / %` and
/// atom joins it on the left.
pub open spec fn p_mul_tail<F: LengthFunctions>(cs: Seq<char>, ns: Seq<Seq<char>>, fld: usize, c: F, e: Expr, p: int) -> Result<(Expr, int), SchemaError>
    decreases cs.len() - p, 1nat,
{
    let q = skip(cs, p);
    if q >= p && 0 <= q < cs.len() && (cs[q] == '*' || cs[q] == '/' || cs[q] == '%') {
        match p_atom(cs, ns, fld, c, q + 1) {
            Ok((b, p2)) => if p < p2 <= cs.len() {
                p_mul_tail(
                    cs,
                    ns,
                    fld,
                    c,
                    if cs[q] == '*' {
                        Expr::Mul(Box::new(e), Box::new(b))
                    } else if cs[q] == '/' {
                        Expr::Div(Box::new(e), Box::new(b))
                    } else {
                        Expr::Rem(Box::new(e), Box::new(b))
                    },
                    p2,
                )
            } else {
                Err(SchemaError::MalformedLength(fld))
            },
            Err(x) => Err(x),
        }
    } else {
        Ok((e, p))
    }
}

/// Sums: a product at `pos`, then the rest of the chain.
pub open spec fn p_add<F: LengthFunctions>(cs: Seq<char>, ns: Seq<Seq<char>>, fld: usize, c: F, pos: int) -> Result<(Expr, int), SchemaError>
    decreases cs.len() - pos, 2nat,
{
    match p_mul(cs, ns, fld, c, pos) {
        Ok((e, p)) => if pos < p <= cs.len() {
            p_add_tail(cs, ns, fld, c, e, p)
        } else {
            Err(SchemaError::MalformedLength(fld))
        },
        Err(x) => Err(x),
    }
}

/// The rest of a sum after `e`, which ends at `p`.
pub open spec fn p_add_tail<F: LengthFunctions>(cs: Seq<char>, ns: Seq<Seq<char>>, fld: usize, c: F, e: Expr, p: int) -> Result<(Expr, int), SchemaError>
    decreases cs.len() - p, 2nat,
{
    let q = skip(cs, p);
    if q >= p && 0 <= q < cs.len() && (cs[q] == '+' || cs[q] == '-') {
        match p_mul(cs, ns, fld, c, q + 1) {
            Ok((b, p2)) => if p < p2 <= cs.len() {
                p_add_tail(
                    cs,
                    ns,
                    fld,
                    c,
                    if cs[q] == '+' {
                        Expr::Add(Box::new(e), Box::new(b))
                    } else {
                        Expr::Sub(Box::new(e), Box::new(b))
                    },
                    p2,
                )
            } else {
                Err(SchemaError::MalformedLength(fld))
            },
            Err(x) => Err(x),
        }
    } else {
        Ok((e, p))
    }
}

/// Expressions: a sum at `pos`, then the rest of the chain.
pub open spec fn p_or<F: LengthFunctions>(cs: Seq<char>, ns: Seq<Seq<char>>, fld: usize, c: F, pos: int) -> Result<(Expr, int), SchemaError>
    decreases cs.len() - pos, 3nat,
{
    match p_add(cs, ns, fld, c, pos) {
        Ok((e, p)) => if pos < p <= cs.len() {
            p_or_tail(cs, ns, fld, c, e, p)
        } else {
            Err(SchemaError::MalformedLength(fld))
        },
        Err(x) => Err(x),
    }
}

/// The rest of an expression after `e`, which ends at `p`.
pub open spec fn p_or_tail<F: LengthFunctions>(cs: Seq<char>, ns: Seq<Seq<char>>, fld: usize, c: F, e: Expr, p: int) -> Result<(Expr, int), SchemaError>
    decreases cs.len() - p, 3nat,
{
    let q = skip(cs, p);
    if q >= p && 0 <= q < cs.len() && cs[q] == '|' {
        match p_add(cs, ns, fld, c, q + 1) {
            Ok((b, p2)) => if p < p2 <= cs.len() {
                p_or_tail(cs, ns, fld, c, Expr::Or(Box::new(e), Box::new(b)), p2)
            } else {
                Err(SchemaError::MalformedLength(fld))
            },
            Err(x) => Err(x),
        }
    } else {
        Ok((e, p))
    }
}

/// Arguments of a call: expressions at `pos` separated by commas.
pub open spec fn p_args<F: LengthFunctions>(cs: Seq<char>, ns: Seq<Seq<char>>, fld: usize, c: F, pos: int) -> Result<(Expr, int), SchemaError>
    decreases cs.len() - pos, 4nat,
{
    match p_or(cs, ns, fld, c, pos) {
        Ok((e, p)) => if pos < p <= cs.len() {
            p_args_tail(cs, ns, fld, c, e, p)
        } else {
            Err(SchemaError::MalformedLength(fld))
        },
        Err(x) => Err(x),
    }
}

/// The rest of an argument list after `e`, which ends at `p`.
pub open spec fn p_args_tail<F: LengthFunctions>(cs: Seq<char>, ns: Seq<Seq<char>>, fld: usize, c: F, e: Expr, p: int) -> Result<(Expr, int), SchemaError>
    decreases cs.len() - p, 4nat,
{
    let q = skip(cs, p);
    if q >= p && 0 <= q < cs.len() && cs[q] == ',' {
        match p_or(cs, ns, fld, c, q + 1) {
            Ok((b, p2)) => if p < p2 <= cs.len() {
                p_args_tail(cs, ns, fld, c, Expr::Comma(Box::new(e), Box::new(b)), p2)
            } else {
                Err(SchemaError::MalformedLength(fld))
            },
            Err(x) => Err(x),
        }
    } else {
        Ok((e, p))
    }
}

/// What the translator makes of a whole text: `NonIntegerLengthToken` for
/// a character outside the grammar, else the expression, which must run to
/// the end (trailing spaces aside).
pub open spec fn translation<F: LengthFunctions>(cs: Seq<char>, ns: Seq<Seq<char>>, fld: usize, c: F) -> Result<Expr, SchemaError> {
    if exists|i: int| 0 <= i < cs.len() && !allowed(#[trigger] cs[i]) {
        Err(SchemaError::NonIntegerLengthToken(fld))
    } else {
        match p_or(cs, ns, fld, c, 0) {
            Ok((e, p)) => if skip(cs, p) == cs.len() {
                Ok(e)
            } else {
                Err(SchemaError::MalformedLength(fld))
            },
            Err(x) => Err(x),
        }
    }
}

/// An executable result that agrees with a spec result.
pub open spec fn agrees(r: Result<(Expr, usize), SchemaError>, s: Result<(Expr, int), SchemaError>) -> bool {
    match r {
        Ok((e, p)) => s == Ok::<(Expr, int), SchemaError>((e, p as int)),
        Err(x) => s == Err::<(Expr, int), SchemaError>(x),
    }
}

/// The names as character sequences.
pub open spec fn name_seqs(names: Seq<String>) -> Seq<Seq<char>> {
    names.map_values(|n: String| n@)
}

proof fn lemma_skip(cs: Seq<char>, i: int)
    requires
        0 <= i <= cs.len(),
    ensures
        i <= skip(cs, i) <= cs.len(),
        forall|k: int| i <= k < skip(cs, i) ==> cs[k] == ' ',
        skip(cs, i) < cs.len() ==> cs[skip(cs, i)] != ' ',
    decreases cs.len() - i,
{
    if i < cs.len() && cs[i] == ' ' {
        lemma_skip(cs, i + 1);
    }
}

fn chars_of(s: &str) -> (r: Vec<char>)
    ensures
        r@ == s@,
{
    let n = s.unicode_len();
    let mut out: Vec<char> = Vec::new();
    let mut i: usize = 0;
    while i < n
        invariant
            i <= n == s@.len(),
            out@ == s@.subrange(0, i as int),
        decreases n - i,
    {
        out.push(s.get_char(i));
        proof {
            assert(out@ =~= s@.subrange(0, i + 1));
        }
        i = i + 1;
    }
    out
}

fn is_alpha_exec(c: char) -> (r: bool)
    ensures
        r == is_alpha(c),
{
    ('a' <= c && c <= 'z') || ('A' <= c && c <= 'Z') || c == '_'
}

fn is_dec_exec(c: char) -> (r: bool)
    ensures
        r == is_dec(c),
{
    '0' <= c && c <= '9'
}

fn skip_spaces(cs: &Vec<char>, pos: usize) -> (r: usize)
    requires
        pos <= cs@.len(),
    ensures
        r == skip(cs@, pos as int),
        pos <= r <= cs@.len(),
{
    proof {
        lemma_skip(cs@, pos as int);
    }
    let mut p: usize = pos;
    while p < cs.len() && cs[p] == ' '
        invariant
            pos <= p <= cs@.len(),
            skip(cs@, p as int) == skip(cs@, pos as int),
        decreases cs@.len() - p,
    {
        p = p + 1;
    }
    p
}

/// Whether characters `p..q` of `cs` spell `name`.
fn spells(cs: &Vec<char>, p: usize, q: usize, name: &String) -> (r: bool)
    requires
        p <= q <= cs@.len(),
    ensures
        r == (cs@.subrange(p as int, q as int) == name@),
{
    let s = name.as_str();
    let n = s.unicode_len();
    if n != q - p {
        proof {
            assert(cs@.subrange(p as int, q as int).len() != name@.len());
        }
        return false;
    }
    let mut i: usize = 0;
    while i < n
        invariant
            p <= q <= cs@.len(),
            n == q - p == name@.len(),
            s@ == name@,
            i <= n,
            forall|j: int| 0 <= j < i ==> cs@[p + j] == name@[j],
        decreases n - i,
    {
        if cs[p + i] != s.get_char(i) {
            proof {
                assert(cs@.subrange(p as int, q as int)[i as int] != name@[i as int]);
            }
            return false;
        }
        i = i + 1;
    }
    proof {
        assert(cs@.subrange(p as int, q as int) =~= name@);
    }
    true
}

/// The end of the run of name characters (with `dots`, literal
/// characters) from `i`, as `run_end` states.
fn run_end_exec(cs: &Vec<char>, i: usize, dots: bool) -> (r: usize)
    requires
        i <= cs@.len(),
    ensures
        r as int == run_end(cs@, i as int, dots),
        i <= r <= cs@.len(),
        forall|k: int| i <= k < r ==> is_word_char(#[trigger] cs@[k]) || (dots && cs@[k] == '.'),
        r < cs@.len() ==> !(is_word_char(cs@[r as int]) || (dots && cs@[r as int] == '.')),
{
    let mut q: usize = i;
    while q < cs.len() && (is_alpha_exec(cs[q]) || is_dec_exec(cs[q]) || (dots && cs[q] == '.'))
        invariant
            i <= q <= cs@.len(),
            run_end(cs@, q as int, dots) == run_end(cs@, i as int, dots),
            forall|k: int| i <= k < q ==> is_word_char(#[trigger] cs@[k]) || (dots && cs@[k] == '.'),
        decreases cs@.len() - q,
    {
        q = q + 1;
    }
    q
}

/// The value of a digit, as `digit_val` states.
fn digit_val_exec(c: char) -> (r: u64)
    ensures
        r as nat == digit_val(c),
{
    if '0' <= c && c <= '9' {
        (c as u32 - '0' as u32) as u64
    } else if 'a' <= c && c <= 'f' {
        (c as u32 - 'a' as u32 + 10) as u64
    } else if 'A' <= c && c <= 'F' {
        (c as u32 - 'A' as u32 + 10) as u64
    } else {
        99
    }
}

/// Whether characters `p..q` of `cs` end with `t`.
fn ends_with_exec(cs: &Vec<char>, p: usize, q: usize, t: &Vec<char>) -> (r: bool)
    requires
        p <= q <= cs@.len(),
    ensures
        r == ends_with(cs@.subrange(p as int, q as int), t@),
{
    let ghost w = cs@.subrange(p as int, q as int);
    let tl = t.len();
    if tl > q - p {
        return false;
    }
    let mut j: usize = 0;
    while j < tl
        invariant
            p <= q <= cs@.len(),
            tl == t@.len(),
            tl <= q - p,
            w == cs@.subrange(p as int, q as int),
            j <= tl,
            forall|k: int| 0 <= k < j ==> cs@[q - tl + k] == t@[k],
        decreases tl - j,
    {
        if cs[q - tl + j] != t[j] {
            proof {
                assert(w.subrange(w.len() - tl, w.len() as int)[j as int] != t@[j as int]);
            }
            return false;
        }
        j = j + 1;
    }
    proof {
        assert(w.subrange(w.len() - tl, w.len() as int) =~= t@);
    }
    true
}

/// A longer prefix of valid digits never writes a smaller number.
proof fn lemma_digits_grow(d: Seq<char>, base: nat, k: nat)
    requires
        k <= d.len(),
        digits_ok(d, base),
    ensures
        digits_value(d.subrange(0, k as int), base) <= digits_value(d, base),
    decreases d.len() - k,
{
    if k < d.len() {
        lemma_digits_grow(d, base, k + 1);
        let pre = d.subrange(0, (k + 1) as int);
        assert(pre.drop_last() =~= d.subrange(0, k as int));
        let a = digits_value(d.subrange(0, k as int), base);
        if d[k as int] != '_' {
            assert(digit_val(d[k as int]) < base);
            assert(a <= a * base + digit_val(d[k as int])) by (nonlinear_arith)
                requires
                    base >= 1,
            ;
        }
    } else {
        assert(d.subrange(0, k as int) =~= d);
    }
}

/// The value of the literal in characters `p..q`, as `int_literal` states.
fn int_literal_exec(cs: &Vec<char>, p: usize, q: usize) -> (r: Option<u64>)
    requires
        p <= q <= cs@.len(),
    ensures
        match r {
            Some(v) => int_literal(cs@.subrange(p as int, q as int)) == Some(v as nat),
            None => int_literal(cs@.subrange(p as int, q as int)) is None,
        },
{
    reveal(int_literal);
    let ghost w = cs@.subrange(p as int, q as int);
    let (sl, bits): (usize, u32) = if ends_with_exec(cs, p, q, &vec!['u', '1', '2', '8']) {
        (4, 64)
    } else if ends_with_exec(cs, p, q, &vec!['u', 's', 'i', 'z', 'e']) {
        (5, 64)
    } else if ends_with_exec(cs, p, q, &vec!['u', '6', '4']) {
        (3, 64)
    } else if ends_with_exec(cs, p, q, &vec!['u', '3', '2']) {
        (3, 32)
    } else if ends_with_exec(cs, p, q, &vec!['u', '1', '6']) {
        (3, 16)
    } else if ends_with_exec(cs, p, q, &vec!['u', '8']) {
        (2, 8)
    } else {
        (0, 64)
    };
    proof {
        assert(suffix_of(w) == (sl as nat, bits as nat));
    }
    let e = q - sl;
    let ghost b = cs@.subrange(p as int, e as int);
    proof {
        assert(w.subrange(0, w.len() - sl) =~= b);
    }
    let base: u64 = if e - p >= 2 && cs[p] == '0' && cs[p + 1] == 'x' {
        16
    } else if e - p >= 2 && cs[p] == '0' && cs[p + 1] == 'o' {
        8
    } else if e - p >= 2 && cs[p] == '0' && cs[p + 1] == 'b' {
        2
    } else {
        10
    };
    let d0: usize = if base == 10 { p } else { p + 2 };
    let ghost d = cs@.subrange(d0 as int, e as int);
    proof {
        assert(lit_base(b) == base as nat);
        assert(lit_digits(b) =~= d);
    }
    let mut v: u64 = 0;
    let mut seen = false;
    let mut i: usize = d0;
    while i < e
        invariant
            p <= d0 <= i <= e <= q <= cs@.len(),
            2 <= base <= 16,
            d == cs@.subrange(d0 as int, e as int),
            w == cs@.subrange(p as int, q as int),
            suffix_of(w) == (sl as nat, bits as nat),
            bits == 8 || bits == 16 || bits == 32 || bits == 64,
            w.subrange(0, w.len() - sl) == b,
            lit_base(b) == base as nat,
            lit_digits(b) == d,
            v as nat == digits_value(cs@.subrange(d0 as int, i as int), base as nat),
            seen == has_digit(cs@.subrange(d0 as int, i as int)),
            digits_ok(cs@.subrange(d0 as int, i as int), base as nat),
        decreases e - i,
    {
        let c = cs[i];
        let ghost pre = cs@.subrange(d0 as int, i + 1);
        proof {
            assert(pre.drop_last() =~= cs@.subrange(d0 as int, i as int));
            assert(pre.last() == c);
        }
        if c != '_' {
            let dv = digit_val_exec(c);
            if dv >= base {
                proof {
                    reveal(int_literal);
                    assert(d[i - d0] == c);
                    assert(!digits_ok(d, base as nat));
                }
                return None;
            }
            if v > (u64::MAX - dv) / base {
                proof {
                    let vi = v as int;
                    let di = dv as int;
                    let bi = base as int;
                    assert(vi * bi + di > u64::MAX) by (nonlinear_arith)
                        requires
                            vi > (u64::MAX - di) / bi,
                            bi >= 2,
                            di < bi,
                    ;
                    lemma2_to64();
                    reveal(int_literal);
                    if digits_ok(d, base as nat) {
                        lemma_digits_grow(d, base as nat, (i + 1 - d0) as nat);
                        assert(d.subrange(0, (i + 1 - d0) as int) =~= pre);
                        if bits < 64 {
                            vstd::arithmetic::power2::lemma_pow2_strictly_increases(bits as nat, 64);
                        }
                    }
                }
                return None;
            }
            proof {
                let vi = v as int;
                let di = dv as int;
                let bi = base as int;
                assert(vi * bi + di <= u64::MAX) by (nonlinear_arith)
                    requires
                        vi <= (u64::MAX - di) / bi,
                        bi >= 2,
                        di < bi,
                ;
            }
            v = v * base + dv;
            seen = true;
        }
        proof {
            assert forall|k: int| 0 <= k < pre.len() implies (pre[k] == '_' || digit_val(#[trigger] pre[k]) < base as nat) by {
                if k < pre.len() - 1 {
                    assert(pre[k] == cs@.subrange(d0 as int, i as int)[k]);
                }
            }
        }
        i = i + 1;
    }
    proof {
        lemma2_to64();
    }
    if !seen {
        return None;
    }
    if bits == 8 && v >= 256 {
        return None;
    }
    if bits == 16 && v >= 65536 {
        return None;
    }
    if bits == 32 && v >= 4294967296 {
        return None;
    }
    Some(v)
}

/// An atom: a literal, a field name or a parenthesised expression.
#[verifier::loop_isolation(false)]
fn parse_atom<F: LengthFunctions>(cs: &Vec<char>, src: &str, pos: usize, names: &Vec<String>, field: usize, funcs: &F) -> (r: Result<(Expr, usize), SchemaError>)
    requires
        pos <= cs@.len(),
        src@ == cs@,
        field <= names@.len(),
    ensures
        agrees(r, p_atom(cs@, name_seqs(names@), field, *funcs, pos as int)),
        r matches Ok((e, p)) ==> pos < p <= cs@.len() && refers_below(e, field as nat),
        r matches Err(x) ==> is_parse_error(x, field),
    decreases cs@.len() - pos, 0nat,
{
    let ghost ns = name_seqs(names@);
    let p = skip_spaces(cs, pos);
    if p >= cs.len() {
        return Err(SchemaError::MalformedLength(field));
    }
    let c = cs[p];
    if c == '(' {
        let (e, p2) = match parse_or(cs, src, p + 1, names, field, funcs) {
            Ok(x) => x,
            Err(x) => return Err(x),
        };
        let p3 = skip_spaces(cs, p2);
        if p3 < cs.len() && cs[p3] == ')' {
            Ok((e, p3 + 1))
        } else {
            Err(SchemaError::MalformedLength(field))
        }
    } else if is_dec_exec(c) {
        let q = run_end_exec(cs, p, true);
        match int_literal_exec(cs, p, q) {
            Some(v) => Ok((Expr::Lit(v), q)),
            None => Err(SchemaError::InvalidLengthLiteral(field)),
        }
    } else if is_alpha_exec(c) {
        let q = run_end_exec(cs, p, false);
        let mut j: usize = 0;
        while j < field
            invariant
                j <= field <= names@.len(),
                pos <= p < q <= cs@.len(),
                ns == name_seqs(names@),
                is_alpha(cs@[p as int]),
                p == skip(cs@, pos as int),
                q as int == run_end(cs@, p as int, false),
                find_name(ns, field as nat, cs@.subrange(p as int, q as int), 0) == find_name(
                    ns,
                    field as nat,
                    cs@.subrange(p as int, q as int),
                    j as nat,
                ),
            decreases field - j,
        {
            if spells(cs, p, q, &names[j]) {
                proof {
                    assert(ns[j as int] == cs@.subrange(p as int, q as int));
                }
                return Ok((Expr::Field(j), q));
            }
            j = j + 1;
        }
        let name = src.substring_char(p, q);
        let i = match funcs.lookup(name) {
            Some(i) => i,
            None => return Err(SchemaError::UnknownLengthName(field)),
        };
        let t = skip_spaces(cs, q);
        if t < cs.len() && cs[t] == '(' {
            let u = skip_spaces(cs, t + 1);
            if u < cs.len() && cs[u] == ')' {
                return Ok((Expr::Call(i, None), u + 1));
            }
            let (a, p2) = match parse_args(cs, src, t + 1, names, field, funcs) {
                Ok(x) => x,
                Err(x) => return Err(x),
            };
            let p3 = skip_spaces(cs, p2);
            if p3 < cs.len() && cs[p3] == ')' {
                Ok((Expr::Call(i, Some(Box::new(a))), p3 + 1))
            } else {
                Err(SchemaError::MalformedLength(field))
            }
        } else {
            Ok((Expr::Call(i, None), q))
        }
    } else if c == '"' || c == '\'' {
        Err(SchemaError::InvalidLengthLiteral(field))
    } else {
        Err(SchemaError::MalformedLength(field))
    }
}

/// Products: atoms joined by `*`, `/` and `%`.
fn parse_mul<F: LengthFunctions>(cs: &Vec<char>, src: &str, pos: usize, names: &Vec<String>, field: usize, funcs: &F) -> (r: Result<(Expr, usize), SchemaError>)
    requires
        pos <= cs@.len(),
        src@ == cs@,
        field <= names@.len(),
    ensures
        agrees(r, p_mul(cs@, name_seqs(names@), field, *funcs, pos as int)),
        r matches Ok((e, p)) ==> pos < p <= cs@.len() && refers_below(e, field as nat),
        r matches Err(x) ==> is_parse_error(x, field),
    decreases cs@.len() - pos, 1nat,
{
    let ghost ns = name_seqs(names@);
    let (mut e, mut p) = match parse_atom(cs, src, pos, names, field, funcs) {
        Ok(x) => x,
        Err(x) => return Err(x),
    };
    loop
        invariant
            pos < p <= cs@.len(),
            src@ == cs@,
            field <= names@.len(),
            ns == name_seqs(names@),
            refers_below(e, field as nat),
            p_mul(cs@, ns, field, *funcs, pos as int) == p_mul_tail(cs@, ns, field, *funcs, e, p as int),
        decreases cs@.len() - p,
    {
        let q = skip_spaces(cs, p);
        if q < cs.len() && (cs[q] == '*' || cs[q] == '/' || cs[q] == '%') {
            let op = cs[q];
            let (rhs, p2) = match parse_atom(cs, src, q + 1, names, field, funcs) {
                Ok(x) => x,
                Err(x) => return Err(x),
            };
            e = if op == '*' {
                Expr::Mul(Box::new(e), Box::new(rhs))
            } else if op == '/' {
                Expr::Div(Box::new(e), Box::new(rhs))
            } else {
                Expr::Rem(Box::new(e), Box::new(rhs))
            };
            p = p2;
        } else {
            return Ok((e, p));
        }
    }
}

/// Sums: products joined by `+` and `-`.
fn parse_add<F: LengthFunctions>(cs: &Vec<char>, src: &str, pos: usize, names: &Vec<String>, field: usize, funcs: &F) -> (r: Result<(Expr, usize), SchemaError>)
    requires
        pos <= cs@.len(),
        src@ == cs@,
        field <= names@.len(),
    ensures
        agrees(r, p_add(cs@, name_seqs(names@), field, *funcs, pos as int)),
        r matches Ok((e, p)) ==> pos < p <= cs@.len() && refers_below(e, field as nat),
        r matches Err(x) ==> is_parse_error(x, field),
    decreases cs@.len() - pos, 2nat,
{
    let ghost ns = name_seqs(names@);
    let (mut e, mut p) = match parse_mul(cs, src, pos, names, field, funcs) {
        Ok(x) => x,
        Err(x) => return Err(x),
    };
    loop
        invariant
            pos < p <= cs@.len(),
            src@ == cs@,
            field <= names@.len(),
            ns == name_seqs(names@),
            refers_below(e, field as nat),
            p_add(cs@, ns, field, *funcs, pos as int) == p_add_tail(cs@, ns, field, *funcs, e, p as int),
        decreases cs@.len() - p,
    {
        let q = skip_spaces(cs, p);
        if q < cs.len() && (cs[q] == '+' || cs[q] == '-') {
            let op = cs[q];
            let (rhs, p2) = match parse_mul(cs, src, q + 1, names, field, funcs) {
                Ok(x) => x,
                Err(x) => return Err(x),
            };
            e = if op == '+' {
                Expr::Add(Box::new(e), Box::new(rhs))
            } else {
                Expr::Sub(Box::new(e), Box::new(rhs))
            };
            p = p2;
        } else {
            return Ok((e, p));
        }
    }
}

/// Alternatives: sums joined by `|`.
fn parse_or<F: LengthFunctions>(cs: &Vec<char>, src: &str, pos: usize, names: &Vec<String>, field: usize, funcs: &F) -> (r: Result<(Expr, usize), SchemaError>)
    requires
        pos <= cs@.len(),
        src@ == cs@,
        field <= names@.len(),
    ensures
        agrees(r, p_or(cs@, name_seqs(names@), field, *funcs, pos as int)),
        r matches Ok((e, p)) ==> pos < p <= cs@.len() && refers_below(e, field as nat),
        r matches Err(x) ==> is_parse_error(x, field),
    decreases cs@.len() - pos, 3nat,
{
    let ghost ns = name_seqs(names@);
    let (mut e, mut p) = match parse_add(cs, src, pos, names, field, funcs) {
        Ok(x) => x,
        Err(x) => return Err(x),
    };
    loop
        invariant
            pos < p <= cs@.len(),
            src@ == cs@,
            field <= names@.len(),
            ns == name_seqs(names@),
            refers_below(e, field as nat),
            p_or(cs@, ns, field, *funcs, pos as int) == p_or_tail(cs@, ns, field, *funcs, e, p as int),
        decreases cs@.len() - p,
    {
        let q = skip_spaces(cs, p);
        if q < cs.len() && (cs[q] == '|') {
            let op = cs[q];
            let (rhs, p2) = match parse_add(cs, src, q + 1, names, field, funcs) {
                Ok(x) => x,
                Err(x) => return Err(x),
            };
            e = Expr::Or(Box::new(e), Box::new(rhs));
            p = p2;
        } else {
            return Ok((e, p));
        }
    }
}

/// The arguments of a call: expressions joined by commas.
fn parse_args<F: LengthFunctions>(cs: &Vec<char>, src: &str, pos: usize, names: &Vec<String>, field: usize, funcs: &F) -> (r: Result<(Expr, usize), SchemaError>)
    requires
        pos <= cs@.len(),
        src@ == cs@,
        field <= names@.len(),
    ensures
        agrees(r, p_args(cs@, name_seqs(names@), field, *funcs, pos as int)),
        r matches Ok((e, p)) ==> pos < p <= cs@.len() && refers_below(e, field as nat),
        r matches Err(x) ==> is_parse_error(x, field),
    decreases cs@.len() - pos, 4nat,
{
    let ghost ns = name_seqs(names@);
    let (mut e, mut p) = match parse_or(cs, src, pos, names, field, funcs) {
        Ok(x) => x,
        Err(x) => return Err(x),
    };
    loop
        invariant
            pos < p <= cs@.len(),
            src@ == cs@,
            field <= names@.len(),
            ns == name_seqs(names@),
            refers_below(e, field as nat),
            p_args(cs@, ns, field, *funcs, pos as int) == p_args_tail(cs@, ns, field, *funcs, e, p as int),
        decreases cs@.len() - p,
    {
        let q = skip_spaces(cs, p);
        if q < cs.len() && (cs[q] == ',') {
            let op = cs[q];
            let (rhs, p2) = match parse_or(cs, src, q + 1, names, field, funcs) {
                Ok(x) => x,
                Err(x) => return Err(x),
            };
            e = Expr::Comma(Box::new(e), Box::new(rhs));
            p = p2;
        } else {
            return Ok((e, p));
        }
    }
}

/// Translates the length expression `text` of the field at position
/// `field`, whose earlier fields are named `names[..field]`, as
/// `translation` states. A character outside the grammar gives
/// `NonIntegerLengthToken`; a literal that is not an unsigned integer
/// literal fitting its type and 64 bits (such as `2.5`, `300u8` or a
/// quoted string) gives `InvalidLengthLiteral`; a name
/// that is neither an earlier field nor a function of `funcs` gives
/// `UnknownLengthName`; anything else that does not parse gives
/// `MalformedLength`. A function name, with its parenthesised arguments if
/// any follow, becomes a call node.
pub fn parse_length_expr<F: LengthFunctions>(text: &str, names: &Vec<String>, field: usize, funcs: &F) -> (r: Result<Expr, SchemaError>)
    requires
        field <= names@.len(),
    ensures
        r == translation(text@, name_seqs(names@), field, *funcs),
        r matches Ok(e) ==> refers_below(e, field as nat),
        r == Err::<Expr, SchemaError>(SchemaError::NonIntegerLengthToken(field)) <==> exists|i: int|
            0 <= i < text@.len() && !allowed(#[trigger] text@[i]),
{
    let cs = chars_of(text);
    let mut i: usize = 0;
    while i < cs.len()
        invariant
            cs@ == text@,
            i <= cs@.len(),
            forall|j: int| 0 <= j < i ==> allowed(#[trigger] cs@[j]),
        decreases cs@.len() - i,
    {
        let c = cs[i];
        let ok = is_alpha_exec(c) || is_dec_exec(c) || c == '+' || c == '-' || c == '*' || c == '/' || c == '%'
            || c == '|' || c == '(' || c == ')' || c == ' ' || c == ',' || c == '.' || c == '"' || c == '\'';
        if !ok {
            proof {
                assert(!allowed(text@[i as int]));
            }
            return Err(SchemaError::NonIntegerLengthToken(field));
        }
        i = i + 1;
    }
    proof {
        assert(forall|j: int| 0 <= j < text@.len() ==> allowed(#[trigger] text@[j]));
    }
    match parse_or(&cs, text, 0, names, field, funcs) {
        Ok((e, p)) => {
            let q = skip_spaces(&cs, p);
            if q == cs.len() {
                Ok(e)
            } else {
                Err(SchemaError::MalformedLength(field))
            }
        },
        Err(x) => Err(x),
    }
}

} // verus!
