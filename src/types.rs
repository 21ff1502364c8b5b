//! The bit-type grammar and the type resolver.
//!
//! A primitive type tag is `u<N>` with an optional byte-order suffix `be`,
//! `le` or `he`; `Vec<T>` is a container of `T`; any other tag names a
//! semantic type that is built from primitives.
use crate::bits::Endianness;
use vstd::prelude::*;
use vstd::string::*;

verus! {

/// Whether a primitive tag named its byte order.
#[derive(Clone, Copy, Debug, PartialEq, Eq, Structural)]
pub enum EndiannessSpecified {
    No,
    Yes,
}

/// A resolved field type.
#[derive(Debug)]
pub enum Type {
    /// An unsigned integer: its tag, width in bits and byte order.
    Primitive(String, usize, Endianness),
    /// A container of elements of the inner type.
    Vector(Box<Type>),
    /// A semantic type built from primitives.
    Misc(String),
}

/// Why a type tag was refused.
#[derive(Clone, Copy, Debug, PartialEq, Eq, Structural)]
pub enum TypeError {
    /// A primitive wider than 8 bits did not name its byte order.
    EndiannessRequired,
    /// The tag is a reference.
    InvalidType,
    /// A container of containers.
    VectorOfVector,
}

pub open spec fn is_digit(c: char) -> bool {
    '0' <= c <= '9'
}

/// The end of the run of digits that starts at `i`.
pub open spec fn digit_run(s: Seq<char>, i: nat) -> nat
    decreases s.len() - i,
{
    if i < s.len() && is_digit(s[i as int]) {
        digit_run(s, i + 1)
    } else {
        i
    }
}

/// The digits of a primitive tag.
pub open spec fn tag_digits(s: Seq<char>) -> Seq<char> {
    s.subrange(1, digit_run(s, 1) as int)
}

/// What follows the digits of a primitive tag.
pub open spec fn tag_suffix(s: Seq<char>) -> Seq<char> {
    s.subrange(digit_run(s, 1) as int, s.len() as int)
}

pub open spec fn is_suffix(x: Seq<char>) -> bool {
    x == Seq::<char>::empty() || x == seq!['b', 'e'] || x == seq!['l', 'e'] || x == seq!['h', 'e']
}

/// `s` is `u`, one or more ASCII digits, then an optional suffix.
pub open spec fn is_primitive_tag(s: Seq<char>) -> bool {
    s.len() > 1 && s[0] == 'u' && digit_run(s, 1) > 1 && is_suffix(tag_suffix(s))
}

/// The number that a string of decimal digits writes.
pub open spec fn decimal(d: Seq<char>) -> nat
    decreases d.len(),
{
    if d.len() == 0 {
        0
    } else {
        decimal(d.drop_last()) * 10 + (d.last() as nat - '0' as nat) as nat
    }
}

pub open spec fn suffix_order(x: Seq<char>) -> (Endianness, EndiannessSpecified) {
    if x == seq!['b', 'e'] {
        (Endianness::Big, EndiannessSpecified::Yes)
    } else if x == seq!['h', 'e'] {
        (Endianness::Host, EndiannessSpecified::Yes)
    } else if x == seq!['l', 'e'] {
        (Endianness::Little, EndiannessSpecified::Yes)
    } else {
        (Endianness::Big, EndiannessSpecified::No)
    }
}

/// Width, byte order and whether the order was named, for a primitive tag
/// whose width fits in `usize`.
pub open spec fn primitive_of(s: Seq<char>) -> Option<(usize, Endianness, EndiannessSpecified)> {
    if is_primitive_tag(s) && decimal(tag_digits(s)) <= usize::MAX {
        let (e, spec) = suffix_order(tag_suffix(s));
        Some((decimal(tag_digits(s)) as usize, e, spec))
    } else {
        None
    }
}

/// The width of a primitive tag, zero for other tags.
pub open spec fn tag_width(s: Seq<char>) -> usize {
    match primitive_of(s) {
        Some(p) => p.0,
        None => 0,
    }
}

/// Relies on regex::Regex::captures with the pattern `^u([0-9]+)(be|le|he)?$`:
/// a match exactly when the tag has that shape, with the digits as group 1
/// and the suffix, if any, as group 2.
#[verifier::external_body]
fn split_primitive_tag(ty: &str) -> (r: Option<(String, String)>)
    ensures
        r is Some <==> is_primitive_tag(ty@),
        r matches Some(p) ==> p.0@ == tag_digits(ty@) && p.1@ == tag_suffix(ty@),
{
    let re = regex::Regex::new(r"^u([0-9]+)(be|le|he)?$").unwrap();
    re.captures(ty).map(
        |c| (c[1].to_string(), c.get(2).map_or(String::new(), |m| m.as_str().to_string())),
    )
}

/// The value of a string of ASCII digits, or `None` when it does not fit.
fn parse_decimal(d: &str) -> (r: Option<usize>)
    requires
        forall|i: int| 0 <= i < d@.len() ==> is_digit(#[trigger] d@[i]),
    ensures
        r is Some <==> decimal(d@) <= usize::MAX,
        r matches Some(v) ==> v as nat == decimal(d@),
{
    let n = d.unicode_len();
    let mut acc: usize = 0;
    let mut i: usize = 0;
    while i < n
        invariant
            i <= n == d@.len(),
            forall|k: int| 0 <= k < d@.len() ==> is_digit(#[trigger] d@[k]),
            acc as nat == decimal(d@.subrange(0, i as int)),
        decreases n - i,
    {
        let c = d.get_char(i);
        let digit = (c as u32 - '0' as u32) as usize;
        proof {
            assert(d@.subrange(0, i + 1).drop_last() =~= d@.subrange(0, i as int));
        }
        if acc > (usize::MAX - digit) / 10 {
            proof {
                lemma_decimal_grows(d@, (i + 1) as nat);
            }
            return None;
        }
        acc = acc * 10 + digit;
        i = i + 1;
    }
    proof {
        assert(d@.subrange(0, n as int) =~= d@);
    }
    Some(acc)
}

/// A longer prefix of digits never writes a smaller number.
pub proof fn lemma_decimal_grows(d: Seq<char>, k: nat)
    requires
        k <= d.len(),
        forall|i: int| 0 <= i < d.len() ==> is_digit(#[trigger] d[i]),
    ensures
        decimal(d.subrange(0, k as int)) <= decimal(d),
    decreases d.len() - k,
{
    if k < d.len() {
        lemma_decimal_grows(d, k + 1);
        assert(d.subrange(0, (k + 1) as int).drop_last() =~= d.subrange(0, k as int));
        let a = decimal(d.subrange(0, k as int));
        assert(a <= a * 10 + (d[k as int] as nat - '0' as nat)) by (nonlinear_arith)
            requires
                '0' <= d[k as int],
        ;
    } else {
        assert(d.subrange(0, k as int) =~= d);
    }
}

/// Reads a primitive tag `u<N>` with an optional `be`, `le` or `he`
/// suffix; without a suffix the order is big-endian and not specified.
pub fn parse_ty(ty: &str) -> (r: Option<(usize, Endianness, EndiannessSpecified)>)
    ensures
        r == primitive_of(ty@),
{
    let (digits, suffix) = match split_primitive_tag(ty) {
        Some(p) => p,
        None => return None,
    };
    proof {
        let s = ty@;
        lemma_digit_run_bounds(s, 1);
        assert forall|i: int| 0 <= i < digits@.len() implies is_digit(#[trigger] digits@[i]) by {
            lemma_digit_run(s, 1, i + 1);
        }
    }
    let size = match parse_decimal(digits.as_str()) {
        Some(v) => v,
        None => return None,
    };
    let suf = suffix.as_str();
    let n = suf.unicode_len();
    let order = if n == 2 && suf.get_char(0) == 'b' {
        (Endianness::Big, EndiannessSpecified::Yes)
    } else if n == 2 && suf.get_char(0) == 'h' {
        (Endianness::Host, EndiannessSpecified::Yes)
    } else if n == 2 {
        (Endianness::Little, EndiannessSpecified::Yes)
    } else {
        (Endianness::Big, EndiannessSpecified::No)
    };
    proof {
        let x = suf@;
        if n == 2 {
            assert(x =~= seq!['b', 'e'] || x =~= seq!['l', 'e'] || x =~= seq!['h', 'e']);
        } else {
            assert(x =~= Seq::<char>::empty());
        }
    }
    Some((size, order.0, order.1))
}

proof fn lemma_digit_run_bounds(s: Seq<char>, i: nat)
    requires
        i <= s.len(),
    ensures
        i <= digit_run(s, i) <= s.len(),
    decreases s.len() - i,
{
    if i < s.len() && is_digit(s[i as int]) {
        lemma_digit_run_bounds(s, i + 1);
    }
}

/// Every position between `i` and the end of the digit run holds a digit.
proof fn lemma_digit_run(s: Seq<char>, i: nat, k: int)
    requires
        i <= k < digit_run(s, i),
    ensures
        is_digit(s[k]),
    decreases s.len() - i,
{
    if k > i {
        lemma_digit_run(s, i + 1, k);
    }
}


/// `s` is `Vec<`, an element tag of at least one character, then `>`.
pub open spec fn is_vec_tag(s: Seq<char>) -> bool {
    s.len() >= 6 && s[0] == 'V' && s[1] == 'e' && s[2] == 'c' && s[3] == '<' && s[s.len() - 1] == '>'
}

/// The element tag of a container tag: what stands between `Vec<` and the
/// closing `>`.
pub open spec fn inner_tag(s: Seq<char>) -> Seq<char> {
    s.subrange(4, s.len() - 1)
}

pub open spec fn starts_vec(s: Seq<char>) -> bool {
    s.len() >= 4 && s[0] == 'V' && s[1] == 'e' && s[2] == 'c' && s[3] == '<'
}

/// Why resolving tag `s` fails, if it does. With `ordered`, a primitive
/// wider than 8 bits must name its byte order.
pub open spec fn type_error(s: Seq<char>, ordered: bool) -> Option<TypeError>
    decreases s.len(),
{
    match primitive_of(s) {
        Some((size, _, spec)) => if !ordered || size <= 8 || spec == EndiannessSpecified::Yes {
            None
        } else {
            Some(TypeError::EndiannessRequired)
        },
        None => if is_vec_tag(s) {
            if starts_vec(inner_tag(s)) {
                Some(TypeError::VectorOfVector)
            } else {
                type_error(inner_tag(s), ordered)
            }
        } else if s.len() > 0 && s[0] == '&' {
            Some(TypeError::InvalidType)
        } else {
            None
        },
    }
}

/// `t` is what tag `s` resolves to.
pub open spec fn resolves_to(s: Seq<char>, t: Type) -> bool
    decreases s.len(),
{
    match primitive_of(s) {
        Some((size, e, _)) => match t {
            Type::Primitive(tag, w, en) => tag@ == s && w == size && en == e,
            _ => false,
        },
        None => if is_vec_tag(s) {
            match t {
                Type::Vector(inner) => resolves_to(inner_tag(s), *inner),
                _ => false,
            }
        } else {
            match t {
                Type::Misc(name) => name@ == s,
                _ => false,
            }
        },
    }
}

fn starts_vec_exec(s: &str) -> (r: bool)
    ensures
        r == starts_vec(s@),
{
    let n = s.unicode_len();
    n >= 4 && s.get_char(0) == 'V' && s.get_char(1) == 'e' && s.get_char(2) == 'c' && s.get_char(3) == '<'
}

/// Resolves a type tag: a primitive `u<N>[be|le|he]`, a container
/// `Vec<T>`, or else the name of a semantic type. With `ordered`, a
/// primitive wider than 8 bits must name its byte order.
pub fn parse_type(ty: &str, ordered: bool) -> (r: Result<Type, TypeError>)
    ensures
        r matches Err(e) ==> type_error(ty@, ordered) == Some(e),
        r matches Ok(t) ==> type_error(ty@, ordered) is None && resolves_to(ty@, t),
        r is Err <==> type_error(ty@, ordered) is Some,
    decreases ty@.len(),
{
    if let Some((size, endianness, spec)) = parse_ty(ty) {
        if !ordered || size <= 8 || spec == EndiannessSpecified::Yes {
            return Ok(Type::Primitive(String::from_str(ty), size, endianness));
        } else {
            return Err(TypeError::EndiannessRequired);
        }
    }
    let n = ty.unicode_len();
    let vec_prefix = starts_vec_exec(ty);
    if vec_prefix && n >= 6 && ty.get_char(n - 1) == '>' {
        let inner = ty.substring_char(4, n - 1);
        if starts_vec_exec(inner) {
            return Err(TypeError::VectorOfVector);
        }
        match parse_type(inner, ordered) {
            Ok(t) => Ok(Type::Vector(Box::new(t))),
            Err(e) => Err(e),
        }
    } else if n > 0 && ty.get_char(0) == '&' {
        Err(TypeError::InvalidType)
    } else {
        Ok(Type::Misc(String::from_str(ty)))
    }
}

} // verus!
