//! The packet schema: an ordered list of field declarations, checked and
//! resolved into a `Packet`.
use crate::expr::{refers_below, Expr, LengthFunctions};
use crate::lengthexpr::{name_seqs, parse_length_expr, translation};
use crate::types::{
    inner_tag, is_vec_tag, parse_ty, parse_type, primitive_of, resolves_to, tag_width, type_error, Type,
    TypeError,
};
use vstd::prelude::*;
use vstd::string::*;

verus! {

/// One field of a packet, with its type resolved.
#[derive(Debug)]
pub struct Field {
    pub name: String,
    pub ty: Type,
    /// Byte length of a variable-length field, over earlier fields.
    pub packet_length: Option<Expr>,
    pub is_payload: bool,
    /// The primitives that back a semantic field, in order.
    pub construct_with: Option<Vec<Type>>,
}

/// A packet schema: a base name and its fields in wire order.
#[derive(Debug)]
pub struct Packet {
    pub base_name: String,
    pub fields: Vec<Field>,
}

impl Packet {
    /// Name of the read-only view: the base name followed by `Packet`.
    pub fn packet_name(&self) -> (r: String)
        ensures
            r@ == self.base_name@ + "Packet"@,
    {
        self.base_name.clone().concat("Packet")
    }

    /// Name of the read-write view: `Mutable`, the base name, then `Packet`.
    pub fn packet_name_mut(&self) -> (r: String)
        ensures
            r@ == "Mutable"@ + self.base_name@ + "Packet"@,
    {
        String::from_str("Mutable").concat(self.base_name.as_str()).concat("Packet")
    }
}

/// A field as a schema declares it: a type tag and its annotations.
#[derive(Debug)]
pub struct FieldDecl {
    pub name: String,
    /// The type tag, such as `u16be`, `Vec<u8>` or a semantic type name.
    pub ty: String,
    pub is_payload: bool,
    pub length: Option<Expr>,
    /// Type tags of the primitives that back a semantic type.
    pub construct_with: Option<Vec<String>>,
}

/// Why a schema was refused; each carries the position of the field at
/// fault.
#[derive(Clone, Copy, Debug, PartialEq, Eq, Structural)]
pub enum SchemaError {
    /// A second payload field: the positions of the first and the second.
    MultiplePayload(usize, usize),
    /// A variable-length field that is neither last nor the payload has no
    /// length expression.
    MissingLength(usize),
    /// A container of containers.
    VectorOfVector(usize),
    /// A semantic type without constructor arguments.
    MissingConstructWith(usize),
    /// A constructor argument that is not a primitive.
    ConstructWithNotPrimitive(usize),
    /// A primitive wider than 8 bits that does not name its byte order.
    EndiannessRequired(usize),
    /// A type tag that is a reference.
    InvalidType(usize),
    /// A container whose element width is not a whole number of bytes.
    UnsupportedSubByteVectorElement(usize),
    /// A primitive of width 0 or more than 64 bits.
    UnsupportedWidth(usize),
    /// A length expression that refers to this field or a later one.
    LengthOutOfOrder(usize),
    /// A literal in a length expression that is not a decimal `u64`.
    InvalidLengthLiteral(usize),
    /// A character in a length expression that the grammar does not know.
    NonIntegerLengthToken(usize),
    /// A name in a length expression that is not an earlier field.
    UnknownLengthName(usize),
    /// A length expression that does not parse.
    MalformedLength(usize),
}

/// The position of the first payload field before position `i`.
pub open spec fn payload_index(d: Seq<FieldDecl>, i: int) -> Option<nat>
    decreases i,
{
    if i <= 0 {
        None
    } else {
        match payload_index(d, i - 1) {
            Some(j) => Some(j),
            None => if d[i - 1].is_payload {
                Some((i - 1) as nat)
            } else {
                None
            },
        }
    }
}

pub open spec fn bad_width(w: usize) -> bool {
    w == 0 || w > 64
}

/// The constructor argument tags of a declaration, empty when absent.
pub open spec fn arg_tags(f: FieldDecl) -> Seq<String> {
    match f.construct_with {
        Some(v) => v@,
        None => Seq::empty(),
    }
}

/// What is wrong with the declaration at `i`, checked in this order:
/// payload, type tag, argument tags, layout of the type, length.
pub open spec fn decl_error(d: Seq<FieldDecl>, i: int) -> Option<SchemaError> {
    let f = d[i];
    let s = f.ty@;
    let args = arg_tags(f);
    if f.is_payload && payload_index(d, i) is Some {
        Some(SchemaError::MultiplePayload(payload_index(d, i)->0 as usize, i as usize))
    } else if type_error(s, true) == Some(TypeError::EndiannessRequired) {
        Some(SchemaError::EndiannessRequired(i as usize))
    } else if type_error(s, true) == Some(TypeError::VectorOfVector) {
        Some(SchemaError::VectorOfVector(i as usize))
    } else if type_error(s, true) is Some {
        Some(SchemaError::InvalidType(i as usize))
    } else if exists|a: int| 0 <= a < args.len() && type_error(#[trigger] args[a]@, false) is Some {
        Some(SchemaError::InvalidType(i as usize))
    } else if is_vec_tag(s) {
        let inner = inner_tag(s);
        if primitive_of(inner) is Some && bad_width(tag_width(inner)) {
            Some(SchemaError::UnsupportedWidth(i as usize))
        } else if primitive_of(inner) is Some && tag_width(inner) % 8 != 0 {
            Some(SchemaError::UnsupportedSubByteVectorElement(i as usize))
        } else if f.length is None && !f.is_payload && i + 1 < d.len() {
            Some(SchemaError::MissingLength(i as usize))
        } else if f.length matches Some(e) && !refers_below(e, i as nat) {
            Some(SchemaError::LengthOutOfOrder(i as usize))
        } else {
            None
        }
    } else if primitive_of(s) is Some {
        if bad_width(tag_width(s)) {
            Some(SchemaError::UnsupportedWidth(i as usize))
        } else {
            None
        }
    } else if args.len() == 0 {
        Some(SchemaError::MissingConstructWith(i as usize))
    } else if exists|a: int| 0 <= a < args.len() && primitive_of(#[trigger] args[a]@) is None {
        Some(SchemaError::ConstructWithNotPrimitive(i as usize))
    } else if exists|a: int| 0 <= a < args.len() && bad_width(#[trigger] tag_width(args[a]@)) {
        Some(SchemaError::UnsupportedWidth(i as usize))
    } else {
        None
    }
}

/// The error of the first faulty declaration at or after `i`.
pub open spec fn first_error(d: Seq<FieldDecl>, i: int) -> Option<SchemaError>
    decreases d.len() - i,
{
    if i < 0 || i >= d.len() {
        None
    } else if decl_error(d, i) is Some {
        decl_error(d, i)
    } else {
        first_error(d, i + 1)
    }
}

/// `f` is declaration `d` with its tags resolved.
pub open spec fn field_of(d: FieldDecl, f: Field) -> bool {
    &&& f.name@ == d.name@
    &&& resolves_to(d.ty@, f.ty)
    &&& f.is_payload == d.is_payload
    &&& f.packet_length == d.length
    &&& match (d.construct_with, f.construct_with) {
        (None, None) => true,
        (Some(a), Some(t)) => a@.len() == t@.len() && forall|k: int|
            0 <= k < a@.len() ==> resolves_to(#[trigger] a@[k]@, t@[k]),
        _ => false,
    }
}

/// Checks one declaration, as `decl_error` states it.
#[verifier::loop_isolation(false)]
fn check_decl(d: &Vec<FieldDecl>, i: usize, payload: Option<usize>) -> (r: Option<SchemaError>)
    requires
        i < d@.len(),
        payload is Some <==> payload_index(d@, i as int) is Some,
        payload matches Some(j) ==> payload_index(d@, i as int) == Some(j as nat),
    ensures
        r == decl_error(d@, i as int),
{
    let f = &d[i];
    let s = f.ty.as_str();
    let args: &[String] = match &f.construct_with {
        Some(v) => v.as_slice(),
        None => &[],
    };
    let ghost ga = arg_tags(*f);
    proof {
        assert(args@ == ga);
    }
    if f.is_payload {
        if let Some(j) = payload {
            return Some(SchemaError::MultiplePayload(j, i));
        }
    }
    match parse_type(s, true) {
        Err(TypeError::EndiannessRequired) => return Some(SchemaError::EndiannessRequired(i)),
        Err(TypeError::VectorOfVector) => return Some(SchemaError::VectorOfVector(i)),
        Err(_) => return Some(SchemaError::InvalidType(i)),
        Ok(_) => {},
    }
    let mut a: usize = 0;
    while a < args.len()
        invariant
            a <= args@.len(),
            args@ == ga,
            forall|k: int| 0 <= k < a ==> type_error(#[trigger] ga[k]@, false) is None,
        decreases args.len() - a,
    {
        if parse_type(args[a].as_str(), false).is_err() {
            proof {
                assert(type_error(ga[a as int]@, false) is Some);
            }
            return Some(SchemaError::InvalidType(i));
        }
        a = a + 1;
    }
    let n = s.unicode_len();
    let is_vec = n >= 6 && s.get_char(0) == 'V' && s.get_char(1) == 'e' && s.get_char(2) == 'c'
        && s.get_char(3) == '<' && s.get_char(n - 1) == '>';
    if is_vec {
        let inner = s.substring_char(4, n - 1);
        if let Some((w, _, _)) = parse_ty(inner) {
            if w == 0 || w > 64 {
                return Some(SchemaError::UnsupportedWidth(i));
            }
            if w % 8 != 0 {
                return Some(SchemaError::UnsupportedSubByteVectorElement(i));
            }
        }
        match &f.length {
            None => {
                if !f.is_payload && i < d.len() - 1 {
                    return Some(SchemaError::MissingLength(i));
                }
                None
            },
            Some(e) => {
                if !check_refs(e, i) {
                    return Some(SchemaError::LengthOutOfOrder(i));
                }
                None
            },
        }
    } else if let Some((w, _, _)) = parse_ty(s) {
        if w == 0 || w > 64 {
            Some(SchemaError::UnsupportedWidth(i))
        } else {
            None
        }
    } else if args.len() == 0 {
        Some(SchemaError::MissingConstructWith(i))
    } else {
        let mut a: usize = 0;
        while a < args.len()
            invariant
                a <= args@.len(),
                args@ == ga,
                forall|k: int| 0 <= k < a ==> primitive_of(#[trigger] ga[k]@) is Some,
            decreases args.len() - a,
        {
            if parse_ty(args[a].as_str()).is_none() {
                proof {
                    assert(primitive_of(ga[a as int]@) is None);
                }
                return Some(SchemaError::ConstructWithNotPrimitive(i));
            }
            a = a + 1;
        }
        let mut a: usize = 0;
        while a < args.len()
            invariant
                a <= args@.len(),
                args@ == ga,
                forall|k: int| 0 <= k < args@.len() ==> primitive_of(#[trigger] ga[k]@) is Some,
                forall|k: int| 0 <= k < a ==> !bad_width(#[trigger] tag_width(ga[k]@)),
            decreases args.len() - a,
        {
            if let Some((w, _, _)) = parse_ty(args[a].as_str()) {
                if w == 0 || w > 64 {
                    proof {
                        assert(bad_width(tag_width(ga[a as int]@)));
                    }
                    return Some(SchemaError::UnsupportedWidth(i));
                }
            }
            a = a + 1;
        }
        None
    }
}

/// Whether every field position in `e` is below `k`.
fn check_refs(e: &Expr, k: usize) -> (r: bool)
    ensures
        r == refers_below(*e, k as nat),
    decreases e,
{
    match e {
        Expr::Lit(_) => true,
        Expr::Field(j) => *j < k,
        Expr::Len(j) => *j < k,
        Expr::Add(a, b) => check_refs(a, k) && check_refs(b, k),
        Expr::Sub(a, b) => check_refs(a, k) && check_refs(b, k),
        Expr::Mul(a, b) => check_refs(a, k) && check_refs(b, k),
        Expr::Div(a, b) => check_refs(a, k) && check_refs(b, k),
        Expr::Rem(a, b) => check_refs(a, k) && check_refs(b, k),
        Expr::Or(a, b) => check_refs(a, k) && check_refs(b, k),
        Expr::VarintLength(a) => check_refs(a, k),
        Expr::Varint(j, l) => *j < k && *l < k,
        Expr::Eq(a, b) => check_refs(a, k) && check_refs(b, k),
        Expr::And(a, b) => check_refs(a, k) && check_refs(b, k),
        Expr::VarintAt(j) => *j < k,
        Expr::Call(_, a) => match a {
            Some(b) => check_refs(b, k),
            None => true,
        },
        Expr::Comma(a, b) => check_refs(a, k) && check_refs(b, k),
    }
}


/// Resolves and checks a schema: the declarations in wire order under a
/// base name. The first faulty declaration decides the error.
pub fn packet(decls: Vec<FieldDecl>, name: String) -> (r: Result<Packet, SchemaError>)
    ensures
        r matches Err(e) ==> first_error(decls@, 0) == Some(e),
        r is Ok <==> first_error(decls@, 0) is None,
        r matches Ok(p) ==> p.base_name == name && p.fields@.len() == decls@.len() && forall|i: int|
            0 <= i < decls@.len() ==> field_of(decls@[i], #[trigger] p.fields@[i]),
{
    let mut payload: Option<usize> = None;
    let mut i: usize = 0;
    while i < decls.len()
        invariant
            i <= decls@.len(),
            payload is Some <==> payload_index(decls@, i as int) is Some,
            payload matches Some(j) ==> payload_index(decls@, i as int) == Some(j as nat),
            forall|k: int| 0 <= k < i ==> decl_error(decls@, k) is None,
        decreases decls.len() - i,
    {
        if let Some(e) = check_decl(&decls, i, payload) {
            proof {
                lemma_first_error(decls@, 0, i as int);
            }
            return Err(e);
        }
        if payload.is_none() && decls[i].is_payload {
            payload = Some(i);
        }
        i = i + 1;
    }
    proof {
        lemma_first_error(decls@, 0, decls@.len() as int);
    }
    let ghost d0 = decls@;
    let mut rest = decls;
    let mut fields: Vec<Field> = Vec::new();
    while rest.len() > 0
        invariant
            fields@.len() + rest@.len() == d0.len(),
            rest@ == d0.subrange(fields@.len() as int, d0.len() as int),
            forall|k: int| 0 <= k < d0.len() ==> decl_error(d0, k) is None,
            forall|k: int| 0 <= k < fields@.len() ==> field_of(d0[k], #[trigger] fields@[k]),
        decreases rest.len(),
    {
        let ghost k = fields@.len() as int;
        let d = rest.remove(0);
        proof {
            assert(d == d0[k]);
            assert(decl_error(d0, k) is None);
        }
        let ty = match parse_type(d.ty.as_str(), true) {
            Ok(t) => t,
            Err(_) => {
                proof {
                    assert(false);
                }
                return Err(SchemaError::InvalidType(0));
            },
        };
        let construct_with = match d.construct_with {
            None => None,
            Some(tags) => {
                let ghost ts = tags@;
                let mut args: Vec<Type> = Vec::new();
                let mut a: usize = 0;
                while a < tags.len()
                    invariant
                        a <= tags@.len(),
                        tags@ == ts,
                        args@.len() == a,
                        forall|x: int| 0 <= x < ts.len() ==> type_error(#[trigger] ts[x]@, false) is None,
                        forall|x: int| 0 <= x < a ==> resolves_to(ts[x]@, #[trigger] args@[x]),
                    decreases tags.len() - a,
                {
                    match parse_type(tags[a].as_str(), false) {
                        Ok(t) => args.push(t),
                        Err(_) => {
                            proof {
                                assert(false);
                            }
                            return Err(SchemaError::InvalidType(0));
                        },
                    }
                    a = a + 1;
                }
                Some(args)
            },
        };
        fields.push(
            Field {
                name: d.name,
                ty,
                packet_length: d.length,
                is_payload: d.is_payload,
                construct_with,
            },
        );
        proof {
            assert(rest@ =~= d0.subrange(fields@.len() as int, d0.len() as int));
        }
    }
    Ok(Packet { base_name: name, fields })
}

/// When the declarations from `i` to `k` are sound, the first error at or
/// after `i` is the first one at or after `k`.
proof fn lemma_first_error(d: Seq<FieldDecl>, i: int, k: int)
    requires
        0 <= i <= k <= d.len(),
        forall|j: int| i <= j < k ==> decl_error(d, j) is None,
    ensures
        first_error(d, i) == first_error(d, k),
    decreases k - i,
{
    if i < k {
        lemma_first_error(d, i + 1, k);
    }
}


proof fn lemma_payload_index(d: Seq<FieldDecl>, i: int, j: int)
    requires
        0 <= i < j <= d.len(),
        d[i].is_payload,
        forall|k: int| 0 <= k < i ==> !(#[trigger] d[k]).is_payload,
    ensures
        payload_index(d, j) == Some(i as nat),
    decreases j,
{
    if j > i + 1 {
        lemma_payload_index(d, i, j - 1);
    } else {
        lemma_no_payload(d, i);
    }
}

proof fn lemma_no_payload(d: Seq<FieldDecl>, i: int)
    requires
        0 <= i <= d.len(),
        forall|k: int| 0 <= k < i ==> !(#[trigger] d[k]).is_payload,
    ensures
        payload_index(d, i) is None,
    decreases i,
{
    if i > 0 {
        lemma_no_payload(d, i - 1);
    }
}

/// A schema whose fields `i < j` are both marked payload, with no payload
/// before `i` and no fault before `j`, is refused with `MultiplePayload`
/// naming both fields.
pub proof fn lemma_two_payloads(d: Seq<FieldDecl>, i: int, j: int)
    requires
        0 <= i < j < d.len(),
        j <= usize::MAX,
        d[i].is_payload,
        d[j].is_payload,
        forall|k: int| 0 <= k < i ==> !(#[trigger] d[k]).is_payload,
        forall|k: int| 0 <= k < j ==> decl_error(d, k) is None,
    ensures
        first_error(d, 0) == Some(SchemaError::MultiplePayload(i as usize, j as usize)),
{
    lemma_first_error(d, 0, j);
    lemma_payload_index(d, i, j);
}


/// A schema with a container field `i` that is neither the last field nor
/// the payload and has no length expression, and no fault before it, is
/// refused with `MissingLength` naming that field; the container's own
/// tag is taken to be valid (a resolvable, whole-byte element).
pub proof fn lemma_middle_field_needs_length(d: Seq<FieldDecl>, i: int)
    requires
        0 <= i,
        i + 1 < d.len(),
        i <= usize::MAX,
        is_vec_tag(d[i].ty@),
        type_error(d[i].ty@, true) is None,
        primitive_of(inner_tag(d[i].ty@)) is Some ==> !bad_width(tag_width(inner_tag(d[i].ty@))) && tag_width(
            inner_tag(d[i].ty@),
        ) % 8 == 0,
        d[i].construct_with is None,
        !d[i].is_payload,
        d[i].length is None,
        forall|k: int| 0 <= k < i ==> decl_error(d, k) is None,
    ensures
        first_error(d, 0) == Some(SchemaError::MissingLength(i as usize)),
{
    lemma_first_error(d, 0, i);
}


/// A field as a schema declares it, with its length expression as text.
#[derive(Debug)]
pub struct FieldText {
    pub name: String,
    /// The type tag, such as `u16be`, `Vec<u8>` or a semantic type name.
    pub ty: String,
    pub is_payload: bool,
    /// The length expression, over the names of earlier fields.
    pub length: Option<String>,
    /// Type tags of the primitives that back a semantic type.
    pub construct_with: Option<Vec<String>>,
}

/// The names of the declared fields, as character sequences.
pub open spec fn text_names(d: Seq<FieldText>) -> Seq<Seq<char>> {
    d.map_values(|t: FieldText| t.name@)
}

/// The length of field `k` translated, or the translator's error.
pub open spec fn length_at<F: LengthFunctions>(d: Seq<FieldText>, c: F, k: int) -> Result<Option<Expr>, SchemaError> {
    match d[k].length {
        None => Ok(None),
        Some(t) => match translation(t@, text_names(d), k as usize, c) {
            Ok(e) => Ok(Some(e)),
            Err(x) => Err(x),
        },
    }
}

/// The first translation error at or after field `i`.
pub open spec fn first_text_error<F: LengthFunctions>(d: Seq<FieldText>, c: F, i: int) -> Option<SchemaError>
    decreases d.len() - i,
{
    if i < 0 || i >= d.len() {
        None
    } else {
        match length_at(d, c, i) {
            Err(x) => Some(x),
            Ok(_) => first_text_error(d, c, i + 1),
        }
    }
}

/// The declarations with their lengths translated.
pub open spec fn decls_of<F: LengthFunctions>(d: Seq<FieldText>, c: F) -> Seq<FieldDecl> {
    Seq::new(
        d.len(),
        |k: int|
            FieldDecl {
                name: d[k].name,
                ty: d[k].ty,
                is_payload: d[k].is_payload,
                length: match length_at(d, c, k) {
                    Ok(l) => l,
                    Err(_) => None,
                },
                construct_with: d[k].construct_with,
            },
    )
}

proof fn lemma_first_text_error<F: LengthFunctions>(d: Seq<FieldText>, c: F, i: int, k: int)
    requires
        0 <= i <= k <= d.len(),
        forall|j: int| i <= j < k ==> length_at(d, c, j) is Ok,
    ensures
        first_text_error(d, c, i) == first_text_error(d, c, k),
    decreases k - i,
{
    if i < k {
        lemma_first_text_error(d, c, i + 1, k);
    }
}

/// Resolves and checks a schema whose length expressions are text: each
/// is translated in field order, over the names of the earlier fields and
/// the functions of `funcs`, and the first translation error decides;
/// then the declarations are checked as `packet` does.
#[verifier::loop_isolation(false)]
pub fn packet_from_text<F: LengthFunctions>(texts: Vec<FieldText>, name: String, funcs: &F) -> (r: Result<Packet, SchemaError>)
    ensures
        first_text_error(texts@, *funcs, 0) matches Some(e) ==> r == Err::<Packet, SchemaError>(e),
        first_text_error(texts@, *funcs, 0) is None ==> {
            let d = decls_of(texts@, *funcs);
            &&& (r matches Err(e) ==> first_error(d, 0) == Some(e))
            &&& (r is Ok <==> first_error(d, 0) is None)
            &&& (r matches Ok(p) ==> p.base_name == name && p.fields@.len() == d.len() && forall|i: int|
                0 <= i < d.len() ==> field_of(d[i], #[trigger] p.fields@[i]))
        },
{
    let ghost t0 = texts@;
    let mut names: Vec<String> = Vec::new();
    let mut i: usize = 0;
    while i < texts.len()
        invariant
            i <= t0.len(),
            texts@ == t0,
            names@.len() == i,
            forall|j: int| 0 <= j < i ==> names@[j]@ == t0[j].name@,
        decreases t0.len() - i,
    {
        names.push(texts[i].name.clone());
        i = i + 1;
    }
    proof {
        assert(name_seqs(names@) =~= text_names(t0));
    }
    let mut rest = texts;
    let mut decls: Vec<FieldDecl> = Vec::new();
    let n = rest.len();
    while rest.len() > 0
        invariant
            n == t0.len(),
            decls@.len() + rest@.len() == n,
            rest@ == t0.subrange(decls@.len() as int, n as int),
            names@.len() == n,
            name_seqs(names@) == text_names(t0),
            forall|j: int| 0 <= j < decls@.len() ==> length_at(t0, *funcs, j) is Ok,
            decls@ == decls_of(t0, *funcs).subrange(0, decls@.len() as int),
        decreases rest.len(),
    {
        let ghost k = decls@.len() as int;
        let t = rest.remove(0);
        proof {
            assert(t == t0[k]);
        }
        let k_exec = decls.len();
        let length = match &t.length {
            None => None,
            Some(txt) => match parse_length_expr(txt.as_str(), &names, k_exec, funcs) {
                Ok(e) => Some(e),
                Err(x) => {
                    proof {
                        assert(t0[k].length == Some(*txt));
                        assert(translation(txt@, text_names(t0), k as usize, *funcs) == Err::<Expr, SchemaError>(x));
                        assert(length_at(t0, *funcs, k) == Err::<Option<Expr>, SchemaError>(x));
                        lemma_first_text_error(t0, *funcs, 0, k);
                        assert(first_text_error(t0, *funcs, k) == Some(x));
                    }
                    return Err(x);
                },
            },
        };
        decls.push(
            FieldDecl {
                name: t.name,
                ty: t.ty,
                is_payload: t.is_payload,
                length,
                construct_with: t.construct_with,
            },
        );
        proof {
            assert(rest@ =~= t0.subrange(decls@.len() as int, n as int));
            assert(decls@ =~= decls_of(t0, *funcs).subrange(0, decls@.len() as int));
        }
    }
    proof {
        lemma_first_text_error(t0, *funcs, 0, n as int);
        assert(decls@ =~= decls_of(t0, *funcs));
    }
    packet(decls, name)
}

} // verus!
