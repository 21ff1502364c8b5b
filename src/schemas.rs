//! Short constructors for schemas written as data.
use crate::bits::Endianness;
use crate::expr::{Expr, NoCalls};
use crate::schema::{Field, Packet};
use crate::types::Type;
use crate::view::{MutablePacketView, PacketView};
use crate::layout::{layout_ok, min_size, Layout};
use vstd::prelude::*;
use vstd::string::*;

verus! {

/// A primitive type of `width` bits with its tag.
pub fn prim_type(tag: &str, width: usize, e: Endianness) -> (r: Type)
    ensures
        r matches Type::Primitive(t, w, en) && t@ == tag@ && w == width && en == e,
{
    Type::Primitive(String::from_str(tag), width, e)
}

/// A primitive field.
pub fn prim(name: &str, tag: &str, width: usize, e: Endianness) -> (r: Field)
    ensures
        r.name@ == name@,
        r.ty matches Type::Primitive(t, w, en) && t@ == tag@ && w == width && en == e,
        r.packet_length is None,
        !r.is_payload,
        r.construct_with is None,
{
    Field {
        name: String::from_str(name),
        ty: prim_type(tag, width, e),
        packet_length: None,
        is_payload: false,
        construct_with: None,
    }
}

/// A big-endian primitive field of at most 8 bits, tagged `u<width>`.
pub fn small(name: &str, tag: &str, width: usize) -> (r: Field)
    ensures
        r.name@ == name@,
        r.ty matches Type::Primitive(t, w, en) && t@ == tag@ && w == width && en == Endianness::Big,
        r.packet_length is None,
        !r.is_payload,
        r.construct_with is None,
{
    prim(name, tag, width, Endianness::Big)
}

/// A field of bytes, `Vec<u8>`, with an optional length expression.
pub fn bytes(name: &str, length: Option<Expr>, is_payload: bool) -> (r: Field)
    ensures
        r.name@ == name@,
        r.ty matches Type::Vector(inner) && (*inner matches Type::Primitive(_, w, _) && w == 8),
        r.packet_length == length,
        r.is_payload == is_payload,
        r.construct_with is None,
{
    Field {
        name: String::from_str(name),
        ty: Type::Vector(Box::new(prim_type("u8", 8, Endianness::Big))),
        packet_length: length,
        is_payload,
        construct_with: None,
    }
}

/// A field holding a sequence of nested packets of type `elem`.
pub fn packets(name: &str, elem: &str, length: Option<Expr>) -> (r: Field)
    ensures
        r.name@ == name@,
        r.ty matches Type::Vector(inner) && (*inner matches Type::Misc(t) && t@ == elem@),
        r.packet_length == length,
        !r.is_payload,
        r.construct_with is None,
{
    Field {
        name: String::from_str(name),
        ty: Type::Vector(Box::new(Type::Misc(String::from_str(elem)))),
        packet_length: length,
        is_payload: false,
        construct_with: None,
    }
}

/// A semantic field of type `ty`, built from the primitives `args`.
pub fn semantic(name: &str, ty: &str, args: Vec<Type>) -> (r: Field)
    ensures
        r.name@ == name@,
        r.ty matches Type::Misc(t) && t@ == ty@,
        r.packet_length is None,
        !r.is_payload,
        r.construct_with == Some(args),
{
    Field {
        name: String::from_str(name),
        ty: Type::Misc(String::from_str(ty)),
        packet_length: None,
        is_payload: false,
        construct_with: Some(args),
    }
}

/// A semantic field backed by a single big-endian byte.
pub fn semantic_u8(name: &str, ty: &str) -> (r: Field)
    ensures
        r.name@ == name@,
        r.ty matches Type::Misc(t) && t@ == ty@,
        r.packet_length is None,
        !r.is_payload,
        r.construct_with matches Some(a) && a@.len() == 1 && (a@[0] matches Type::Primitive(_, w, e) && w == 8 && e
            == Endianness::Big),
{
    let mut args: Vec<Type> = Vec::new();
    args.push(prim_type("u8", 8, Endianness::Big));
    semantic(name, ty, args)
}

pub fn lit(n: u64) -> (r: Expr)
    ensures
        r == Expr::Lit(n),
{
    Expr::Lit(n)
}

pub fn val(k: usize) -> (r: Expr)
    ensures
        r == Expr::Field(k),
{
    Expr::Field(k)
}

pub fn plus(a: Expr, b: Expr) -> (r: Expr)
    ensures
        r == Expr::Add(Box::new(a), Box::new(b)),
{
    Expr::Add(Box::new(a), Box::new(b))
}

pub fn minus(a: Expr, b: Expr) -> (r: Expr)
    ensures
        r == Expr::Sub(Box::new(a), Box::new(b)),
{
    Expr::Sub(Box::new(a), Box::new(b))
}

pub fn times(a: Expr, b: Expr) -> (r: Expr)
    ensures
        r == Expr::Mul(Box::new(a), Box::new(b)),
{
    Expr::Mul(Box::new(a), Box::new(b))
}

pub fn or(a: Expr, b: Expr) -> (r: Expr)
    ensures
        r == Expr::Or(Box::new(a), Box::new(b)),
{
    Expr::Or(Box::new(a), Box::new(b))
}

pub fn eq(a: Expr, b: Expr) -> (r: Expr)
    ensures
        r == Expr::Eq(Box::new(a), Box::new(b)),
{
    Expr::Eq(Box::new(a), Box::new(b))
}

pub fn and(a: Expr, b: Expr) -> (r: Expr)
    ensures
        r == Expr::And(Box::new(a), Box::new(b)),
{
    Expr::And(Box::new(a), Box::new(b))
}

/// `varint_length` of field `k`.
pub fn varint_len_of(k: usize) -> (r: Expr)
    ensures
        r == Expr::VarintLength(Box::new(Expr::Field(k))),
{
    Expr::VarintLength(Box::new(Expr::Field(k)))
}

/// A read-only view of `buf` under `schema`, when the layout accepts the
/// schema and the buffer holds its fixed part.
pub fn view_of<'a>(schema: Packet, buf: &'a [u8]) -> (r: Option<PacketView<'a>>)
    ensures
        r is Some <==> layout_ok(schema.fields@) && buf@.len() >= min_size(schema.fields@),
        r matches Some(v) ==> v.layout.wf() && v.layout.packet == schema && v.buf@ == buf@ && buf@.len()
            >= min_size(v.fields()),
{
    match Layout::new(schema, NoCalls) {
        Some(layout) => PacketView::new(layout, buf),
        None => None,
    }
}

/// A read-write view of `buf` under `schema`, when the layout accepts the
/// schema and the buffer holds its fixed part.
pub fn view_of_mut<'a>(schema: Packet, buf: &'a mut [u8]) -> (r: Option<MutablePacketView<'a>>)
    ensures
        r is Some <==> layout_ok(schema.fields@) && old(buf)@.len() >= min_size(schema.fields@),
        r matches Some(v) ==> v.layout.wf() && v.layout.packet == schema && v.bytes() == old(buf)@
            && old(buf)@.len() >= min_size(v.fields()),
{
    match Layout::new(schema, NoCalls) {
        Some(layout) => MutablePacketView::new(layout, buf),
        None => None,
    }
}

} // verus!
