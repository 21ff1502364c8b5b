//! QUIC packets and frames.
use crate::bits::{be_nat, Endianness};
use crate::expr::Expr;
use crate::layout::{arg_types, args_width, elem_ok, fixed_bits, layout_ok, min_size, prim_ok, payload_of, walk};
use crate::schema::{Field, Packet};
use crate::schemas::{
    and, bytes, eq, lit, minus, packets, plus, prim, prim_type, semantic, semantic_u8, small, times, val,
    varint_len_of, view_of,
};
use crate::types::Type;
use crate::view::{arg_value, get_args, get_payload, get_region, region_of, PacketView};
use crate::expr::LengthFunctions;
use vstd::prelude::*;
use vstd::slice::slice_to_vec;
use vstd::string::*;

pub use crate::expr::{packet_number, varint, varint_length};

verus! {

/// The header form bit: 0 for a short header, 1 for a long one.
#[derive(Clone, Copy, Debug, PartialEq, Eq, PartialOrd, Ord, Hash, Structural)]
pub struct HeaderForm(pub u8);

impl HeaderForm {
    /// Construct a new `HeaderForm`.
    pub fn new(val: u8) -> (r: Self)
        ensures
            r.0 == val,
    {
        Self(val)
    }

    /// The primitive values that back this type.
    pub fn to_primitive_values(&self) -> (r: (u8,))
        ensures
            r.0 == self.0,
    {
        (self.0,)
    }
}

/// The fixed bit, 1 in every valid packet.
#[derive(Clone, Copy, Debug, PartialEq, Eq, PartialOrd, Ord, Hash, Structural)]
pub struct FixedBit(pub u8);

impl FixedBit {
    /// Construct a new `FixedBit`.
    pub fn new(val: u8) -> (r: Self)
        ensures
            r.0 == val,
    {
        Self(val)
    }

    /// The primitive values that back this type.
    pub fn to_primitive_values(&self) -> (r: (u8,))
        ensures
            r.0 == self.0,
    {
        (self.0,)
    }
}

/// The type of a long-header packet: 0 initial, 1 0-RTT, 2 handshake,
/// 3 retry.
#[derive(Clone, Copy, Debug, PartialEq, Eq, PartialOrd, Ord, Hash, Structural)]
pub struct LongPacketType(pub u8);

impl LongPacketType {
    /// Construct a new `LongPacketType`.
    pub fn new(val: u8) -> (r: Self)
        ensures
            r.0 == val,
    {
        Self(val)
    }

    /// The primitive values that back this type.
    pub fn to_primitive_values(&self) -> (r: (u8,))
        ensures
            r.0 == self.0,
    {
        (self.0,)
    }
}

/// A QUIC version number.
#[derive(Clone, Copy, Debug, PartialEq, Eq, PartialOrd, Ord, Hash, Structural)]
pub struct Version(pub u32);

impl Version {
    /// Construct a new `Version`.
    pub fn new(val: u32) -> (r: Self)
        ensures
            r.0 == val,
    {
        Self(val)
    }

    /// The primitive values that back this type.
    pub fn to_primitive_values(&self) -> (r: (u32,))
        ensures
            r.0 == self.0,
    {
        (self.0,)
    }
}

/// The type byte of a frame.
#[derive(Clone, Copy, Debug, PartialEq, Eq, PartialOrd, Ord, Hash, Structural)]
pub struct FrameType(pub u8);

impl FrameType {
    /// Construct a new `FrameType`.
    pub fn new(val: u8) -> (r: Self)
        ensures
            r.0 == val,
    {
        Self(val)
    }

    /// The primitive values that back this type.
    pub fn to_primitive_values(&self) -> (r: (u8,))
        ensures
            r.0 == self.0,
    {
        (self.0,)
    }
}

/// A variable-length integer: a first byte whose top two bits give the number of bytes that follow.
#[derive(Debug)]
pub struct Varint {
    pub varint_1: u8,
    pub varint_2: Vec<u8>,
}

impl Varint {
    /// The shape of each field of this layout: its type, its length
    /// expression and whether it is the payload.
    pub open spec fn fields_spec(fs: Seq<Field>) -> bool {
        &&& fs.len() == 2
        &&& (fs[0].ty matches Type::Primitive(_, w, e) && w == 8 && e == Endianness::Big)
        &&& fs[0].packet_length is None
        &&& !fs[0].is_payload
        &&& (fs[1].ty matches Type::Vector(inner) && (*inner matches Type::Primitive(_, w, _) && w == 8))
        &&& fs[1].packet_length == Some(Expr::VarintLength(Box::new(Expr::Field(0))))
        &&& !fs[1].is_payload
    }

    /// The wire layout of this packet, field by field.
    pub fn schema() -> (r: Packet)
        ensures
            r.fields@.len() == 2,
            Self::fields_spec(r.fields@),
            layout_ok(r.fields@),
            min_size(r.fields@) == 1,
    {
        let mut f: Vec<Field> = Vec::new();
        f.push(small("varint_1", "u8", 8));
        f.push(bytes("varint_2", Some(varint_len_of(0)), false));
        proof {
            let fs = f@;
            reveal_with_fuel(fixed_bits, 3);
            assert forall|k: int| 0 <= k < 2 implies prim_ok(#[trigger] fs[k].ty) && elem_ok(fs[k].ty) && forall|a: int|
                0 <= a < arg_types(fs[k]).len() ==> prim_ok(#[trigger] arg_types(fs[k])[a]) by {
                if k == 0 {} else {}
            }
            assert(fixed_bits(fs, 2) == 8);
        }
        Packet { base_name: String::from_str("Varint"), fields: f }
    }
}

/// A version negotiation packet.
#[derive(Debug)]
pub struct VersionNegotiation {
    pub header_form: HeaderForm,
    pub unused: u8,
    pub version: u32,
    pub dest_id_len: u8,
    pub dest_id: Vec<u8>,
    pub src_id_len: u8,
    pub src_id: Vec<u8>,
    pub supported_versions: Vec<u8>,
}

impl VersionNegotiation {
    /// The shape of each field of this layout: its type, its length
    /// expression and whether it is the payload.
    pub open spec fn fields_spec(fs: Seq<Field>) -> bool {
        &&& fs.len() == 8
        &&& fs[0].ty is Misc
        &&& arg_types(fs[0]).len() == 1
        &&& (arg_types(fs[0])[0] matches Type::Primitive(_, w, e) && w == 1 && e == Endianness::Big)
        &&& fs[0].packet_length is None
        &&& !fs[0].is_payload
        &&& (fs[1].ty matches Type::Primitive(_, w, e) && w == 7 && e == Endianness::Big)
        &&& fs[1].packet_length is None
        &&& !fs[1].is_payload
        &&& (fs[2].ty matches Type::Primitive(_, w, e) && w == 32 && e == Endianness::Big)
        &&& fs[2].packet_length is None
        &&& !fs[2].is_payload
        &&& (fs[3].ty matches Type::Primitive(_, w, e) && w == 8 && e == Endianness::Big)
        &&& fs[3].packet_length is None
        &&& !fs[3].is_payload
        &&& (fs[4].ty matches Type::Vector(inner) && (*inner matches Type::Primitive(_, w, _) && w == 8))
        &&& fs[4].packet_length == Some(Expr::Field(3))
        &&& !fs[4].is_payload
        &&& (fs[5].ty matches Type::Primitive(_, w, e) && w == 8 && e == Endianness::Big)
        &&& fs[5].packet_length is None
        &&& !fs[5].is_payload
        &&& (fs[6].ty matches Type::Vector(inner) && (*inner matches Type::Primitive(_, w, _) && w == 8))
        &&& fs[6].packet_length == Some(Expr::Field(5))
        &&& !fs[6].is_payload
        &&& (fs[7].ty matches Type::Vector(inner) && (*inner matches Type::Primitive(_, w, _) && w == 8))
        &&& fs[7].packet_length is None
        &&& !fs[7].is_payload
    }

    /// The wire layout of this packet, field by field.
    pub fn schema() -> (r: Packet)
        ensures
            r.fields@.len() == 8,
            Self::fields_spec(r.fields@),
            layout_ok(r.fields@),
            min_size(r.fields@) == 7,
    {
        let mut f: Vec<Field> = Vec::new();
        {
            let mut a: Vec<Type> = Vec::new();
            a.push(prim_type("u1", 1, Endianness::Big));
            f.push(semantic("header_form", "HeaderForm", a));
        }
        f.push(small("unused", "u7", 7));
        f.push(prim("version", "u32be", 32, Endianness::Big));
        f.push(small("dest_id_len", "u8", 8));
        f.push(bytes("dest_id", Some(val(3)), false));
        f.push(small("src_id_len", "u8", 8));
        f.push(bytes("src_id", Some(val(5)), false));
        f.push(bytes("supported_versions", None, false));
        proof {
            let fs = f@;
            reveal_with_fuel(fixed_bits, 9);
            reveal_with_fuel(args_width, 2);
            assert forall|k: int| 0 <= k < 8 implies prim_ok(#[trigger] fs[k].ty) && elem_ok(fs[k].ty) && forall|a: int|
                0 <= a < arg_types(fs[k]).len() ==> prim_ok(#[trigger] arg_types(fs[k])[a]) by {
                if k == 0 {} else if k == 1 {} else if k == 2 {} else if k == 3 {} else if k == 4 {} else if k == 5 {} else if k == 6 {} else {}
            }
            assert(fixed_bits(fs, 8) == 56);
        }
        Packet { base_name: String::from_str("VersionNegotiation"), fields: f }
    }
}

/// An initial packet (long header).
#[derive(Debug)]
pub struct Initial {
    pub header_form: HeaderForm,
    pub fixed_bit: FixedBit,
    pub long_packet_type: LongPacketType,
    pub reserved: u8,
    pub packet_number_len: u8,
    pub version: Version,
    pub dest_id_len: u8,
    pub dest_id: Vec<u8>,
    pub src_id_len: u8,
    pub src_id: Vec<u8>,
    pub token_length_1: u8,
    pub token_length_2: Vec<u8>,
    pub token: Vec<u8>,
    pub length_1: u8,
    pub length_2: Vec<u8>,
    pub packet_number: Vec<u8>,
    pub frames: Vec<u8>,
    pub remaining: Vec<u8>,
}

impl Initial {
    /// The shape of each field of this layout: its type, its length
    /// expression and whether it is the payload.
    pub open spec fn fields_spec(fs: Seq<Field>) -> bool {
        &&& fs.len() == 18
        &&& fs[0].ty is Misc
        &&& arg_types(fs[0]).len() == 1
        &&& (arg_types(fs[0])[0] matches Type::Primitive(_, w, e) && w == 1 && e == Endianness::Big)
        &&& fs[0].packet_length is None
        &&& !fs[0].is_payload
        &&& fs[1].ty is Misc
        &&& arg_types(fs[1]).len() == 1
        &&& (arg_types(fs[1])[0] matches Type::Primitive(_, w, e) && w == 1 && e == Endianness::Big)
        &&& fs[1].packet_length is None
        &&& !fs[1].is_payload
        &&& fs[2].ty is Misc
        &&& arg_types(fs[2]).len() == 1
        &&& (arg_types(fs[2])[0] matches Type::Primitive(_, w, e) && w == 2 && e == Endianness::Big)
        &&& fs[2].packet_length is None
        &&& !fs[2].is_payload
        &&& (fs[3].ty matches Type::Primitive(_, w, e) && w == 2 && e == Endianness::Big)
        &&& fs[3].packet_length is None
        &&& !fs[3].is_payload
        &&& (fs[4].ty matches Type::Primitive(_, w, e) && w == 2 && e == Endianness::Big)
        &&& fs[4].packet_length is None
        &&& !fs[4].is_payload
        &&& fs[5].ty is Misc
        &&& arg_types(fs[5]).len() == 1
        &&& (arg_types(fs[5])[0] matches Type::Primitive(_, w, e) && w == 32 && e == Endianness::Big)
        &&& fs[5].packet_length is None
        &&& !fs[5].is_payload
        &&& (fs[6].ty matches Type::Primitive(_, w, e) && w == 8 && e == Endianness::Big)
        &&& fs[6].packet_length is None
        &&& !fs[6].is_payload
        &&& (fs[7].ty matches Type::Vector(inner) && (*inner matches Type::Primitive(_, w, _) && w == 8))
        &&& fs[7].packet_length == Some(Expr::Field(6))
        &&& !fs[7].is_payload
        &&& (fs[8].ty matches Type::Primitive(_, w, e) && w == 8 && e == Endianness::Big)
        &&& fs[8].packet_length is None
        &&& !fs[8].is_payload
        &&& (fs[9].ty matches Type::Vector(inner) && (*inner matches Type::Primitive(_, w, _) && w == 8))
        &&& fs[9].packet_length == Some(Expr::Field(8))
        &&& !fs[9].is_payload
        &&& (fs[10].ty matches Type::Primitive(_, w, e) && w == 8 && e == Endianness::Big)
        &&& fs[10].packet_length is None
        &&& !fs[10].is_payload
        &&& (fs[11].ty matches Type::Vector(inner) && (*inner matches Type::Primitive(_, w, _) && w == 8))
        &&& fs[11].packet_length == Some(Expr::VarintLength(Box::new(Expr::Field(10))))
        &&& !fs[11].is_payload
        &&& (fs[12].ty matches Type::Vector(inner) && (*inner matches Type::Primitive(_, w, _) && w == 8))
        &&& fs[12].packet_length == Some(Expr::Varint(10, 11))
        &&& !fs[12].is_payload
        &&& (fs[13].ty matches Type::Primitive(_, w, e) && w == 8 && e == Endianness::Big)
        &&& fs[13].packet_length is None
        &&& !fs[13].is_payload
        &&& (fs[14].ty matches Type::Vector(inner) && (*inner matches Type::Primitive(_, w, _) && w == 8))
        &&& fs[14].packet_length == Some(Expr::VarintLength(Box::new(Expr::Field(13))))
        &&& !fs[14].is_payload
        &&& (fs[15].ty matches Type::Vector(inner) && (*inner matches Type::Primitive(_, w, _) && w == 8))
        &&& fs[15].packet_length == Some(Expr::Add(Box::new(Expr::Field(4)), Box::new(Expr::Lit(1))))
        &&& !fs[15].is_payload
        &&& (fs[16].ty matches Type::Vector(inner) && (*inner matches Type::Primitive(_, w, _) && w == 8))
        &&& fs[16].packet_length == Some(Expr::Sub(Box::new(Expr::Varint(13, 14)), Box::new(Expr::Len(15))))
        &&& !fs[16].is_payload
        &&& (fs[17].ty matches Type::Vector(inner) && (*inner matches Type::Primitive(_, w, _) && w == 8))
        &&& fs[17].packet_length is None
        &&& !fs[17].is_payload
    }

    /// The wire layout of this packet, field by field.
    pub fn schema() -> (r: Packet)
        ensures
            r.fields@.len() == 18,
            Self::fields_spec(r.fields@),
            layout_ok(r.fields@),
            min_size(r.fields@) == 9,
    {
        let mut f: Vec<Field> = Vec::new();
        {
            let mut a: Vec<Type> = Vec::new();
            a.push(prim_type("u1", 1, Endianness::Big));
            f.push(semantic("header_form", "HeaderForm", a));
        }
        {
            let mut a: Vec<Type> = Vec::new();
            a.push(prim_type("u1", 1, Endianness::Big));
            f.push(semantic("fixed_bit", "FixedBit", a));
        }
        {
            let mut a: Vec<Type> = Vec::new();
            a.push(prim_type("u2", 2, Endianness::Big));
            f.push(semantic("long_packet_type", "LongPacketType", a));
        }
        f.push(small("reserved", "u2", 2));
        f.push(small("packet_number_len", "u2", 2));
        {
            let mut a: Vec<Type> = Vec::new();
            a.push(prim_type("u32be", 32, Endianness::Big));
            f.push(semantic("version", "Version", a));
        }
        f.push(small("dest_id_len", "u8", 8));
        f.push(bytes("dest_id", Some(val(6)), false));
        f.push(small("src_id_len", "u8", 8));
        f.push(bytes("src_id", Some(val(8)), false));
        f.push(small("token_length_1", "u8", 8));
        f.push(bytes("token_length_2", Some(varint_len_of(10)), false));
        f.push(bytes("token", Some(Expr::Varint(10, 11)), false));
        f.push(small("length_1", "u8", 8));
        f.push(bytes("length_2", Some(varint_len_of(13)), false));
        f.push(bytes("packet_number", Some(plus(val(4), lit(1))), false));
        f.push(bytes("frames", Some(minus(Expr::Varint(13, 14), Expr::Len(15))), false));
        f.push(bytes("remaining", None, false));
        proof {
            let fs = f@;
            reveal_with_fuel(fixed_bits, 19);
            reveal_with_fuel(args_width, 2);
            assert forall|k: int| 0 <= k < 18 implies prim_ok(#[trigger] fs[k].ty) && elem_ok(fs[k].ty) && forall|a: int|
                0 <= a < arg_types(fs[k]).len() ==> prim_ok(#[trigger] arg_types(fs[k])[a]) by {
                if k == 0 {} else if k == 1 {} else if k == 2 {} else if k == 3 {} else if k == 4 {} else if k == 5 {} else if k == 6 {} else if k == 7 {} else if k == 8 {} else if k == 9 {} else if k == 10 {} else if k == 11 {} else if k == 12 {} else if k == 13 {} else if k == 14 {} else if k == 15 {} else if k == 16 {} else {}
            }
            assert(fixed_bits(fs, 18) == 72);
        }
        Packet { base_name: String::from_str("Initial"), fields: f }
    }
}

/// A 0-RTT packet (long header).
#[derive(Debug)]
pub struct ZeroRtt {
    pub header_form: HeaderForm,
    pub fixed_bit: FixedBit,
    pub long_packet_type: LongPacketType,
    pub reserved: u8,
    pub packet_number_len: u8,
    pub version: Version,
    pub dest_id_len: u8,
    pub dest_id: Vec<u8>,
    pub src_id_len: u8,
    pub src_id: Vec<u8>,
    pub length_1: u8,
    pub length_2: Vec<u8>,
    pub packet_number: Vec<u8>,
    pub frames: Vec<u8>,
    pub remaining: Vec<u8>,
}

impl ZeroRtt {
    /// The shape of each field of this layout: its type, its length
    /// expression and whether it is the payload.
    pub open spec fn fields_spec(fs: Seq<Field>) -> bool {
        &&& fs.len() == 15
        &&& fs[0].ty is Misc
        &&& arg_types(fs[0]).len() == 1
        &&& (arg_types(fs[0])[0] matches Type::Primitive(_, w, e) && w == 1 && e == Endianness::Big)
        &&& fs[0].packet_length is None
        &&& !fs[0].is_payload
        &&& fs[1].ty is Misc
        &&& arg_types(fs[1]).len() == 1
        &&& (arg_types(fs[1])[0] matches Type::Primitive(_, w, e) && w == 1 && e == Endianness::Big)
        &&& fs[1].packet_length is None
        &&& !fs[1].is_payload
        &&& fs[2].ty is Misc
        &&& arg_types(fs[2]).len() == 1
        &&& (arg_types(fs[2])[0] matches Type::Primitive(_, w, e) && w == 2 && e == Endianness::Big)
        &&& fs[2].packet_length is None
        &&& !fs[2].is_payload
        &&& (fs[3].ty matches Type::Primitive(_, w, e) && w == 2 && e == Endianness::Big)
        &&& fs[3].packet_length is None
        &&& !fs[3].is_payload
        &&& (fs[4].ty matches Type::Primitive(_, w, e) && w == 2 && e == Endianness::Big)
        &&& fs[4].packet_length is None
        &&& !fs[4].is_payload
        &&& fs[5].ty is Misc
        &&& arg_types(fs[5]).len() == 1
        &&& (arg_types(fs[5])[0] matches Type::Primitive(_, w, e) && w == 32 && e == Endianness::Big)
        &&& fs[5].packet_length is None
        &&& !fs[5].is_payload
        &&& (fs[6].ty matches Type::Primitive(_, w, e) && w == 8 && e == Endianness::Big)
        &&& fs[6].packet_length is None
        &&& !fs[6].is_payload
        &&& (fs[7].ty matches Type::Vector(inner) && (*inner matches Type::Primitive(_, w, _) && w == 8))
        &&& fs[7].packet_length == Some(Expr::Field(6))
        &&& !fs[7].is_payload
        &&& (fs[8].ty matches Type::Primitive(_, w, e) && w == 8 && e == Endianness::Big)
        &&& fs[8].packet_length is None
        &&& !fs[8].is_payload
        &&& (fs[9].ty matches Type::Vector(inner) && (*inner matches Type::Primitive(_, w, _) && w == 8))
        &&& fs[9].packet_length == Some(Expr::Field(8))
        &&& !fs[9].is_payload
        &&& (fs[10].ty matches Type::Primitive(_, w, e) && w == 8 && e == Endianness::Big)
        &&& fs[10].packet_length is None
        &&& !fs[10].is_payload
        &&& (fs[11].ty matches Type::Vector(inner) && (*inner matches Type::Primitive(_, w, _) && w == 8))
        &&& fs[11].packet_length == Some(Expr::VarintLength(Box::new(Expr::Field(10))))
        &&& !fs[11].is_payload
        &&& (fs[12].ty matches Type::Vector(inner) && (*inner matches Type::Primitive(_, w, _) && w == 8))
        &&& fs[12].packet_length == Some(Expr::Add(Box::new(Expr::Field(4)), Box::new(Expr::Lit(1))))
        &&& !fs[12].is_payload
        &&& (fs[13].ty matches Type::Vector(inner) && (*inner matches Type::Primitive(_, w, _) && w == 8))
        &&& fs[13].packet_length == Some(Expr::Sub(Box::new(Expr::Varint(10, 11)), Box::new(Expr::Len(12))))
        &&& !fs[13].is_payload
        &&& (fs[14].ty matches Type::Vector(inner) && (*inner matches Type::Primitive(_, w, _) && w == 8))
        &&& fs[14].packet_length is None
        &&& !fs[14].is_payload
    }

    /// The wire layout of this packet, field by field.
    pub fn schema() -> (r: Packet)
        ensures
            r.fields@.len() == 15,
            Self::fields_spec(r.fields@),
            layout_ok(r.fields@),
            min_size(r.fields@) == 8,
    {
        let mut f: Vec<Field> = Vec::new();
        {
            let mut a: Vec<Type> = Vec::new();
            a.push(prim_type("u1", 1, Endianness::Big));
            f.push(semantic("header_form", "HeaderForm", a));
        }
        {
            let mut a: Vec<Type> = Vec::new();
            a.push(prim_type("u1", 1, Endianness::Big));
            f.push(semantic("fixed_bit", "FixedBit", a));
        }
        {
            let mut a: Vec<Type> = Vec::new();
            a.push(prim_type("u2", 2, Endianness::Big));
            f.push(semantic("long_packet_type", "LongPacketType", a));
        }
        f.push(small("reserved", "u2", 2));
        f.push(small("packet_number_len", "u2", 2));
        {
            let mut a: Vec<Type> = Vec::new();
            a.push(prim_type("u32be", 32, Endianness::Big));
            f.push(semantic("version", "Version", a));
        }
        f.push(small("dest_id_len", "u8", 8));
        f.push(bytes("dest_id", Some(val(6)), false));
        f.push(small("src_id_len", "u8", 8));
        f.push(bytes("src_id", Some(val(8)), false));
        f.push(small("length_1", "u8", 8));
        f.push(bytes("length_2", Some(varint_len_of(10)), false));
        f.push(bytes("packet_number", Some(plus(val(4), lit(1))), false));
        f.push(bytes("frames", Some(minus(Expr::Varint(10, 11), Expr::Len(12))), false));
        f.push(bytes("remaining", None, false));
        proof {
            let fs = f@;
            reveal_with_fuel(fixed_bits, 16);
            reveal_with_fuel(args_width, 2);
            assert forall|k: int| 0 <= k < 15 implies prim_ok(#[trigger] fs[k].ty) && elem_ok(fs[k].ty) && forall|a: int|
                0 <= a < arg_types(fs[k]).len() ==> prim_ok(#[trigger] arg_types(fs[k])[a]) by {
                if k == 0 {} else if k == 1 {} else if k == 2 {} else if k == 3 {} else if k == 4 {} else if k == 5 {} else if k == 6 {} else if k == 7 {} else if k == 8 {} else if k == 9 {} else if k == 10 {} else if k == 11 {} else if k == 12 {} else if k == 13 {} else {}
            }
            assert(fixed_bits(fs, 15) == 64);
        }
        Packet { base_name: String::from_str("ZeroRtt"), fields: f }
    }
}

/// A handshake packet (long header).
#[derive(Debug)]
pub struct Handshake {
    pub header_form: HeaderForm,
    pub fixed_bit: FixedBit,
    pub long_packet_type: LongPacketType,
    pub reserved: u8,
    pub packet_number_len: u8,
    pub version: Version,
    pub dest_id_len: u8,
    pub dest_id: Vec<u8>,
    pub src_id_len: u8,
    pub src_id: Vec<u8>,
    pub length_1: u8,
    pub length_2: Vec<u8>,
    pub packet_number: Vec<u8>,
    pub frames: Vec<u8>,
    pub remaining: Vec<u8>,
}

impl Handshake {
    /// The shape of each field of this layout: its type, its length
    /// expression and whether it is the payload.
    pub open spec fn fields_spec(fs: Seq<Field>) -> bool {
        &&& fs.len() == 15
        &&& fs[0].ty is Misc
        &&& arg_types(fs[0]).len() == 1
        &&& (arg_types(fs[0])[0] matches Type::Primitive(_, w, e) && w == 1 && e == Endianness::Big)
        &&& fs[0].packet_length is None
        &&& !fs[0].is_payload
        &&& fs[1].ty is Misc
        &&& arg_types(fs[1]).len() == 1
        &&& (arg_types(fs[1])[0] matches Type::Primitive(_, w, e) && w == 1 && e == Endianness::Big)
        &&& fs[1].packet_length is None
        &&& !fs[1].is_payload
        &&& fs[2].ty is Misc
        &&& arg_types(fs[2]).len() == 1
        &&& (arg_types(fs[2])[0] matches Type::Primitive(_, w, e) && w == 2 && e == Endianness::Big)
        &&& fs[2].packet_length is None
        &&& !fs[2].is_payload
        &&& (fs[3].ty matches Type::Primitive(_, w, e) && w == 2 && e == Endianness::Big)
        &&& fs[3].packet_length is None
        &&& !fs[3].is_payload
        &&& (fs[4].ty matches Type::Primitive(_, w, e) && w == 2 && e == Endianness::Big)
        &&& fs[4].packet_length is None
        &&& !fs[4].is_payload
        &&& fs[5].ty is Misc
        &&& arg_types(fs[5]).len() == 1
        &&& (arg_types(fs[5])[0] matches Type::Primitive(_, w, e) && w == 32 && e == Endianness::Big)
        &&& fs[5].packet_length is None
        &&& !fs[5].is_payload
        &&& (fs[6].ty matches Type::Primitive(_, w, e) && w == 8 && e == Endianness::Big)
        &&& fs[6].packet_length is None
        &&& !fs[6].is_payload
        &&& (fs[7].ty matches Type::Vector(inner) && (*inner matches Type::Primitive(_, w, _) && w == 8))
        &&& fs[7].packet_length == Some(Expr::Field(6))
        &&& !fs[7].is_payload
        &&& (fs[8].ty matches Type::Primitive(_, w, e) && w == 8 && e == Endianness::Big)
        &&& fs[8].packet_length is None
        &&& !fs[8].is_payload
        &&& (fs[9].ty matches Type::Vector(inner) && (*inner matches Type::Primitive(_, w, _) && w == 8))
        &&& fs[9].packet_length == Some(Expr::Field(8))
        &&& !fs[9].is_payload
        &&& (fs[10].ty matches Type::Primitive(_, w, e) && w == 8 && e == Endianness::Big)
        &&& fs[10].packet_length is None
        &&& !fs[10].is_payload
        &&& (fs[11].ty matches Type::Vector(inner) && (*inner matches Type::Primitive(_, w, _) && w == 8))
        &&& fs[11].packet_length == Some(Expr::VarintLength(Box::new(Expr::Field(10))))
        &&& !fs[11].is_payload
        &&& (fs[12].ty matches Type::Vector(inner) && (*inner matches Type::Primitive(_, w, _) && w == 8))
        &&& fs[12].packet_length == Some(Expr::Add(Box::new(Expr::Field(4)), Box::new(Expr::Lit(1))))
        &&& !fs[12].is_payload
        &&& (fs[13].ty matches Type::Vector(inner) && (*inner matches Type::Primitive(_, w, _) && w == 8))
        &&& fs[13].packet_length == Some(Expr::Sub(Box::new(Expr::Varint(10, 11)), Box::new(Expr::Len(12))))
        &&& !fs[13].is_payload
        &&& (fs[14].ty matches Type::Vector(inner) && (*inner matches Type::Primitive(_, w, _) && w == 8))
        &&& fs[14].packet_length is None
        &&& !fs[14].is_payload
    }

    /// The wire layout of this packet, field by field.
    pub fn schema() -> (r: Packet)
        ensures
            r.fields@.len() == 15,
            Self::fields_spec(r.fields@),
            layout_ok(r.fields@),
            min_size(r.fields@) == 8,
    {
        let mut f: Vec<Field> = Vec::new();
        {
            let mut a: Vec<Type> = Vec::new();
            a.push(prim_type("u1", 1, Endianness::Big));
            f.push(semantic("header_form", "HeaderForm", a));
        }
        {
            let mut a: Vec<Type> = Vec::new();
            a.push(prim_type("u1", 1, Endianness::Big));
            f.push(semantic("fixed_bit", "FixedBit", a));
        }
        {
            let mut a: Vec<Type> = Vec::new();
            a.push(prim_type("u2", 2, Endianness::Big));
            f.push(semantic("long_packet_type", "LongPacketType", a));
        }
        f.push(small("reserved", "u2", 2));
        f.push(small("packet_number_len", "u2", 2));
        {
            let mut a: Vec<Type> = Vec::new();
            a.push(prim_type("u32be", 32, Endianness::Big));
            f.push(semantic("version", "Version", a));
        }
        f.push(small("dest_id_len", "u8", 8));
        f.push(bytes("dest_id", Some(val(6)), false));
        f.push(small("src_id_len", "u8", 8));
        f.push(bytes("src_id", Some(val(8)), false));
        f.push(small("length_1", "u8", 8));
        f.push(bytes("length_2", Some(varint_len_of(10)), false));
        f.push(bytes("packet_number", Some(plus(val(4), lit(1))), false));
        f.push(bytes("frames", Some(minus(Expr::Varint(10, 11), Expr::Len(12))), false));
        f.push(bytes("remaining", None, false));
        proof {
            let fs = f@;
            reveal_with_fuel(fixed_bits, 16);
            reveal_with_fuel(args_width, 2);
            assert forall|k: int| 0 <= k < 15 implies prim_ok(#[trigger] fs[k].ty) && elem_ok(fs[k].ty) && forall|a: int|
                0 <= a < arg_types(fs[k]).len() ==> prim_ok(#[trigger] arg_types(fs[k])[a]) by {
                if k == 0 {} else if k == 1 {} else if k == 2 {} else if k == 3 {} else if k == 4 {} else if k == 5 {} else if k == 6 {} else if k == 7 {} else if k == 8 {} else if k == 9 {} else if k == 10 {} else if k == 11 {} else if k == 12 {} else if k == 13 {} else {}
            }
            assert(fixed_bits(fs, 15) == 64);
        }
        Packet { base_name: String::from_str("Handshake"), fields: f }
    }
}

/// A retry packet (long header).
#[derive(Debug)]
pub struct Retry {
    pub header_form: HeaderForm,
    pub fixed_bit: FixedBit,
    pub long_packet_type: LongPacketType,
    pub unused: u8,
    pub version: Version,
    pub dest_id_len: u8,
    pub dest_id: Vec<u8>,
    pub src_id_len: u8,
    pub src_id: Vec<u8>,
    pub retry_token: Vec<u8>,
}

impl Retry {
    /// The shape of each field of this layout: its type, its length
    /// expression and whether it is the payload.
    pub open spec fn fields_spec(fs: Seq<Field>) -> bool {
        &&& fs.len() == 10
        &&& fs[0].ty is Misc
        &&& arg_types(fs[0]).len() == 1
        &&& (arg_types(fs[0])[0] matches Type::Primitive(_, w, e) && w == 1 && e == Endianness::Big)
        &&& fs[0].packet_length is None
        &&& !fs[0].is_payload
        &&& fs[1].ty is Misc
        &&& arg_types(fs[1]).len() == 1
        &&& (arg_types(fs[1])[0] matches Type::Primitive(_, w, e) && w == 1 && e == Endianness::Big)
        &&& fs[1].packet_length is None
        &&& !fs[1].is_payload
        &&& fs[2].ty is Misc
        &&& arg_types(fs[2]).len() == 1
        &&& (arg_types(fs[2])[0] matches Type::Primitive(_, w, e) && w == 2 && e == Endianness::Big)
        &&& fs[2].packet_length is None
        &&& !fs[2].is_payload
        &&& (fs[3].ty matches Type::Primitive(_, w, e) && w == 4 && e == Endianness::Big)
        &&& fs[3].packet_length is None
        &&& !fs[3].is_payload
        &&& fs[4].ty is Misc
        &&& arg_types(fs[4]).len() == 1
        &&& (arg_types(fs[4])[0] matches Type::Primitive(_, w, e) && w == 32 && e == Endianness::Big)
        &&& fs[4].packet_length is None
        &&& !fs[4].is_payload
        &&& (fs[5].ty matches Type::Primitive(_, w, e) && w == 8 && e == Endianness::Big)
        &&& fs[5].packet_length is None
        &&& !fs[5].is_payload
        &&& (fs[6].ty matches Type::Vector(inner) && (*inner matches Type::Primitive(_, w, _) && w == 8))
        &&& fs[6].packet_length == Some(Expr::Field(5))
        &&& !fs[6].is_payload
        &&& (fs[7].ty matches Type::Primitive(_, w, e) && w == 8 && e == Endianness::Big)
        &&& fs[7].packet_length is None
        &&& !fs[7].is_payload
        &&& (fs[8].ty matches Type::Vector(inner) && (*inner matches Type::Primitive(_, w, _) && w == 8))
        &&& fs[8].packet_length == Some(Expr::Field(7))
        &&& !fs[8].is_payload
        &&& (fs[9].ty matches Type::Vector(inner) && (*inner matches Type::Primitive(_, w, _) && w == 8))
        &&& fs[9].packet_length is None
        &&& !fs[9].is_payload
    }

    /// The wire layout of this packet, field by field.
    pub fn schema() -> (r: Packet)
        ensures
            r.fields@.len() == 10,
            Self::fields_spec(r.fields@),
            layout_ok(r.fields@),
            min_size(r.fields@) == 7,
    {
        let mut f: Vec<Field> = Vec::new();
        {
            let mut a: Vec<Type> = Vec::new();
            a.push(prim_type("u1", 1, Endianness::Big));
            f.push(semantic("header_form", "HeaderForm", a));
        }
        {
            let mut a: Vec<Type> = Vec::new();
            a.push(prim_type("u1", 1, Endianness::Big));
            f.push(semantic("fixed_bit", "FixedBit", a));
        }
        {
            let mut a: Vec<Type> = Vec::new();
            a.push(prim_type("u2", 2, Endianness::Big));
            f.push(semantic("long_packet_type", "LongPacketType", a));
        }
        f.push(small("unused", "u4", 4));
        {
            let mut a: Vec<Type> = Vec::new();
            a.push(prim_type("u32be", 32, Endianness::Big));
            f.push(semantic("version", "Version", a));
        }
        f.push(small("dest_id_len", "u8", 8));
        f.push(bytes("dest_id", Some(val(5)), false));
        f.push(small("src_id_len", "u8", 8));
        f.push(bytes("src_id", Some(val(7)), false));
        f.push(bytes("retry_token", None, false));
        proof {
            let fs = f@;
            reveal_with_fuel(fixed_bits, 11);
            reveal_with_fuel(args_width, 2);
            assert forall|k: int| 0 <= k < 10 implies prim_ok(#[trigger] fs[k].ty) && elem_ok(fs[k].ty) && forall|a: int|
                0 <= a < arg_types(fs[k]).len() ==> prim_ok(#[trigger] arg_types(fs[k])[a]) by {
                if k == 0 {} else if k == 1 {} else if k == 2 {} else if k == 3 {} else if k == 4 {} else if k == 5 {} else if k == 6 {} else if k == 7 {} else if k == 8 {} else {}
            }
            assert(fixed_bits(fs, 10) == 56);
        }
        Packet { base_name: String::from_str("Retry"), fields: f }
    }
}

/// A 1-RTT packet (short header).
#[derive(Debug)]
pub struct OneRtt {
    pub header_form: u8,
    pub fixed_bit: u8,
    pub spin_bit: u8,
    pub reserved_bits: u8,
    pub key_phase: u8,
    pub packet_number_len: u8,
    pub dest_id: Vec<u8>,
    pub packet_number: Vec<u8>,
    pub payload: Vec<u8>,
}

impl OneRtt {
    /// The shape of each field of this layout: its type, its length
    /// expression and whether it is the payload.
    pub open spec fn fields_spec(fs: Seq<Field>) -> bool {
        &&& fs.len() == 9
        &&& (fs[0].ty matches Type::Primitive(_, w, e) && w == 1 && e == Endianness::Big)
        &&& fs[0].packet_length is None
        &&& !fs[0].is_payload
        &&& (fs[1].ty matches Type::Primitive(_, w, e) && w == 1 && e == Endianness::Big)
        &&& fs[1].packet_length is None
        &&& !fs[1].is_payload
        &&& (fs[2].ty matches Type::Primitive(_, w, e) && w == 1 && e == Endianness::Big)
        &&& fs[2].packet_length is None
        &&& !fs[2].is_payload
        &&& (fs[3].ty matches Type::Primitive(_, w, e) && w == 2 && e == Endianness::Big)
        &&& fs[3].packet_length is None
        &&& !fs[3].is_payload
        &&& (fs[4].ty matches Type::Primitive(_, w, e) && w == 1 && e == Endianness::Big)
        &&& fs[4].packet_length is None
        &&& !fs[4].is_payload
        &&& (fs[5].ty matches Type::Primitive(_, w, e) && w == 2 && e == Endianness::Big)
        &&& fs[5].packet_length is None
        &&& !fs[5].is_payload
        &&& (fs[6].ty matches Type::Vector(inner) && (*inner matches Type::Primitive(_, w, _) && w == 8))
        &&& fs[6].packet_length == Some(Expr::Lit(8))
        &&& !fs[6].is_payload
        &&& (fs[7].ty matches Type::Vector(inner) && (*inner matches Type::Primitive(_, w, _) && w == 8))
        &&& fs[7].packet_length == Some(Expr::Add(Box::new(Expr::Field(5)), Box::new(Expr::Lit(1))))
        &&& !fs[7].is_payload
        &&& (fs[8].ty matches Type::Vector(inner) && (*inner matches Type::Primitive(_, w, _) && w == 8))
        &&& fs[8].packet_length is None
        &&& fs[8].is_payload
    }

    /// The wire layout of this packet, field by field.
    pub fn schema() -> (r: Packet)
        ensures
            r.fields@.len() == 9,
            Self::fields_spec(r.fields@),
            layout_ok(r.fields@),
            min_size(r.fields@) == 1,
    {
        let mut f: Vec<Field> = Vec::new();
        f.push(small("header_form", "u1", 1));
        f.push(small("fixed_bit", "u1", 1));
        f.push(small("spin_bit", "u1", 1));
        f.push(small("reserved_bits", "u2", 2));
        f.push(small("key_phase", "u1", 1));
        f.push(small("packet_number_len", "u2", 2));
        f.push(bytes("dest_id", Some(lit(8)), false));
        f.push(bytes("packet_number", Some(plus(val(5), lit(1))), false));
        f.push(bytes("payload", None, true));
        proof {
            let fs = f@;
            reveal_with_fuel(fixed_bits, 10);
            assert forall|k: int| 0 <= k < 9 implies prim_ok(#[trigger] fs[k].ty) && elem_ok(fs[k].ty) && forall|a: int|
                0 <= a < arg_types(fs[k]).len() ==> prim_ok(#[trigger] arg_types(fs[k])[a]) by {
                if k == 0 {} else if k == 1 {} else if k == 2 {} else if k == 3 {} else if k == 4 {} else if k == 5 {} else if k == 6 {} else if k == 7 {} else {}
            }
            assert(fixed_bits(fs, 9) == 8);
        }
        Packet { base_name: String::from_str("OneRtt"), fields: f }
    }
}

/// A Padding frame.
#[derive(Debug)]
pub struct Padding {
    pub ty: FrameType,
    pub remaining: Vec<u8>,
}

impl Padding {
    /// The shape of each field of this layout: its type, its length
    /// expression and whether it is the payload.
    pub open spec fn fields_spec(fs: Seq<Field>) -> bool {
        &&& fs.len() == 2
        &&& fs[0].ty is Misc
        &&& arg_types(fs[0]).len() == 1
        &&& (arg_types(fs[0])[0] matches Type::Primitive(_, w, e) && w == 8 && e == Endianness::Big)
        &&& fs[0].packet_length is None
        &&& !fs[0].is_payload
        &&& (fs[1].ty matches Type::Vector(inner) && (*inner matches Type::Primitive(_, w, _) && w == 8))
        &&& fs[1].packet_length is None
        &&& !fs[1].is_payload
    }

    /// The wire layout of this packet, field by field.
    pub fn schema() -> (r: Packet)
        ensures
            r.fields@.len() == 2,
            Self::fields_spec(r.fields@),
            layout_ok(r.fields@),
            min_size(r.fields@) == 1,
    {
        let mut f: Vec<Field> = Vec::new();
        f.push(semantic_u8("ty", "FrameType"));
        f.push(bytes("remaining", None, false));
        proof {
            let fs = f@;
            reveal_with_fuel(fixed_bits, 3);
            reveal_with_fuel(args_width, 2);
            assert forall|k: int| 0 <= k < 2 implies prim_ok(#[trigger] fs[k].ty) && elem_ok(fs[k].ty) && forall|a: int|
                0 <= a < arg_types(fs[k]).len() ==> prim_ok(#[trigger] arg_types(fs[k])[a]) by {
                if k == 0 {} else {}
            }
            assert(fixed_bits(fs, 2) == 8);
        }
        Packet { base_name: String::from_str("Padding"), fields: f }
    }
}

/// A Ping frame.
#[derive(Debug)]
pub struct Ping {
    pub ty: FrameType,
    pub remaining: Vec<u8>,
}

impl Ping {
    /// The shape of each field of this layout: its type, its length
    /// expression and whether it is the payload.
    pub open spec fn fields_spec(fs: Seq<Field>) -> bool {
        &&& fs.len() == 2
        &&& fs[0].ty is Misc
        &&& arg_types(fs[0]).len() == 1
        &&& (arg_types(fs[0])[0] matches Type::Primitive(_, w, e) && w == 8 && e == Endianness::Big)
        &&& fs[0].packet_length is None
        &&& !fs[0].is_payload
        &&& (fs[1].ty matches Type::Vector(inner) && (*inner matches Type::Primitive(_, w, _) && w == 8))
        &&& fs[1].packet_length is None
        &&& !fs[1].is_payload
    }

    /// The wire layout of this packet, field by field.
    pub fn schema() -> (r: Packet)
        ensures
            r.fields@.len() == 2,
            Self::fields_spec(r.fields@),
            layout_ok(r.fields@),
            min_size(r.fields@) == 1,
    {
        let mut f: Vec<Field> = Vec::new();
        f.push(semantic_u8("ty", "FrameType"));
        f.push(bytes("remaining", None, false));
        proof {
            let fs = f@;
            reveal_with_fuel(fixed_bits, 3);
            reveal_with_fuel(args_width, 2);
            assert forall|k: int| 0 <= k < 2 implies prim_ok(#[trigger] fs[k].ty) && elem_ok(fs[k].ty) && forall|a: int|
                0 <= a < arg_types(fs[k]).len() ==> prim_ok(#[trigger] arg_types(fs[k])[a]) by {
                if k == 0 {} else {}
            }
            assert(fixed_bits(fs, 2) == 8);
        }
        Packet { base_name: String::from_str("Ping"), fields: f }
    }
}

/// A Ack frame.
#[derive(Debug)]
pub struct Ack {
    pub ty: FrameType,
    pub largest_acknowledged_1: u8,
    pub largest_acknowledged_2: Vec<u8>,
    pub ack_delay_1: u8,
    pub ack_delay_2: Vec<u8>,
    pub ack_range_count_1: u8,
    pub ack_range_count_2: Vec<u8>,
    pub first_ack_range_1: u8,
    pub first_ack_range_2: Vec<u8>,
    pub ack_range: Vec<Varint>,
    pub ecn_counts: Vec<Varint>,
    pub remaining: Vec<u8>,
}

impl Ack {
    /// The shape of each field of this layout: its type, its length
    /// expression and whether it is the payload.
    pub open spec fn fields_spec(fs: Seq<Field>) -> bool {
        &&& fs.len() == 12
        &&& fs[0].ty is Misc
        &&& arg_types(fs[0]).len() == 1
        &&& (arg_types(fs[0])[0] matches Type::Primitive(_, w, e) && w == 8 && e == Endianness::Big)
        &&& fs[0].packet_length is None
        &&& !fs[0].is_payload
        &&& (fs[1].ty matches Type::Primitive(_, w, e) && w == 8 && e == Endianness::Big)
        &&& fs[1].packet_length is None
        &&& !fs[1].is_payload
        &&& (fs[2].ty matches Type::Vector(inner) && (*inner matches Type::Primitive(_, w, _) && w == 8))
        &&& fs[2].packet_length == Some(Expr::VarintLength(Box::new(Expr::Field(1))))
        &&& !fs[2].is_payload
        &&& (fs[3].ty matches Type::Primitive(_, w, e) && w == 8 && e == Endianness::Big)
        &&& fs[3].packet_length is None
        &&& !fs[3].is_payload
        &&& (fs[4].ty matches Type::Vector(inner) && (*inner matches Type::Primitive(_, w, _) && w == 8))
        &&& fs[4].packet_length == Some(Expr::VarintLength(Box::new(Expr::Field(3))))
        &&& !fs[4].is_payload
        &&& (fs[5].ty matches Type::Primitive(_, w, e) && w == 8 && e == Endianness::Big)
        &&& fs[5].packet_length is None
        &&& !fs[5].is_payload
        &&& (fs[6].ty matches Type::Vector(inner) && (*inner matches Type::Primitive(_, w, _) && w == 8))
        &&& fs[6].packet_length == Some(Expr::VarintLength(Box::new(Expr::Field(5))))
        &&& !fs[6].is_payload
        &&& (fs[7].ty matches Type::Primitive(_, w, e) && w == 8 && e == Endianness::Big)
        &&& fs[7].packet_length is None
        &&& !fs[7].is_payload
        &&& (fs[8].ty matches Type::Vector(inner) && (*inner matches Type::Primitive(_, w, _) && w == 8))
        &&& fs[8].packet_length == Some(Expr::VarintLength(Box::new(Expr::Field(7))))
        &&& !fs[8].is_payload
        &&& (fs[9].ty matches Type::Vector(inner) && *inner is Misc)
        &&& fs[9].packet_length == Some(Expr::Varint(5, 6))
        &&& !fs[9].is_payload
        &&& (fs[10].ty matches Type::Vector(inner) && *inner is Misc)
        &&& fs[10].packet_length == Some(Expr::Mul(Box::new(Expr::Eq(Box::new(Expr::Field(0)), Box::new(Expr::Lit(3)))), Box::new(Expr::Lit(3))))
        &&& !fs[10].is_payload
        &&& (fs[11].ty matches Type::Vector(inner) && (*inner matches Type::Primitive(_, w, _) && w == 8))
        &&& fs[11].packet_length is None
        &&& !fs[11].is_payload
    }

    /// The wire layout of this packet, field by field.
    pub fn schema() -> (r: Packet)
        ensures
            r.fields@.len() == 12,
            Self::fields_spec(r.fields@),
            layout_ok(r.fields@),
            min_size(r.fields@) == 5,
    {
        let mut f: Vec<Field> = Vec::new();
        f.push(semantic_u8("ty", "FrameType"));
        f.push(small("largest_acknowledged_1", "u8", 8));
        f.push(bytes("largest_acknowledged_2", Some(varint_len_of(1)), false));
        f.push(small("ack_delay_1", "u8", 8));
        f.push(bytes("ack_delay_2", Some(varint_len_of(3)), false));
        f.push(small("ack_range_count_1", "u8", 8));
        f.push(bytes("ack_range_count_2", Some(varint_len_of(5)), false));
        f.push(small("first_ack_range_1", "u8", 8));
        f.push(bytes("first_ack_range_2", Some(varint_len_of(7)), false));
        f.push(packets("ack_range", "Varint", Some(Expr::Varint(5, 6))));
        f.push(packets("ecn_counts", "Varint", Some(times(eq(val(0), lit(3)), lit(3)))));
        f.push(bytes("remaining", None, false));
        proof {
            let fs = f@;
            reveal_with_fuel(fixed_bits, 13);
            reveal_with_fuel(args_width, 2);
            assert forall|k: int| 0 <= k < 12 implies prim_ok(#[trigger] fs[k].ty) && elem_ok(fs[k].ty) && forall|a: int|
                0 <= a < arg_types(fs[k]).len() ==> prim_ok(#[trigger] arg_types(fs[k])[a]) by {
                if k == 0 {} else if k == 1 {} else if k == 2 {} else if k == 3 {} else if k == 4 {} else if k == 5 {} else if k == 6 {} else if k == 7 {} else if k == 8 {} else if k == 9 {} else if k == 10 {} else {}
            }
            assert(fixed_bits(fs, 12) == 40);
        }
        Packet { base_name: String::from_str("Ack"), fields: f }
    }
}

/// A ResetStream frame.
#[derive(Debug)]
pub struct ResetStream {
    pub ty: FrameType,
    pub stream_id_1: u8,
    pub stream_id_2: Vec<u8>,
    pub application_protocol_error_code_1: u8,
    pub application_protocol_error_code_2: Vec<u8>,
    pub final_size_1: u8,
    pub final_size_2: Vec<u8>,
    pub remaining: Vec<u8>,
}

impl ResetStream {
    /// The shape of each field of this layout: its type, its length
    /// expression and whether it is the payload.
    pub open spec fn fields_spec(fs: Seq<Field>) -> bool {
        &&& fs.len() == 8
        &&& fs[0].ty is Misc
        &&& arg_types(fs[0]).len() == 1
        &&& (arg_types(fs[0])[0] matches Type::Primitive(_, w, e) && w == 8 && e == Endianness::Big)
        &&& fs[0].packet_length is None
        &&& !fs[0].is_payload
        &&& (fs[1].ty matches Type::Primitive(_, w, e) && w == 8 && e == Endianness::Big)
        &&& fs[1].packet_length is None
        &&& !fs[1].is_payload
        &&& (fs[2].ty matches Type::Vector(inner) && (*inner matches Type::Primitive(_, w, _) && w == 8))
        &&& fs[2].packet_length == Some(Expr::VarintLength(Box::new(Expr::Field(1))))
        &&& !fs[2].is_payload
        &&& (fs[3].ty matches Type::Primitive(_, w, e) && w == 8 && e == Endianness::Big)
        &&& fs[3].packet_length is None
        &&& !fs[3].is_payload
        &&& (fs[4].ty matches Type::Vector(inner) && (*inner matches Type::Primitive(_, w, _) && w == 8))
        &&& fs[4].packet_length == Some(Expr::VarintLength(Box::new(Expr::Field(3))))
        &&& !fs[4].is_payload
        &&& (fs[5].ty matches Type::Primitive(_, w, e) && w == 8 && e == Endianness::Big)
        &&& fs[5].packet_length is None
        &&& !fs[5].is_payload
        &&& (fs[6].ty matches Type::Vector(inner) && (*inner matches Type::Primitive(_, w, _) && w == 8))
        &&& fs[6].packet_length == Some(Expr::VarintLength(Box::new(Expr::Field(5))))
        &&& !fs[6].is_payload
        &&& (fs[7].ty matches Type::Vector(inner) && (*inner matches Type::Primitive(_, w, _) && w == 8))
        &&& fs[7].packet_length is None
        &&& !fs[7].is_payload
    }

    /// The wire layout of this packet, field by field.
    pub fn schema() -> (r: Packet)
        ensures
            r.fields@.len() == 8,
            Self::fields_spec(r.fields@),
            layout_ok(r.fields@),
            min_size(r.fields@) == 4,
    {
        let mut f: Vec<Field> = Vec::new();
        f.push(semantic_u8("ty", "FrameType"));
        f.push(small("stream_id_1", "u8", 8));
        f.push(bytes("stream_id_2", Some(varint_len_of(1)), false));
        f.push(small("application_protocol_error_code_1", "u8", 8));
        f.push(bytes("application_protocol_error_code_2", Some(varint_len_of(3)), false));
        f.push(small("final_size_1", "u8", 8));
        f.push(bytes("final_size_2", Some(varint_len_of(5)), false));
        f.push(bytes("remaining", None, false));
        proof {
            let fs = f@;
            reveal_with_fuel(fixed_bits, 9);
            reveal_with_fuel(args_width, 2);
            assert forall|k: int| 0 <= k < 8 implies prim_ok(#[trigger] fs[k].ty) && elem_ok(fs[k].ty) && forall|a: int|
                0 <= a < arg_types(fs[k]).len() ==> prim_ok(#[trigger] arg_types(fs[k])[a]) by {
                if k == 0 {} else if k == 1 {} else if k == 2 {} else if k == 3 {} else if k == 4 {} else if k == 5 {} else if k == 6 {} else {}
            }
            assert(fixed_bits(fs, 8) == 32);
        }
        Packet { base_name: String::from_str("ResetStream"), fields: f }
    }
}

/// A StopSending frame.
#[derive(Debug)]
pub struct StopSending {
    pub ty: FrameType,
    pub stream_id_1: u8,
    pub stream_id_2: Vec<u8>,
    pub application_protocol_error_code_1: u8,
    pub application_protocol_error_code_2: Vec<u8>,
    pub remaining: Vec<u8>,
}

impl StopSending {
    /// The shape of each field of this layout: its type, its length
    /// expression and whether it is the payload.
    pub open spec fn fields_spec(fs: Seq<Field>) -> bool {
        &&& fs.len() == 6
        &&& fs[0].ty is Misc
        &&& arg_types(fs[0]).len() == 1
        &&& (arg_types(fs[0])[0] matches Type::Primitive(_, w, e) && w == 8 && e == Endianness::Big)
        &&& fs[0].packet_length is None
        &&& !fs[0].is_payload
        &&& (fs[1].ty matches Type::Primitive(_, w, e) && w == 8 && e == Endianness::Big)
        &&& fs[1].packet_length is None
        &&& !fs[1].is_payload
        &&& (fs[2].ty matches Type::Vector(inner) && (*inner matches Type::Primitive(_, w, _) && w == 8))
        &&& fs[2].packet_length == Some(Expr::VarintLength(Box::new(Expr::Field(1))))
        &&& !fs[2].is_payload
        &&& (fs[3].ty matches Type::Primitive(_, w, e) && w == 8 && e == Endianness::Big)
        &&& fs[3].packet_length is None
        &&& !fs[3].is_payload
        &&& (fs[4].ty matches Type::Vector(inner) && (*inner matches Type::Primitive(_, w, _) && w == 8))
        &&& fs[4].packet_length == Some(Expr::VarintLength(Box::new(Expr::Field(3))))
        &&& !fs[4].is_payload
        &&& (fs[5].ty matches Type::Vector(inner) && (*inner matches Type::Primitive(_, w, _) && w == 8))
        &&& fs[5].packet_length is None
        &&& !fs[5].is_payload
    }

    /// The wire layout of this packet, field by field.
    pub fn schema() -> (r: Packet)
        ensures
            r.fields@.len() == 6,
            Self::fields_spec(r.fields@),
            layout_ok(r.fields@),
            min_size(r.fields@) == 3,
    {
        let mut f: Vec<Field> = Vec::new();
        f.push(semantic_u8("ty", "FrameType"));
        f.push(small("stream_id_1", "u8", 8));
        f.push(bytes("stream_id_2", Some(varint_len_of(1)), false));
        f.push(small("application_protocol_error_code_1", "u8", 8));
        f.push(bytes("application_protocol_error_code_2", Some(varint_len_of(3)), false));
        f.push(bytes("remaining", None, false));
        proof {
            let fs = f@;
            reveal_with_fuel(fixed_bits, 7);
            reveal_with_fuel(args_width, 2);
            assert forall|k: int| 0 <= k < 6 implies prim_ok(#[trigger] fs[k].ty) && elem_ok(fs[k].ty) && forall|a: int|
                0 <= a < arg_types(fs[k]).len() ==> prim_ok(#[trigger] arg_types(fs[k])[a]) by {
                if k == 0 {} else if k == 1 {} else if k == 2 {} else if k == 3 {} else if k == 4 {} else {}
            }
            assert(fixed_bits(fs, 6) == 24);
        }
        Packet { base_name: String::from_str("StopSending"), fields: f }
    }
}

/// A Crypto frame.
#[derive(Debug)]
pub struct Crypto {
    pub ty: FrameType,
    pub offset_1: u8,
    pub offset_2: Vec<u8>,
    pub length_1: u8,
    pub length_2: Vec<u8>,
    pub crypto_payload: Vec<u8>,
    pub remaining: Vec<u8>,
}

impl Crypto {
    /// The shape of each field of this layout: its type, its length
    /// expression and whether it is the payload.
    pub open spec fn fields_spec(fs: Seq<Field>) -> bool {
        &&& fs.len() == 7
        &&& fs[0].ty is Misc
        &&& arg_types(fs[0]).len() == 1
        &&& (arg_types(fs[0])[0] matches Type::Primitive(_, w, e) && w == 8 && e == Endianness::Big)
        &&& fs[0].packet_length is None
        &&& !fs[0].is_payload
        &&& (fs[1].ty matches Type::Primitive(_, w, e) && w == 8 && e == Endianness::Big)
        &&& fs[1].packet_length is None
        &&& !fs[1].is_payload
        &&& (fs[2].ty matches Type::Vector(inner) && (*inner matches Type::Primitive(_, w, _) && w == 8))
        &&& fs[2].packet_length == Some(Expr::VarintLength(Box::new(Expr::Field(1))))
        &&& !fs[2].is_payload
        &&& (fs[3].ty matches Type::Primitive(_, w, e) && w == 8 && e == Endianness::Big)
        &&& fs[3].packet_length is None
        &&& !fs[3].is_payload
        &&& (fs[4].ty matches Type::Vector(inner) && (*inner matches Type::Primitive(_, w, _) && w == 8))
        &&& fs[4].packet_length == Some(Expr::VarintLength(Box::new(Expr::Field(3))))
        &&& !fs[4].is_payload
        &&& (fs[5].ty matches Type::Vector(inner) && (*inner matches Type::Primitive(_, w, _) && w == 8))
        &&& fs[5].packet_length == Some(Expr::Varint(3, 4))
        &&& !fs[5].is_payload
        &&& (fs[6].ty matches Type::Vector(inner) && (*inner matches Type::Primitive(_, w, _) && w == 8))
        &&& fs[6].packet_length is None
        &&& !fs[6].is_payload
    }

    /// The wire layout of this packet, field by field.
    pub fn schema() -> (r: Packet)
        ensures
            r.fields@.len() == 7,
            Self::fields_spec(r.fields@),
            layout_ok(r.fields@),
            min_size(r.fields@) == 3,
    {
        let mut f: Vec<Field> = Vec::new();
        f.push(semantic_u8("ty", "FrameType"));
        f.push(small("offset_1", "u8", 8));
        f.push(bytes("offset_2", Some(varint_len_of(1)), false));
        f.push(small("length_1", "u8", 8));
        f.push(bytes("length_2", Some(varint_len_of(3)), false));
        f.push(bytes("crypto_payload", Some(Expr::Varint(3, 4)), false));
        f.push(bytes("remaining", None, false));
        proof {
            let fs = f@;
            reveal_with_fuel(fixed_bits, 8);
            reveal_with_fuel(args_width, 2);
            assert forall|k: int| 0 <= k < 7 implies prim_ok(#[trigger] fs[k].ty) && elem_ok(fs[k].ty) && forall|a: int|
                0 <= a < arg_types(fs[k]).len() ==> prim_ok(#[trigger] arg_types(fs[k])[a]) by {
                if k == 0 {} else if k == 1 {} else if k == 2 {} else if k == 3 {} else if k == 4 {} else if k == 5 {} else {}
            }
            assert(fixed_bits(fs, 7) == 24);
        }
        Packet { base_name: String::from_str("Crypto"), fields: f }
    }
}

/// A NewToken frame.
#[derive(Debug)]
pub struct NewToken {
    pub ty: FrameType,
    pub token_length_1: u8,
    pub token_length_2: Vec<u8>,
    pub token: Vec<u8>,
    pub remaining: Vec<u8>,
}

impl NewToken {
    /// The shape of each field of this layout: its type, its length
    /// expression and whether it is the payload.
    pub open spec fn fields_spec(fs: Seq<Field>) -> bool {
        &&& fs.len() == 5
        &&& fs[0].ty is Misc
        &&& arg_types(fs[0]).len() == 1
        &&& (arg_types(fs[0])[0] matches Type::Primitive(_, w, e) && w == 8 && e == Endianness::Big)
        &&& fs[0].packet_length is None
        &&& !fs[0].is_payload
        &&& (fs[1].ty matches Type::Primitive(_, w, e) && w == 8 && e == Endianness::Big)
        &&& fs[1].packet_length is None
        &&& !fs[1].is_payload
        &&& (fs[2].ty matches Type::Vector(inner) && (*inner matches Type::Primitive(_, w, _) && w == 8))
        &&& fs[2].packet_length == Some(Expr::VarintLength(Box::new(Expr::Field(1))))
        &&& !fs[2].is_payload
        &&& (fs[3].ty matches Type::Vector(inner) && (*inner matches Type::Primitive(_, w, _) && w == 8))
        &&& fs[3].packet_length == Some(Expr::Varint(1, 2))
        &&& !fs[3].is_payload
        &&& (fs[4].ty matches Type::Vector(inner) && (*inner matches Type::Primitive(_, w, _) && w == 8))
        &&& fs[4].packet_length is None
        &&& !fs[4].is_payload
    }

    /// The wire layout of this packet, field by field.
    pub fn schema() -> (r: Packet)
        ensures
            r.fields@.len() == 5,
            Self::fields_spec(r.fields@),
            layout_ok(r.fields@),
            min_size(r.fields@) == 2,
    {
        let mut f: Vec<Field> = Vec::new();
        f.push(semantic_u8("ty", "FrameType"));
        f.push(small("token_length_1", "u8", 8));
        f.push(bytes("token_length_2", Some(varint_len_of(1)), false));
        f.push(bytes("token", Some(Expr::Varint(1, 2)), false));
        f.push(bytes("remaining", None, false));
        proof {
            let fs = f@;
            reveal_with_fuel(fixed_bits, 6);
            reveal_with_fuel(args_width, 2);
            assert forall|k: int| 0 <= k < 5 implies prim_ok(#[trigger] fs[k].ty) && elem_ok(fs[k].ty) && forall|a: int|
                0 <= a < arg_types(fs[k]).len() ==> prim_ok(#[trigger] arg_types(fs[k])[a]) by {
                if k == 0 {} else if k == 1 {} else if k == 2 {} else if k == 3 {} else {}
            }
            assert(fixed_bits(fs, 5) == 16);
        }
        Packet { base_name: String::from_str("NewToken"), fields: f }
    }
}

/// A Stream frame.
#[derive(Debug)]
pub struct Stream {
    pub ty: FrameType,
    pub stream_id_1: u8,
    pub stream_id_2: Vec<u8>,
    pub offset: Vec<Varint>,
    pub length: Vec<Varint>,
    pub stream_data: Vec<u8>,
    pub remaining: Vec<u8>,
}

impl Stream {
    /// The shape of each field of this layout: its type, its length
    /// expression and whether it is the payload.
    pub open spec fn fields_spec(fs: Seq<Field>) -> bool {
        &&& fs.len() == 7
        &&& fs[0].ty is Misc
        &&& arg_types(fs[0]).len() == 1
        &&& (arg_types(fs[0])[0] matches Type::Primitive(_, w, e) && w == 8 && e == Endianness::Big)
        &&& fs[0].packet_length is None
        &&& !fs[0].is_payload
        &&& (fs[1].ty matches Type::Primitive(_, w, e) && w == 8 && e == Endianness::Big)
        &&& fs[1].packet_length is None
        &&& !fs[1].is_payload
        &&& (fs[2].ty matches Type::Vector(inner) && (*inner matches Type::Primitive(_, w, _) && w == 8))
        &&& fs[2].packet_length == Some(Expr::VarintLength(Box::new(Expr::Field(1))))
        &&& !fs[2].is_payload
        &&& (fs[3].ty matches Type::Vector(inner) && *inner is Misc)
        &&& fs[3].packet_length == Some(Expr::Sub(Box::new(Expr::Lit(1)), Box::new(Expr::Eq(Box::new(Expr::And(Box::new(Expr::Field(0)), Box::new(Expr::Lit(4)))), Box::new(Expr::Lit(0))))))
        &&& !fs[3].is_payload
        &&& (fs[4].ty matches Type::Vector(inner) && *inner is Misc)
        &&& fs[4].packet_length == Some(Expr::Sub(Box::new(Expr::Lit(1)), Box::new(Expr::Eq(Box::new(Expr::And(Box::new(Expr::Field(0)), Box::new(Expr::Lit(2)))), Box::new(Expr::Lit(0))))))
        &&& !fs[4].is_payload
        &&& (fs[5].ty matches Type::Vector(inner) && (*inner matches Type::Primitive(_, w, _) && w == 8))
        &&& fs[5].packet_length == Some(Expr::Add(Box::new(Expr::Mul(Box::new(Expr::Eq(Box::new(Expr::Len(4)), Box::new(Expr::Lit(0)))), Box::new(Expr::Lit(2000)))), Box::new(Expr::Mul(Box::new(Expr::Sub(Box::new(Expr::Lit(1)), Box::new(Expr::Eq(Box::new(Expr::Len(4)), Box::new(Expr::Lit(0)))))), Box::new(Expr::VarintAt(4))))))
        &&& fs[5].is_payload
        &&& (fs[6].ty matches Type::Vector(inner) && (*inner matches Type::Primitive(_, w, _) && w == 8))
        &&& fs[6].packet_length is None
        &&& !fs[6].is_payload
    }

    /// The wire layout of this packet, field by field.
    pub fn schema() -> (r: Packet)
        ensures
            r.fields@.len() == 7,
            Self::fields_spec(r.fields@),
            layout_ok(r.fields@),
            min_size(r.fields@) == 2,
    {
        let mut f: Vec<Field> = Vec::new();
        f.push(semantic_u8("ty", "FrameType"));
        f.push(small("stream_id_1", "u8", 8));
        f.push(bytes("stream_id_2", Some(varint_len_of(1)), false));
        f.push(packets("offset", "Varint", Some(minus(lit(1), eq(and(val(0), lit(4)), lit(0))))));
        f.push(packets("length", "Varint", Some(minus(lit(1), eq(and(val(0), lit(2)), lit(0))))));
        f.push(bytes("stream_data", Some(plus(times(eq(Expr::Len(4), lit(0)), lit(2000)), times(minus(lit(1), eq(Expr::Len(4), lit(0))), Expr::VarintAt(4)))), true));
        f.push(bytes("remaining", None, false));
        proof {
            let fs = f@;
            reveal_with_fuel(fixed_bits, 8);
            reveal_with_fuel(args_width, 2);
            assert forall|k: int| 0 <= k < 7 implies prim_ok(#[trigger] fs[k].ty) && elem_ok(fs[k].ty) && forall|a: int|
                0 <= a < arg_types(fs[k]).len() ==> prim_ok(#[trigger] arg_types(fs[k])[a]) by {
                if k == 0 {} else if k == 1 {} else if k == 2 {} else if k == 3 {} else if k == 4 {} else if k == 5 {} else {}
            }
            assert(fixed_bits(fs, 7) == 16);
        }
        Packet { base_name: String::from_str("Stream"), fields: f }
    }
}

/// A MaxData frame.
#[derive(Debug)]
pub struct MaxData {
    pub ty: FrameType,
    pub max_data_1: u8,
    pub max_data_2: Vec<u8>,
    pub remaining: Vec<u8>,
}

impl MaxData {
    /// The shape of each field of this layout: its type, its length
    /// expression and whether it is the payload.
    pub open spec fn fields_spec(fs: Seq<Field>) -> bool {
        &&& fs.len() == 4
        &&& fs[0].ty is Misc
        &&& arg_types(fs[0]).len() == 1
        &&& (arg_types(fs[0])[0] matches Type::Primitive(_, w, e) && w == 8 && e == Endianness::Big)
        &&& fs[0].packet_length is None
        &&& !fs[0].is_payload
        &&& (fs[1].ty matches Type::Primitive(_, w, e) && w == 8 && e == Endianness::Big)
        &&& fs[1].packet_length is None
        &&& !fs[1].is_payload
        &&& (fs[2].ty matches Type::Vector(inner) && (*inner matches Type::Primitive(_, w, _) && w == 8))
        &&& fs[2].packet_length == Some(Expr::VarintLength(Box::new(Expr::Field(1))))
        &&& !fs[2].is_payload
        &&& (fs[3].ty matches Type::Vector(inner) && (*inner matches Type::Primitive(_, w, _) && w == 8))
        &&& fs[3].packet_length is None
        &&& !fs[3].is_payload
    }

    /// The wire layout of this packet, field by field.
    pub fn schema() -> (r: Packet)
        ensures
            r.fields@.len() == 4,
            Self::fields_spec(r.fields@),
            layout_ok(r.fields@),
            min_size(r.fields@) == 2,
    {
        let mut f: Vec<Field> = Vec::new();
        f.push(semantic_u8("ty", "FrameType"));
        f.push(small("max_data_1", "u8", 8));
        f.push(bytes("max_data_2", Some(varint_len_of(1)), false));
        f.push(bytes("remaining", None, false));
        proof {
            let fs = f@;
            reveal_with_fuel(fixed_bits, 5);
            reveal_with_fuel(args_width, 2);
            assert forall|k: int| 0 <= k < 4 implies prim_ok(#[trigger] fs[k].ty) && elem_ok(fs[k].ty) && forall|a: int|
                0 <= a < arg_types(fs[k]).len() ==> prim_ok(#[trigger] arg_types(fs[k])[a]) by {
                if k == 0 {} else if k == 1 {} else if k == 2 {} else {}
            }
            assert(fixed_bits(fs, 4) == 16);
        }
        Packet { base_name: String::from_str("MaxData"), fields: f }
    }
}

/// A MaxStreamData frame.
#[derive(Debug)]
pub struct MaxStreamData {
    pub ty: FrameType,
    pub stream_id_1: u8,
    pub stream_id_2: Vec<u8>,
    pub max_stream_data_1: u8,
    pub max_stream_data_2: Vec<u8>,
    pub remaining: Vec<u8>,
}

impl MaxStreamData {
    /// The shape of each field of this layout: its type, its length
    /// expression and whether it is the payload.
    pub open spec fn fields_spec(fs: Seq<Field>) -> bool {
        &&& fs.len() == 6
        &&& fs[0].ty is Misc
        &&& arg_types(fs[0]).len() == 1
        &&& (arg_types(fs[0])[0] matches Type::Primitive(_, w, e) && w == 8 && e == Endianness::Big)
        &&& fs[0].packet_length is None
        &&& !fs[0].is_payload
        &&& (fs[1].ty matches Type::Primitive(_, w, e) && w == 8 && e == Endianness::Big)
        &&& fs[1].packet_length is None
        &&& !fs[1].is_payload
        &&& (fs[2].ty matches Type::Vector(inner) && (*inner matches Type::Primitive(_, w, _) && w == 8))
        &&& fs[2].packet_length == Some(Expr::VarintLength(Box::new(Expr::Field(1))))
        &&& !fs[2].is_payload
        &&& (fs[3].ty matches Type::Primitive(_, w, e) && w == 8 && e == Endianness::Big)
        &&& fs[3].packet_length is None
        &&& !fs[3].is_payload
        &&& (fs[4].ty matches Type::Vector(inner) && (*inner matches Type::Primitive(_, w, _) && w == 8))
        &&& fs[4].packet_length == Some(Expr::VarintLength(Box::new(Expr::Field(3))))
        &&& !fs[4].is_payload
        &&& (fs[5].ty matches Type::Vector(inner) && (*inner matches Type::Primitive(_, w, _) && w == 8))
        &&& fs[5].packet_length is None
        &&& !fs[5].is_payload
    }

    /// The wire layout of this packet, field by field.
    pub fn schema() -> (r: Packet)
        ensures
            r.fields@.len() == 6,
            Self::fields_spec(r.fields@),
            layout_ok(r.fields@),
            min_size(r.fields@) == 3,
    {
        let mut f: Vec<Field> = Vec::new();
        f.push(semantic_u8("ty", "FrameType"));
        f.push(small("stream_id_1", "u8", 8));
        f.push(bytes("stream_id_2", Some(varint_len_of(1)), false));
        f.push(small("max_stream_data_1", "u8", 8));
        f.push(bytes("max_stream_data_2", Some(varint_len_of(3)), false));
        f.push(bytes("remaining", None, false));
        proof {
            let fs = f@;
            reveal_with_fuel(fixed_bits, 7);
            reveal_with_fuel(args_width, 2);
            assert forall|k: int| 0 <= k < 6 implies prim_ok(#[trigger] fs[k].ty) && elem_ok(fs[k].ty) && forall|a: int|
                0 <= a < arg_types(fs[k]).len() ==> prim_ok(#[trigger] arg_types(fs[k])[a]) by {
                if k == 0 {} else if k == 1 {} else if k == 2 {} else if k == 3 {} else if k == 4 {} else {}
            }
            assert(fixed_bits(fs, 6) == 24);
        }
        Packet { base_name: String::from_str("MaxStreamData"), fields: f }
    }
}

/// A MaxStreams frame.
#[derive(Debug)]
pub struct MaxStreams {
    pub ty: FrameType,
    pub max_streams_1: u8,
    pub max_streams_2: Vec<u8>,
    pub remaining: Vec<u8>,
}

impl MaxStreams {
    /// The shape of each field of this layout: its type, its length
    /// expression and whether it is the payload.
    pub open spec fn fields_spec(fs: Seq<Field>) -> bool {
        &&& fs.len() == 4
        &&& fs[0].ty is Misc
        &&& arg_types(fs[0]).len() == 1
        &&& (arg_types(fs[0])[0] matches Type::Primitive(_, w, e) && w == 8 && e == Endianness::Big)
        &&& fs[0].packet_length is None
        &&& !fs[0].is_payload
        &&& (fs[1].ty matches Type::Primitive(_, w, e) && w == 8 && e == Endianness::Big)
        &&& fs[1].packet_length is None
        &&& !fs[1].is_payload
        &&& (fs[2].ty matches Type::Vector(inner) && (*inner matches Type::Primitive(_, w, _) && w == 8))
        &&& fs[2].packet_length == Some(Expr::VarintLength(Box::new(Expr::Field(1))))
        &&& !fs[2].is_payload
        &&& (fs[3].ty matches Type::Vector(inner) && (*inner matches Type::Primitive(_, w, _) && w == 8))
        &&& fs[3].packet_length is None
        &&& !fs[3].is_payload
    }

    /// The wire layout of this packet, field by field.
    pub fn schema() -> (r: Packet)
        ensures
            r.fields@.len() == 4,
            Self::fields_spec(r.fields@),
            layout_ok(r.fields@),
            min_size(r.fields@) == 2,
    {
        let mut f: Vec<Field> = Vec::new();
        f.push(semantic_u8("ty", "FrameType"));
        f.push(small("max_streams_1", "u8", 8));
        f.push(bytes("max_streams_2", Some(varint_len_of(1)), false));
        f.push(bytes("remaining", None, false));
        proof {
            let fs = f@;
            reveal_with_fuel(fixed_bits, 5);
            reveal_with_fuel(args_width, 2);
            assert forall|k: int| 0 <= k < 4 implies prim_ok(#[trigger] fs[k].ty) && elem_ok(fs[k].ty) && forall|a: int|
                0 <= a < arg_types(fs[k]).len() ==> prim_ok(#[trigger] arg_types(fs[k])[a]) by {
                if k == 0 {} else if k == 1 {} else if k == 2 {} else {}
            }
            assert(fixed_bits(fs, 4) == 16);
        }
        Packet { base_name: String::from_str("MaxStreams"), fields: f }
    }
}

/// A DataBlocked frame.
#[derive(Debug)]
pub struct DataBlocked {
    pub ty: FrameType,
    pub max_data_1: u8,
    pub max_data_2: Vec<u8>,
    pub remaining: Vec<u8>,
}

impl DataBlocked {
    /// The shape of each field of this layout: its type, its length
    /// expression and whether it is the payload.
    pub open spec fn fields_spec(fs: Seq<Field>) -> bool {
        &&& fs.len() == 4
        &&& fs[0].ty is Misc
        &&& arg_types(fs[0]).len() == 1
        &&& (arg_types(fs[0])[0] matches Type::Primitive(_, w, e) && w == 8 && e == Endianness::Big)
        &&& fs[0].packet_length is None
        &&& !fs[0].is_payload
        &&& (fs[1].ty matches Type::Primitive(_, w, e) && w == 8 && e == Endianness::Big)
        &&& fs[1].packet_length is None
        &&& !fs[1].is_payload
        &&& (fs[2].ty matches Type::Vector(inner) && (*inner matches Type::Primitive(_, w, _) && w == 8))
        &&& fs[2].packet_length == Some(Expr::VarintLength(Box::new(Expr::Field(1))))
        &&& !fs[2].is_payload
        &&& (fs[3].ty matches Type::Vector(inner) && (*inner matches Type::Primitive(_, w, _) && w == 8))
        &&& fs[3].packet_length is None
        &&& !fs[3].is_payload
    }

    /// The wire layout of this packet, field by field.
    pub fn schema() -> (r: Packet)
        ensures
            r.fields@.len() == 4,
            Self::fields_spec(r.fields@),
            layout_ok(r.fields@),
            min_size(r.fields@) == 2,
    {
        let mut f: Vec<Field> = Vec::new();
        f.push(semantic_u8("ty", "FrameType"));
        f.push(small("max_data_1", "u8", 8));
        f.push(bytes("max_data_2", Some(varint_len_of(1)), false));
        f.push(bytes("remaining", None, false));
        proof {
            let fs = f@;
            reveal_with_fuel(fixed_bits, 5);
            reveal_with_fuel(args_width, 2);
            assert forall|k: int| 0 <= k < 4 implies prim_ok(#[trigger] fs[k].ty) && elem_ok(fs[k].ty) && forall|a: int|
                0 <= a < arg_types(fs[k]).len() ==> prim_ok(#[trigger] arg_types(fs[k])[a]) by {
                if k == 0 {} else if k == 1 {} else if k == 2 {} else {}
            }
            assert(fixed_bits(fs, 4) == 16);
        }
        Packet { base_name: String::from_str("DataBlocked"), fields: f }
    }
}

/// A StreamDataBlocked frame.
#[derive(Debug)]
pub struct StreamDataBlocked {
    pub ty: FrameType,
    pub stream_id_1: u8,
    pub stream_id_2: Vec<u8>,
    pub max_stream_data_1: u8,
    pub max_stream_data_2: Vec<u8>,
    pub remaining: Vec<u8>,
}

impl StreamDataBlocked {
    /// The shape of each field of this layout: its type, its length
    /// expression and whether it is the payload.
    pub open spec fn fields_spec(fs: Seq<Field>) -> bool {
        &&& fs.len() == 6
        &&& fs[0].ty is Misc
        &&& arg_types(fs[0]).len() == 1
        &&& (arg_types(fs[0])[0] matches Type::Primitive(_, w, e) && w == 8 && e == Endianness::Big)
        &&& fs[0].packet_length is None
        &&& !fs[0].is_payload
        &&& (fs[1].ty matches Type::Primitive(_, w, e) && w == 8 && e == Endianness::Big)
        &&& fs[1].packet_length is None
        &&& !fs[1].is_payload
        &&& (fs[2].ty matches Type::Vector(inner) && (*inner matches Type::Primitive(_, w, _) && w == 8))
        &&& fs[2].packet_length == Some(Expr::VarintLength(Box::new(Expr::Field(1))))
        &&& !fs[2].is_payload
        &&& (fs[3].ty matches Type::Primitive(_, w, e) && w == 8 && e == Endianness::Big)
        &&& fs[3].packet_length is None
        &&& !fs[3].is_payload
        &&& (fs[4].ty matches Type::Vector(inner) && (*inner matches Type::Primitive(_, w, _) && w == 8))
        &&& fs[4].packet_length == Some(Expr::VarintLength(Box::new(Expr::Field(3))))
        &&& !fs[4].is_payload
        &&& (fs[5].ty matches Type::Vector(inner) && (*inner matches Type::Primitive(_, w, _) && w == 8))
        &&& fs[5].packet_length is None
        &&& !fs[5].is_payload
    }

    /// The wire layout of this packet, field by field.
    pub fn schema() -> (r: Packet)
        ensures
            r.fields@.len() == 6,
            Self::fields_spec(r.fields@),
            layout_ok(r.fields@),
            min_size(r.fields@) == 3,
    {
        let mut f: Vec<Field> = Vec::new();
        f.push(semantic_u8("ty", "FrameType"));
        f.push(small("stream_id_1", "u8", 8));
        f.push(bytes("stream_id_2", Some(varint_len_of(1)), false));
        f.push(small("max_stream_data_1", "u8", 8));
        f.push(bytes("max_stream_data_2", Some(varint_len_of(3)), false));
        f.push(bytes("remaining", None, false));
        proof {
            let fs = f@;
            reveal_with_fuel(fixed_bits, 7);
            reveal_with_fuel(args_width, 2);
            assert forall|k: int| 0 <= k < 6 implies prim_ok(#[trigger] fs[k].ty) && elem_ok(fs[k].ty) && forall|a: int|
                0 <= a < arg_types(fs[k]).len() ==> prim_ok(#[trigger] arg_types(fs[k])[a]) by {
                if k == 0 {} else if k == 1 {} else if k == 2 {} else if k == 3 {} else if k == 4 {} else {}
            }
            assert(fixed_bits(fs, 6) == 24);
        }
        Packet { base_name: String::from_str("StreamDataBlocked"), fields: f }
    }
}

/// A StreamsBlocked frame.
#[derive(Debug)]
pub struct StreamsBlocked {
    pub ty: FrameType,
    pub max_streams_1: u8,
    pub max_streams_2: Vec<u8>,
    pub remaining: Vec<u8>,
}

impl StreamsBlocked {
    /// The shape of each field of this layout: its type, its length
    /// expression and whether it is the payload.
    pub open spec fn fields_spec(fs: Seq<Field>) -> bool {
        &&& fs.len() == 4
        &&& fs[0].ty is Misc
        &&& arg_types(fs[0]).len() == 1
        &&& (arg_types(fs[0])[0] matches Type::Primitive(_, w, e) && w == 8 && e == Endianness::Big)
        &&& fs[0].packet_length is None
        &&& !fs[0].is_payload
        &&& (fs[1].ty matches Type::Primitive(_, w, e) && w == 8 && e == Endianness::Big)
        &&& fs[1].packet_length is None
        &&& !fs[1].is_payload
        &&& (fs[2].ty matches Type::Vector(inner) && (*inner matches Type::Primitive(_, w, _) && w == 8))
        &&& fs[2].packet_length == Some(Expr::VarintLength(Box::new(Expr::Field(1))))
        &&& !fs[2].is_payload
        &&& (fs[3].ty matches Type::Vector(inner) && (*inner matches Type::Primitive(_, w, _) && w == 8))
        &&& fs[3].packet_length is None
        &&& !fs[3].is_payload
    }

    /// The wire layout of this packet, field by field.
    pub fn schema() -> (r: Packet)
        ensures
            r.fields@.len() == 4,
            Self::fields_spec(r.fields@),
            layout_ok(r.fields@),
            min_size(r.fields@) == 2,
    {
        let mut f: Vec<Field> = Vec::new();
        f.push(semantic_u8("ty", "FrameType"));
        f.push(small("max_streams_1", "u8", 8));
        f.push(bytes("max_streams_2", Some(varint_len_of(1)), false));
        f.push(bytes("remaining", None, false));
        proof {
            let fs = f@;
            reveal_with_fuel(fixed_bits, 5);
            reveal_with_fuel(args_width, 2);
            assert forall|k: int| 0 <= k < 4 implies prim_ok(#[trigger] fs[k].ty) && elem_ok(fs[k].ty) && forall|a: int|
                0 <= a < arg_types(fs[k]).len() ==> prim_ok(#[trigger] arg_types(fs[k])[a]) by {
                if k == 0 {} else if k == 1 {} else if k == 2 {} else {}
            }
            assert(fixed_bits(fs, 4) == 16);
        }
        Packet { base_name: String::from_str("StreamsBlocked"), fields: f }
    }
}

/// A NewConnectionId frame.
#[derive(Debug)]
pub struct NewConnectionId {
    pub ty: FrameType,
    pub sequence_number_1: u8,
    pub sequence_number_2: Vec<u8>,
    pub retire_prior_to_1: u8,
    pub retire_prior_to_2: Vec<u8>,
    pub length: u8,
    pub connection_id: Vec<u8>,
    pub stateless_reset_token: Vec<u8>,
    pub remaining: Vec<u8>,
}

impl NewConnectionId {
    /// The shape of each field of this layout: its type, its length
    /// expression and whether it is the payload.
    pub open spec fn fields_spec(fs: Seq<Field>) -> bool {
        &&& fs.len() == 9
        &&& fs[0].ty is Misc
        &&& arg_types(fs[0]).len() == 1
        &&& (arg_types(fs[0])[0] matches Type::Primitive(_, w, e) && w == 8 && e == Endianness::Big)
        &&& fs[0].packet_length is None
        &&& !fs[0].is_payload
        &&& (fs[1].ty matches Type::Primitive(_, w, e) && w == 8 && e == Endianness::Big)
        &&& fs[1].packet_length is None
        &&& !fs[1].is_payload
        &&& (fs[2].ty matches Type::Vector(inner) && (*inner matches Type::Primitive(_, w, _) && w == 8))
        &&& fs[2].packet_length == Some(Expr::VarintLength(Box::new(Expr::Field(1))))
        &&& !fs[2].is_payload
        &&& (fs[3].ty matches Type::Primitive(_, w, e) && w == 8 && e == Endianness::Big)
        &&& fs[3].packet_length is None
        &&& !fs[3].is_payload
        &&& (fs[4].ty matches Type::Vector(inner) && (*inner matches Type::Primitive(_, w, _) && w == 8))
        &&& fs[4].packet_length == Some(Expr::VarintLength(Box::new(Expr::Field(3))))
        &&& !fs[4].is_payload
        &&& (fs[5].ty matches Type::Primitive(_, w, e) && w == 8 && e == Endianness::Big)
        &&& fs[5].packet_length is None
        &&& !fs[5].is_payload
        &&& (fs[6].ty matches Type::Vector(inner) && (*inner matches Type::Primitive(_, w, _) && w == 8))
        &&& fs[6].packet_length == Some(Expr::Field(5))
        &&& !fs[6].is_payload
        &&& (fs[7].ty matches Type::Vector(inner) && (*inner matches Type::Primitive(_, w, _) && w == 8))
        &&& fs[7].packet_length == Some(Expr::Lit(16))
        &&& !fs[7].is_payload
        &&& (fs[8].ty matches Type::Vector(inner) && (*inner matches Type::Primitive(_, w, _) && w == 8))
        &&& fs[8].packet_length is None
        &&& !fs[8].is_payload
    }

    /// The wire layout of this packet, field by field.
    pub fn schema() -> (r: Packet)
        ensures
            r.fields@.len() == 9,
            Self::fields_spec(r.fields@),
            layout_ok(r.fields@),
            min_size(r.fields@) == 4,
    {
        let mut f: Vec<Field> = Vec::new();
        f.push(semantic_u8("ty", "FrameType"));
        f.push(small("sequence_number_1", "u8", 8));
        f.push(bytes("sequence_number_2", Some(varint_len_of(1)), false));
        f.push(small("retire_prior_to_1", "u8", 8));
        f.push(bytes("retire_prior_to_2", Some(varint_len_of(3)), false));
        f.push(small("length", "u8", 8));
        f.push(bytes("connection_id", Some(val(5)), false));
        f.push(bytes("stateless_reset_token", Some(lit(16)), false));
        f.push(bytes("remaining", None, false));
        proof {
            let fs = f@;
            reveal_with_fuel(fixed_bits, 10);
            reveal_with_fuel(args_width, 2);
            assert forall|k: int| 0 <= k < 9 implies prim_ok(#[trigger] fs[k].ty) && elem_ok(fs[k].ty) && forall|a: int|
                0 <= a < arg_types(fs[k]).len() ==> prim_ok(#[trigger] arg_types(fs[k])[a]) by {
                if k == 0 {} else if k == 1 {} else if k == 2 {} else if k == 3 {} else if k == 4 {} else if k == 5 {} else if k == 6 {} else if k == 7 {} else {}
            }
            assert(fixed_bits(fs, 9) == 32);
        }
        Packet { base_name: String::from_str("NewConnectionId"), fields: f }
    }
}

/// A RetireConnectionId frame.
#[derive(Debug)]
pub struct RetireConnectionId {
    pub ty: FrameType,
    pub sequence_number_1: u8,
    pub sequence_number_2: Vec<u8>,
    pub remaining: Vec<u8>,
}

impl RetireConnectionId {
    /// The shape of each field of this layout: its type, its length
    /// expression and whether it is the payload.
    pub open spec fn fields_spec(fs: Seq<Field>) -> bool {
        &&& fs.len() == 4
        &&& fs[0].ty is Misc
        &&& arg_types(fs[0]).len() == 1
        &&& (arg_types(fs[0])[0] matches Type::Primitive(_, w, e) && w == 8 && e == Endianness::Big)
        &&& fs[0].packet_length is None
        &&& !fs[0].is_payload
        &&& (fs[1].ty matches Type::Primitive(_, w, e) && w == 8 && e == Endianness::Big)
        &&& fs[1].packet_length is None
        &&& !fs[1].is_payload
        &&& (fs[2].ty matches Type::Vector(inner) && (*inner matches Type::Primitive(_, w, _) && w == 8))
        &&& fs[2].packet_length == Some(Expr::VarintLength(Box::new(Expr::Field(1))))
        &&& !fs[2].is_payload
        &&& (fs[3].ty matches Type::Vector(inner) && (*inner matches Type::Primitive(_, w, _) && w == 8))
        &&& fs[3].packet_length is None
        &&& !fs[3].is_payload
    }

    /// The wire layout of this packet, field by field.
    pub fn schema() -> (r: Packet)
        ensures
            r.fields@.len() == 4,
            Self::fields_spec(r.fields@),
            layout_ok(r.fields@),
            min_size(r.fields@) == 2,
    {
        let mut f: Vec<Field> = Vec::new();
        f.push(semantic_u8("ty", "FrameType"));
        f.push(small("sequence_number_1", "u8", 8));
        f.push(bytes("sequence_number_2", Some(varint_len_of(1)), false));
        f.push(bytes("remaining", None, false));
        proof {
            let fs = f@;
            reveal_with_fuel(fixed_bits, 5);
            reveal_with_fuel(args_width, 2);
            assert forall|k: int| 0 <= k < 4 implies prim_ok(#[trigger] fs[k].ty) && elem_ok(fs[k].ty) && forall|a: int|
                0 <= a < arg_types(fs[k]).len() ==> prim_ok(#[trigger] arg_types(fs[k])[a]) by {
                if k == 0 {} else if k == 1 {} else if k == 2 {} else {}
            }
            assert(fixed_bits(fs, 4) == 16);
        }
        Packet { base_name: String::from_str("RetireConnectionId"), fields: f }
    }
}

/// A PathChallenge frame.
#[derive(Debug)]
pub struct PathChallenge {
    pub ty: FrameType,
    pub data: Vec<u8>,
    pub remaining: Vec<u8>,
}

impl PathChallenge {
    /// The shape of each field of this layout: its type, its length
    /// expression and whether it is the payload.
    pub open spec fn fields_spec(fs: Seq<Field>) -> bool {
        &&& fs.len() == 3
        &&& fs[0].ty is Misc
        &&& arg_types(fs[0]).len() == 1
        &&& (arg_types(fs[0])[0] matches Type::Primitive(_, w, e) && w == 8 && e == Endianness::Big)
        &&& fs[0].packet_length is None
        &&& !fs[0].is_payload
        &&& (fs[1].ty matches Type::Vector(inner) && (*inner matches Type::Primitive(_, w, _) && w == 8))
        &&& fs[1].packet_length == Some(Expr::Lit(8))
        &&& !fs[1].is_payload
        &&& (fs[2].ty matches Type::Vector(inner) && (*inner matches Type::Primitive(_, w, _) && w == 8))
        &&& fs[2].packet_length is None
        &&& !fs[2].is_payload
    }

    /// The wire layout of this packet, field by field.
    pub fn schema() -> (r: Packet)
        ensures
            r.fields@.len() == 3,
            Self::fields_spec(r.fields@),
            layout_ok(r.fields@),
            min_size(r.fields@) == 1,
    {
        let mut f: Vec<Field> = Vec::new();
        f.push(semantic_u8("ty", "FrameType"));
        f.push(bytes("data", Some(lit(8)), false));
        f.push(bytes("remaining", None, false));
        proof {
            let fs = f@;
            reveal_with_fuel(fixed_bits, 4);
            reveal_with_fuel(args_width, 2);
            assert forall|k: int| 0 <= k < 3 implies prim_ok(#[trigger] fs[k].ty) && elem_ok(fs[k].ty) && forall|a: int|
                0 <= a < arg_types(fs[k]).len() ==> prim_ok(#[trigger] arg_types(fs[k])[a]) by {
                if k == 0 {} else if k == 1 {} else {}
            }
            assert(fixed_bits(fs, 3) == 8);
        }
        Packet { base_name: String::from_str("PathChallenge"), fields: f }
    }
}

/// A PathResponse frame.
#[derive(Debug)]
pub struct PathResponse {
    pub ty: FrameType,
    pub data: Vec<u8>,
    pub remaining: Vec<u8>,
}

impl PathResponse {
    /// The shape of each field of this layout: its type, its length
    /// expression and whether it is the payload.
    pub open spec fn fields_spec(fs: Seq<Field>) -> bool {
        &&& fs.len() == 3
        &&& fs[0].ty is Misc
        &&& arg_types(fs[0]).len() == 1
        &&& (arg_types(fs[0])[0] matches Type::Primitive(_, w, e) && w == 8 && e == Endianness::Big)
        &&& fs[0].packet_length is None
        &&& !fs[0].is_payload
        &&& (fs[1].ty matches Type::Vector(inner) && (*inner matches Type::Primitive(_, w, _) && w == 8))
        &&& fs[1].packet_length == Some(Expr::Lit(8))
        &&& !fs[1].is_payload
        &&& (fs[2].ty matches Type::Vector(inner) && (*inner matches Type::Primitive(_, w, _) && w == 8))
        &&& fs[2].packet_length is None
        &&& !fs[2].is_payload
    }

    /// The wire layout of this packet, field by field.
    pub fn schema() -> (r: Packet)
        ensures
            r.fields@.len() == 3,
            Self::fields_spec(r.fields@),
            layout_ok(r.fields@),
            min_size(r.fields@) == 1,
    {
        let mut f: Vec<Field> = Vec::new();
        f.push(semantic_u8("ty", "FrameType"));
        f.push(bytes("data", Some(lit(8)), false));
        f.push(bytes("remaining", None, false));
        proof {
            let fs = f@;
            reveal_with_fuel(fixed_bits, 4);
            reveal_with_fuel(args_width, 2);
            assert forall|k: int| 0 <= k < 3 implies prim_ok(#[trigger] fs[k].ty) && elem_ok(fs[k].ty) && forall|a: int|
                0 <= a < arg_types(fs[k]).len() ==> prim_ok(#[trigger] arg_types(fs[k])[a]) by {
                if k == 0 {} else if k == 1 {} else {}
            }
            assert(fixed_bits(fs, 3) == 8);
        }
        Packet { base_name: String::from_str("PathResponse"), fields: f }
    }
}

/// A ConnectionClose frame.
#[derive(Debug)]
pub struct ConnectionClose {
    pub ty: FrameType,
    pub error_code_1: u8,
    pub error_code_2: Vec<u8>,
    pub frame_type: Vec<Varint>,
    pub reason_phrase_length_1: u8,
    pub reason_phrase_length_2: Vec<u8>,
    pub reason_phrase: Vec<u8>,
    pub remaining: Vec<u8>,
}

impl ConnectionClose {
    /// The shape of each field of this layout: its type, its length
    /// expression and whether it is the payload.
    pub open spec fn fields_spec(fs: Seq<Field>) -> bool {
        &&& fs.len() == 8
        &&& fs[0].ty is Misc
        &&& arg_types(fs[0]).len() == 1
        &&& (arg_types(fs[0])[0] matches Type::Primitive(_, w, e) && w == 8 && e == Endianness::Big)
        &&& fs[0].packet_length is None
        &&& !fs[0].is_payload
        &&& (fs[1].ty matches Type::Primitive(_, w, e) && w == 8 && e == Endianness::Big)
        &&& fs[1].packet_length is None
        &&& !fs[1].is_payload
        &&& (fs[2].ty matches Type::Vector(inner) && (*inner matches Type::Primitive(_, w, _) && w == 8))
        &&& fs[2].packet_length == Some(Expr::VarintLength(Box::new(Expr::Field(1))))
        &&& !fs[2].is_payload
        &&& (fs[3].ty matches Type::Vector(inner) && *inner is Misc)
        &&& fs[3].packet_length == Some(Expr::Sub(Box::new(Expr::Lit(1)), Box::new(Expr::Eq(Box::new(Expr::Field(0)), Box::new(Expr::Lit(29))))))
        &&& !fs[3].is_payload
        &&& (fs[4].ty matches Type::Primitive(_, w, e) && w == 8 && e == Endianness::Big)
        &&& fs[4].packet_length is None
        &&& !fs[4].is_payload
        &&& (fs[5].ty matches Type::Vector(inner) && (*inner matches Type::Primitive(_, w, _) && w == 8))
        &&& fs[5].packet_length == Some(Expr::VarintLength(Box::new(Expr::Field(4))))
        &&& !fs[5].is_payload
        &&& (fs[6].ty matches Type::Vector(inner) && (*inner matches Type::Primitive(_, w, _) && w == 8))
        &&& fs[6].packet_length == Some(Expr::Varint(4, 5))
        &&& !fs[6].is_payload
        &&& (fs[7].ty matches Type::Vector(inner) && (*inner matches Type::Primitive(_, w, _) && w == 8))
        &&& fs[7].packet_length is None
        &&& !fs[7].is_payload
    }

    /// The wire layout of this packet, field by field.
    pub fn schema() -> (r: Packet)
        ensures
            r.fields@.len() == 8,
            Self::fields_spec(r.fields@),
            layout_ok(r.fields@),
            min_size(r.fields@) == 3,
    {
        let mut f: Vec<Field> = Vec::new();
        f.push(semantic_u8("ty", "FrameType"));
        f.push(small("error_code_1", "u8", 8));
        f.push(bytes("error_code_2", Some(varint_len_of(1)), false));
        f.push(packets("frame_type", "Varint", Some(minus(lit(1), eq(val(0), lit(29))))));
        f.push(small("reason_phrase_length_1", "u8", 8));
        f.push(bytes("reason_phrase_length_2", Some(varint_len_of(4)), false));
        f.push(bytes("reason_phrase", Some(Expr::Varint(4, 5)), false));
        f.push(bytes("remaining", None, false));
        proof {
            let fs = f@;
            reveal_with_fuel(fixed_bits, 9);
            reveal_with_fuel(args_width, 2);
            assert forall|k: int| 0 <= k < 8 implies prim_ok(#[trigger] fs[k].ty) && elem_ok(fs[k].ty) && forall|a: int|
                0 <= a < arg_types(fs[k]).len() ==> prim_ok(#[trigger] arg_types(fs[k])[a]) by {
                if k == 0 {} else if k == 1 {} else if k == 2 {} else if k == 3 {} else if k == 4 {} else if k == 5 {} else if k == 6 {} else {}
            }
            assert(fixed_bits(fs, 8) == 24);
        }
        Packet { base_name: String::from_str("ConnectionClose"), fields: f }
    }
}

/// A HandshakeDone frame.
#[derive(Debug)]
pub struct HandshakeDone {
    pub ty: FrameType,
    pub remaining: Vec<u8>,
}

impl HandshakeDone {
    /// The shape of each field of this layout: its type, its length
    /// expression and whether it is the payload.
    pub open spec fn fields_spec(fs: Seq<Field>) -> bool {
        &&& fs.len() == 2
        &&& fs[0].ty is Misc
        &&& arg_types(fs[0]).len() == 1
        &&& (arg_types(fs[0])[0] matches Type::Primitive(_, w, e) && w == 8 && e == Endianness::Big)
        &&& fs[0].packet_length is None
        &&& !fs[0].is_payload
        &&& (fs[1].ty matches Type::Vector(inner) && (*inner matches Type::Primitive(_, w, _) && w == 8))
        &&& fs[1].packet_length is None
        &&& !fs[1].is_payload
    }

    /// The wire layout of this packet, field by field.
    pub fn schema() -> (r: Packet)
        ensures
            r.fields@.len() == 2,
            Self::fields_spec(r.fields@),
            layout_ok(r.fields@),
            min_size(r.fields@) == 1,
    {
        let mut f: Vec<Field> = Vec::new();
        f.push(semantic_u8("ty", "FrameType"));
        f.push(bytes("remaining", None, false));
        proof {
            let fs = f@;
            reveal_with_fuel(fixed_bits, 3);
            reveal_with_fuel(args_width, 2);
            assert forall|k: int| 0 <= k < 2 implies prim_ok(#[trigger] fs[k].ty) && elem_ok(fs[k].ty) && forall|a: int|
                0 <= a < arg_types(fs[k]).len() ==> prim_ok(#[trigger] arg_types(fs[k])[a]) by {
                if k == 0 {} else {}
            }
            assert(fixed_bits(fs, 2) == 8);
        }
        Packet { base_name: String::from_str("HandshakeDone"), fields: f }
    }
}

/// A QUIC packet in a buffer, by kind.
#[derive(Debug)]
pub enum QuicPacket<'a> {
    VersionNegotiation(PacketView<'a>),
    Initial(PacketView<'a>),
    ZeroRtt(PacketView<'a>),
    Handshake(PacketView<'a>),
    Retry(PacketView<'a>),
    OneRtt(PacketView<'a>),
}

impl<'a> QuicPacket<'a> {
    /// The view of the packet's bytes.
    pub open spec fn view(&self) -> PacketView<'a> {
        match self {
            QuicPacket::VersionNegotiation(v) => *v,
            QuicPacket::Initial(v) => *v,
            QuicPacket::ZeroRtt(v) => *v,
            QuicPacket::Handshake(v) => *v,
            QuicPacket::Retry(v) => *v,
            QuicPacket::OneRtt(v) => *v,
        }
    }

    /// Number of fields of the packet's kind.
    pub open spec fn field_count(&self) -> nat {
        match self {
            QuicPacket::VersionNegotiation(_) => 8,
            QuicPacket::Initial(_) => 18,
            QuicPacket::ZeroRtt(_) => 15,
            QuicPacket::Handshake(_) => 15,
            QuicPacket::Retry(_) => 10,
            QuicPacket::OneRtt(_) => 9,
        }
    }

    pub open spec fn wf(&self) -> bool {
        self.view().layout.wf() && self.view().fields().len() == self.field_count() && self.shape_ok()
    }

    /// The view holds the layout of the packet's kind.
    pub open spec fn shape_ok(&self) -> bool {
        match self {
            QuicPacket::VersionNegotiation(v) => VersionNegotiation::fields_spec(v.fields()),
            QuicPacket::Initial(v) => Initial::fields_spec(v.fields()),
            QuicPacket::ZeroRtt(v) => ZeroRtt::fields_spec(v.fields()),
            QuicPacket::Handshake(v) => Handshake::fields_spec(v.fields()),
            QuicPacket::Retry(v) => Retry::fields_spec(v.fields()),
            QuicPacket::OneRtt(v) => OneRtt::fields_spec(v.fields()),
        }
    }

    /// The packet's kind, by its position in the enum.
    pub open spec fn kind(&self) -> nat {
        match self {
            QuicPacket::VersionNegotiation(_) => 0,
            QuicPacket::Initial(_) => 1,
            QuicPacket::ZeroRtt(_) => 2,
            QuicPacket::Handshake(_) => 3,
            QuicPacket::Retry(_) => 4,
            QuicPacket::OneRtt(_) => 5,
        }
    }

    /// Size of the fixed part of each kind, by its position in the enum.
    pub open spec fn kind_min(k: nat) -> nat {
        if k == 0 {
            7
        } else if k == 1 {
            9
        } else if k == 2 || k == 3 {
            8
        } else if k == 4 {
            7
        } else {
            1
        }
    }

    /// The kind that the first five bytes of `b` name: a short header when
    /// the fixed bit is set and the header form bit clear; else version
    /// negotiation when the version is zero; else, with the fixed bit set,
    /// the long packet type in bits 4 and 5 of the first byte.
    pub open spec fn kind_of(b: Seq<u8>) -> Option<nat> {
        let b0 = b[0];
        if b0 / 64 % 2 == 1 && b0 < 128 {
            Some(5)
        } else if b[1] == 0 && b[2] == 0 && b[3] == 0 && b[4] == 0 {
            Some(0)
        } else if b0 / 64 % 2 == 0 {
            None
        } else {
            Some((1 + b0 / 16 % 4) as nat)
        }
    }

    pub open spec fn dest_id_index(&self) -> int {
        match self {
            QuicPacket::VersionNegotiation(_) => 4,
            QuicPacket::Retry(_) => 6,
            QuicPacket::OneRtt(_) => 6,
            _ => 7,
        }
    }

    pub open spec fn src_id_index(&self) -> int {
        match self {
            QuicPacket::VersionNegotiation(_) => 6,
            QuicPacket::Retry(_) => 8,
            _ => 9,
        }
    }

    pub open spec fn version_index(&self) -> int {
        match self {
            QuicPacket::Retry(_) => 4,
            _ => 5,
        }
    }

    pub open spec fn packet_number_index(&self) -> int {
        match self {
            QuicPacket::Initial(_) => 15,
            QuicPacket::OneRtt(_) => 7,
            _ => 12,
        }
    }

    pub open spec fn frames_index(&self) -> int {
        match self {
            QuicPacket::Initial(_) => 16,
            _ => 13,
        }
    }

    pub open spec fn remaining_index(&self) -> int {
        match self {
            QuicPacket::Initial(_) => 17,
            _ => 14,
        }
    }

    fn inner(&self) -> (r: &PacketView<'a>)
        ensures
            *r == self.view(),
    {
        match self {
            QuicPacket::VersionNegotiation(v) => v,
            QuicPacket::Initial(v) => v,
            QuicPacket::ZeroRtt(v) => v,
            QuicPacket::Handshake(v) => v,
            QuicPacket::Retry(v) => v,
            QuicPacket::OneRtt(v) => v,
        }
    }

    /// Splits a datagram into its coalesced packets. `None` when a packet
    /// is shorter than five bytes, has an unknown long-header type, or does
    /// not fit its kind's fixed layout.
    pub fn new(packet: &'a [u8]) -> (r: Option<Vec<QuicPacket<'a>>>)
        ensures
            packet@.len() == 0 ==> (r matches Some(v) && v@.len() == 0),
            0 < packet@.len() < 5 ==> r is None,
            packet@.len() >= 5 && Self::kind_of(packet@) is None ==> r is None,
            packet@.len() >= 5 && Self::kind_of(packet@) is Some && packet@.len() < Self::kind_min(
                Self::kind_of(packet@)->0,
            ) ==> r is None,
            packet@.len() >= 5 && Self::kind_of(packet@) is Some && (Self::kind_of(packet@)->0 == 0
                || Self::kind_of(packet@)->0 == 4 || Self::kind_of(packet@)->0 == 5) && packet@.len()
                >= Self::kind_min(Self::kind_of(packet@)->0) ==> (r matches Some(v) && v@.len() == 1),
            r matches Some(v) ==> forall|i: int| 0 <= i < v@.len() ==> (#[trigger] v@[i]).wf(),
            packet@.len() > 0 ==> (r matches Some(v) ==> v@.len() > 0 && v@[0].view().buf@ == packet@
                && Self::kind_of(packet@) == Some(v@[0].kind())),
    {
        let mut rest: &'a [u8] = packet;
        let mut packets: Vec<QuicPacket<'a>> = Vec::new();
        while rest.len() > 0
            invariant
                packet@.len() == 0 ==> packets@.len() == 0 && rest@.len() == 0,
                packets@.len() == 0 ==> rest@ == packet@,
                0 < packet@.len() < 5 ==> packets@.len() == 0,
                packets@.len() > 0 ==> packets@[0].view().buf@ == packet@ && Self::kind_of(packet@) == Some(
                    packets@[0].kind(),
                ),
                packet@.len() >= 5 && Self::kind_of(packet@) is Some && packet@.len() < Self::kind_min(
                    Self::kind_of(packet@)->0,
                ) ==> packets@.len() == 0,
                packets@.len() > 0 && (packets@[0] is VersionNegotiation || packets@[0] is Retry
                    || packets@[0] is OneRtt) ==> packets@.len() == 1 && rest@.len() == 0,
                forall|i: int| 0 <= i < packets@.len() ==> (#[trigger] packets@[i]).wf(),
            decreases rest@.len(),
        {
            if rest.len() < 5 {
                return None;
            }
            let b0 = rest[0];
            let header_form = b0 >= 128;
            let fixed_bit = (b0 / 64) % 2 == 1;
            let quic = if fixed_bit && !header_form {
                match view_of(OneRtt::schema(), rest) {
                    Some(v) => QuicPacket::OneRtt(v),
                    None => return None,
                }
            } else if rest[1] == 0 && rest[2] == 0 && rest[3] == 0 && rest[4] == 0 {
                match view_of(VersionNegotiation::schema(), rest) {
                    Some(v) => QuicPacket::VersionNegotiation(v),
                    None => return None,
                }
            } else if !fixed_bit {
                return None;
            } else {
                let ty = (b0 / 16) % 4;
                let v = if ty == 0 {
                    view_of(Initial::schema(), rest)
                } else if ty == 1 {
                    view_of(ZeroRtt::schema(), rest)
                } else if ty == 2 {
                    view_of(Handshake::schema(), rest)
                } else {
                    view_of(Retry::schema(), rest)
                };
                match v {
                    Some(v) => if ty == 0 {
                        QuicPacket::Initial(v)
                    } else if ty == 1 {
                        QuicPacket::ZeroRtt(v)
                    } else if ty == 2 {
                        QuicPacket::Handshake(v)
                    } else {
                        QuicPacket::Retry(v)
                    },
                    None => return None,
                }
            };
            let remaining = quic.remaining();
            packets.push(quic);
            if remaining.len() >= rest.len() {
                return None;
            }
            rest = remaining;
        }
        Some(packets)
    }

    /// The version of a long-header packet other than version negotiation.
    pub fn version(&self) -> (r: Option<Version>)
        requires
            self.wf(),
        ensures
            match self {
                QuicPacket::VersionNegotiation(_) | QuicPacket::OneRtt(_) => r is None,
                _ => (r is Some <==> arg_types(self.view().fields()[self.version_index()]).len() > 0) && (r matches Some(
                    x,
                ) ==> x.0 == arg_value(self.view().fields(), self.view().calls(), self.view().buf@, self.version_index(), 0) as u32),
            },
    {
        let v = self.inner();
        let k: usize = match self {
            QuicPacket::VersionNegotiation(_) | QuicPacket::OneRtt(_) => return None,
            QuicPacket::Retry(_) => 4,
            _ => 5,
        };
        let args = get_args(&v.layout, v.buf, k);
        if args.len() > 0 {
            Some(Version::new(args[0] as u32))
        } else {
            None
        }
    }

    /// The token of an initial packet.
    pub fn token(&self) -> (r: Option<Vec<u8>>)
        requires
            self.wf(),
        ensures
            match self {
                QuicPacket::Initial(v) => r matches Some(t) && t@ == region_of(v.fields(), v.calls(), v.buf@, 12),
                _ => r is None,
            },
    {
        match self {
            QuicPacket::Initial(v) => Some(slice_to_vec(get_region(&v.layout, v.buf, 12))),
            _ => None,
        }
    }

    /// The packet number, read big-endian from its one to four bytes.
    pub fn packet_number(&self) -> (r: Option<u64>)
        requires
            self.wf(),
        ensures
            match self {
                QuicPacket::VersionNegotiation(_) | QuicPacket::Retry(_) => r is None,
                _ => {
                    let b = region_of(self.view().fields(), self.view().calls(), self.view().buf@, self.packet_number_index());
                    (r is Some <==> b.len() <= 8) && (r matches Some(n) ==> n as nat == be_nat(b))
                },
            },
    {
        let v = self.inner();
        let k: usize = match self {
            QuicPacket::VersionNegotiation(_) | QuicPacket::Retry(_) => return None,
            QuicPacket::Initial(_) => 15,
            QuicPacket::OneRtt(_) => 7,
            _ => 12,
        };
        let b = get_region(&v.layout, v.buf, k);
        if b.len() <= 8 {
            Some(packet_number(b))
        } else {
            None
        }
    }

    /// The destination connection id.
    pub fn dest_id(&self) -> (r: Vec<u8>)
        requires
            self.wf(),
        ensures
            r@ == region_of(self.view().fields(), self.view().calls(), self.view().buf@, self.dest_id_index()),
    {
        let v = self.inner();
        let k: usize = match self {
            QuicPacket::VersionNegotiation(_) => 4,
            QuicPacket::Retry(_) => 6,
            QuicPacket::OneRtt(_) => 6,
            _ => 7,
        };
        slice_to_vec(get_region(&v.layout, v.buf, k))
    }

    /// The source connection id; short-header packets carry none.
    pub fn src_id(&self) -> (r: Option<Vec<u8>>)
        requires
            self.wf(),
        ensures
            match self {
                QuicPacket::OneRtt(_) => r is None,
                _ => r matches Some(s) && s@ == region_of(
                    self.view().fields(), self.view().calls(),
                    self.view().buf@,
                    self.src_id_index(),
                ),
            },
    {
        let v = self.inner();
        let k: usize = match self {
            QuicPacket::OneRtt(_) => return None,
            QuicPacket::VersionNegotiation(_) => 6,
            QuicPacket::Retry(_) => 8,
            _ => 9,
        };
        Some(slice_to_vec(get_region(&v.layout, v.buf, k)))
    }

    /// The whole buffer the packet was read from.
    pub fn packet(&self) -> (r: &[u8])
        ensures
            r@ == self.view().buf@,
    {
        self.inner().buf
    }

    /// The frames a packet carries: the frames field of the long-header
    /// packets that have one, the payload of a short-header packet.
    pub fn frames(&self) -> (r: Option<&'a [u8]>)
        requires
            self.wf(),
        ensures
            match self {
                QuicPacket::VersionNegotiation(_) | QuicPacket::Retry(_) => r is None,
                QuicPacket::OneRtt(v) => r matches Some(f) && f@ == payload_of(v.fields(), v.calls(), v.buf@),
                _ => r matches Some(f) && f@ == region_of(
                    self.view().fields(), self.view().calls(),
                    self.view().buf@,
                    self.frames_index(),
                ),
            },
    {
        match self {
            QuicPacket::VersionNegotiation(_) | QuicPacket::Retry(_) => None,
            QuicPacket::OneRtt(v) => Some(get_payload(&v.layout, v.buf)),
            QuicPacket::Initial(v) => Some(get_region(&v.layout, v.buf, 16)),
            QuicPacket::ZeroRtt(v) => Some(get_region(&v.layout, v.buf, 13)),
            QuicPacket::Handshake(v) => Some(get_region(&v.layout, v.buf, 13)),
        }
    }

    /// The bytes after the packet in its datagram: the next coalesced
    /// packet, if any. Empty for the kinds that run to the end.
    pub fn remaining(&self) -> (r: &'a [u8])
        requires
            self.wf(),
        ensures
            match self {
                QuicPacket::Initial(_) | QuicPacket::ZeroRtt(_) | QuicPacket::Handshake(_) => r@ == region_of(
                    self.view().fields(), self.view().calls(),
                    self.view().buf@,
                    self.remaining_index(),
                ),
                _ => r@.len() == 0,
            },
    {
        match self {
            QuicPacket::Initial(v) => get_region(&v.layout, v.buf, 17),
            QuicPacket::ZeroRtt(v) => get_region(&v.layout, v.buf, 14),
            QuicPacket::Handshake(v) => get_region(&v.layout, v.buf, 14),
            _ => &[],
        }
    }
}

/// A QUIC frame in a buffer, by kind. Consecutive padding frames are
/// merged, with their count.
#[derive(Debug)]
pub enum Frame<'a> {
    Padding(PacketView<'a>, usize),
    Ping(PacketView<'a>),
    Ack(PacketView<'a>),
    ResetStream(PacketView<'a>),
    StopSending(PacketView<'a>),
    Crypto(PacketView<'a>),
    NewToken(PacketView<'a>),
    Stream(PacketView<'a>),
    MaxData(PacketView<'a>),
    MaxStreamData(PacketView<'a>),
    MaxStreams(PacketView<'a>),
    DataBlocked(PacketView<'a>),
    StreamDataBlocked(PacketView<'a>),
    StreamsBlocked(PacketView<'a>),
    NewConnectionId(PacketView<'a>),
    RetireConnectionId(PacketView<'a>),
    PathChallenge(PacketView<'a>),
    PathResponse(PacketView<'a>),
    ConnectionClose(PacketView<'a>),
    HandshakeDone(PacketView<'a>),
}

impl<'a> Frame<'a> {
    /// The view of the frame's bytes.
    pub open spec fn view(&self) -> PacketView<'a> {
        match self {
            Frame::Padding(v, _) => *v,
            Frame::Ping(v) => *v,
            Frame::Ack(v) => *v,
            Frame::ResetStream(v) => *v,
            Frame::StopSending(v) => *v,
            Frame::Crypto(v) => *v,
            Frame::NewToken(v) => *v,
            Frame::Stream(v) => *v,
            Frame::MaxData(v) => *v,
            Frame::MaxStreamData(v) => *v,
            Frame::MaxStreams(v) => *v,
            Frame::DataBlocked(v) => *v,
            Frame::StreamDataBlocked(v) => *v,
            Frame::StreamsBlocked(v) => *v,
            Frame::NewConnectionId(v) => *v,
            Frame::RetireConnectionId(v) => *v,
            Frame::PathChallenge(v) => *v,
            Frame::PathResponse(v) => *v,
            Frame::ConnectionClose(v) => *v,
            Frame::HandshakeDone(v) => *v,
        }
    }

    /// Number of fields of the frame's kind.
    pub open spec fn field_count(&self) -> nat {
        match self {
            Frame::Padding(_, _) => 2,
            Frame::Ping(_) => 2,
            Frame::Ack(_) => 12,
            Frame::ResetStream(_) => 8,
            Frame::StopSending(_) => 6,
            Frame::Crypto(_) => 7,
            Frame::NewToken(_) => 5,
            Frame::Stream(_) => 7,
            Frame::MaxData(_) => 4,
            Frame::MaxStreamData(_) => 6,
            Frame::MaxStreams(_) => 4,
            Frame::DataBlocked(_) => 4,
            Frame::StreamDataBlocked(_) => 6,
            Frame::StreamsBlocked(_) => 4,
            Frame::NewConnectionId(_) => 9,
            Frame::RetireConnectionId(_) => 4,
            Frame::PathChallenge(_) => 3,
            Frame::PathResponse(_) => 3,
            Frame::ConnectionClose(_) => 8,
            Frame::HandshakeDone(_) => 2,
        }
    }

    pub open spec fn wf(&self) -> bool {
        &&& self.view().layout.wf()
        &&& self.view().fields().len() == self.field_count()
        &&& self.view().buf@.len() > 0
        &&& self.shape_ok()
    }

    /// The view holds the layout of the frame's kind.
    pub open spec fn shape_ok(&self) -> bool {
        match self {
            Frame::Padding(v, _) => Padding::fields_spec(v.fields()),
            Frame::Ping(v) => Ping::fields_spec(v.fields()),
            Frame::Ack(v) => Ack::fields_spec(v.fields()),
            Frame::ResetStream(v) => ResetStream::fields_spec(v.fields()),
            Frame::StopSending(v) => StopSending::fields_spec(v.fields()),
            Frame::Crypto(v) => Crypto::fields_spec(v.fields()),
            Frame::NewToken(v) => NewToken::fields_spec(v.fields()),
            Frame::Stream(v) => Stream::fields_spec(v.fields()),
            Frame::MaxData(v) => MaxData::fields_spec(v.fields()),
            Frame::MaxStreamData(v) => MaxStreamData::fields_spec(v.fields()),
            Frame::MaxStreams(v) => MaxStreams::fields_spec(v.fields()),
            Frame::DataBlocked(v) => DataBlocked::fields_spec(v.fields()),
            Frame::StreamDataBlocked(v) => StreamDataBlocked::fields_spec(v.fields()),
            Frame::StreamsBlocked(v) => StreamsBlocked::fields_spec(v.fields()),
            Frame::NewConnectionId(v) => NewConnectionId::fields_spec(v.fields()),
            Frame::RetireConnectionId(v) => RetireConnectionId::fields_spec(v.fields()),
            Frame::PathChallenge(v) => PathChallenge::fields_spec(v.fields()),
            Frame::PathResponse(v) => PathResponse::fields_spec(v.fields()),
            Frame::ConnectionClose(v) => ConnectionClose::fields_spec(v.fields()),
            Frame::HandshakeDone(v) => HandshakeDone::fields_spec(v.fields()),
        }
    }

    /// The frame's kind, by its position in the enum.
    pub open spec fn kind(&self) -> nat {
        match self {
            Frame::Padding(_, _) => 0,
            Frame::Ping(_) => 1,
            Frame::Ack(_) => 2,
            Frame::ResetStream(_) => 3,
            Frame::StopSending(_) => 4,
            Frame::Crypto(_) => 5,
            Frame::NewToken(_) => 6,
            Frame::Stream(_) => 7,
            Frame::MaxData(_) => 8,
            Frame::MaxStreamData(_) => 9,
            Frame::MaxStreams(_) => 10,
            Frame::DataBlocked(_) => 11,
            Frame::StreamDataBlocked(_) => 12,
            Frame::StreamsBlocked(_) => 13,
            Frame::NewConnectionId(_) => 14,
            Frame::RetireConnectionId(_) => 15,
            Frame::PathChallenge(_) => 16,
            Frame::PathResponse(_) => 17,
            Frame::ConnectionClose(_) => 18,
            Frame::HandshakeDone(_) => 19,
        }
    }

    /// Size of the fixed part of each kind, by its position in the enum.
    pub open spec fn kind_min(k: nat) -> nat {
        if k == 0 {
            1
        } else if k == 1 {
            1
        } else if k == 2 {
            5
        } else if k == 3 {
            4
        } else if k == 4 {
            3
        } else if k == 5 {
            3
        } else if k == 6 {
            2
        } else if k == 7 {
            2
        } else if k == 8 {
            2
        } else if k == 9 {
            3
        } else if k == 10 {
            2
        } else if k == 11 {
            2
        } else if k == 12 {
            3
        } else if k == 13 {
            2
        } else if k == 14 {
            4
        } else if k == 15 {
            2
        } else if k == 16 {
            1
        } else if k == 17 {
            1
        } else if k == 18 {
            3
        } else if k == 19 {
            1
        } else {
            0
        }
    }

    /// A padding frame stands for at least one padding byte.
    pub open spec fn count_ok(&self) -> bool {
        match self {
            Frame::Padding(_, n) => n >= 1,
            _ => true,
        }
    }

    /// The kind that frame type byte `t` names.
    pub open spec fn kind_of(t: u8) -> Option<nat> {
        if t == 0x00 {
            Some(0)
        } else if t == 0x01 {
            Some(1)
        } else if t == 0x02 || t == 0x03 {
            Some(2)
        } else if t == 0x04 {
            Some(3)
        } else if t == 0x05 {
            Some(4)
        } else if t == 0x06 {
            Some(5)
        } else if t == 0x07 {
            Some(6)
        } else if 0x08 <= t && t <= 0x0f {
            Some(7)
        } else if t == 0x10 {
            Some(8)
        } else if t == 0x11 {
            Some(9)
        } else if t == 0x12 || t == 0x13 {
            Some(10)
        } else if t == 0x14 {
            Some(11)
        } else if t == 0x15 {
            Some(12)
        } else if t == 0x16 || t == 0x17 {
            Some(13)
        } else if t == 0x18 {
            Some(14)
        } else if t == 0x19 {
            Some(15)
        } else if t == 0x1a {
            Some(16)
        } else if t == 0x1b {
            Some(17)
        } else if t == 0x1c || t == 0x1d {
            Some(18)
        } else if t == 0x1e {
            Some(19)
        } else {
            None
        }
    }

    fn inner(&self) -> (r: &PacketView<'a>)
        ensures
            *r == self.view(),
    {
        match self {
            Frame::Padding(v, _) => v,
            Frame::Ping(v) => v,
            Frame::Ack(v) => v,
            Frame::ResetStream(v) => v,
            Frame::StopSending(v) => v,
            Frame::Crypto(v) => v,
            Frame::NewToken(v) => v,
            Frame::Stream(v) => v,
            Frame::MaxData(v) => v,
            Frame::MaxStreamData(v) => v,
            Frame::MaxStreams(v) => v,
            Frame::DataBlocked(v) => v,
            Frame::StreamDataBlocked(v) => v,
            Frame::StreamsBlocked(v) => v,
            Frame::NewConnectionId(v) => v,
            Frame::RetireConnectionId(v) => v,
            Frame::PathChallenge(v) => v,
            Frame::PathResponse(v) => v,
            Frame::ConnectionClose(v) => v,
            Frame::HandshakeDone(v) => v,
        }
    }

    /// The view of `b` as a frame of the kind its first byte names.
    fn parse_one(b: &'a [u8]) -> (r: Option<Frame<'a>>)
        requires
            b@.len() > 0,
        ensures
            r matches Some(f) ==> f.wf() && f.view().buf@ == b@ && Self::kind_of(b@[0]) == Some(f.kind())
                && (f matches Frame::Padding(_, n) ==> n == 1),
            r is Some <==> Self::kind_of(b@[0]) is Some && b@.len() >= Self::kind_min(Self::kind_of(b@[0])->0),
    {
        let t = b[0];
        if t == 0x00 {
            match view_of(Padding::schema(), b) {
                Some(v) => Some(Frame::Padding(v, 1)),
                None => None,
            }
        } else if t == 0x01 {
            match view_of(Ping::schema(), b) {
                Some(v) => Some(Frame::Ping(v)),
                None => None,
            }
        } else if t == 0x02 || t == 0x03 {
            match view_of(Ack::schema(), b) {
                Some(v) => Some(Frame::Ack(v)),
                None => None,
            }
        } else if t == 0x04 {
            match view_of(ResetStream::schema(), b) {
                Some(v) => Some(Frame::ResetStream(v)),
                None => None,
            }
        } else if t == 0x05 {
            match view_of(StopSending::schema(), b) {
                Some(v) => Some(Frame::StopSending(v)),
                None => None,
            }
        } else if t == 0x06 {
            match view_of(Crypto::schema(), b) {
                Some(v) => Some(Frame::Crypto(v)),
                None => None,
            }
        } else if t == 0x07 {
            match view_of(NewToken::schema(), b) {
                Some(v) => Some(Frame::NewToken(v)),
                None => None,
            }
        } else if 0x08 <= t && t <= 0x0f {
            match view_of(Stream::schema(), b) {
                Some(v) => Some(Frame::Stream(v)),
                None => None,
            }
        } else if t == 0x10 {
            match view_of(MaxData::schema(), b) {
                Some(v) => Some(Frame::MaxData(v)),
                None => None,
            }
        } else if t == 0x11 {
            match view_of(MaxStreamData::schema(), b) {
                Some(v) => Some(Frame::MaxStreamData(v)),
                None => None,
            }
        } else if t == 0x12 || t == 0x13 {
            match view_of(MaxStreams::schema(), b) {
                Some(v) => Some(Frame::MaxStreams(v)),
                None => None,
            }
        } else if t == 0x14 {
            match view_of(DataBlocked::schema(), b) {
                Some(v) => Some(Frame::DataBlocked(v)),
                None => None,
            }
        } else if t == 0x15 {
            match view_of(StreamDataBlocked::schema(), b) {
                Some(v) => Some(Frame::StreamDataBlocked(v)),
                None => None,
            }
        } else if t == 0x16 || t == 0x17 {
            match view_of(StreamsBlocked::schema(), b) {
                Some(v) => Some(Frame::StreamsBlocked(v)),
                None => None,
            }
        } else if t == 0x18 {
            match view_of(NewConnectionId::schema(), b) {
                Some(v) => Some(Frame::NewConnectionId(v)),
                None => None,
            }
        } else if t == 0x19 {
            match view_of(RetireConnectionId::schema(), b) {
                Some(v) => Some(Frame::RetireConnectionId(v)),
                None => None,
            }
        } else if t == 0x1a {
            match view_of(PathChallenge::schema(), b) {
                Some(v) => Some(Frame::PathChallenge(v)),
                None => None,
            }
        } else if t == 0x1b {
            match view_of(PathResponse::schema(), b) {
                Some(v) => Some(Frame::PathResponse(v)),
                None => None,
            }
        } else if t == 0x1c || t == 0x1d {
            match view_of(ConnectionClose::schema(), b) {
                Some(v) => Some(Frame::ConnectionClose(v)),
                None => None,
            }
        } else if t == 0x1e {
            match view_of(HandshakeDone::schema(), b) {
                Some(v) => Some(Frame::HandshakeDone(v)),
                None => None,
            }
        } else {
            None
        }
    }

    /// Splits a packet's frames. `None` when a frame type is unknown or a
    /// frame does not fit its kind's fixed layout.
    #[verifier::rlimit(60)]
    pub fn new(packet: &'a [u8]) -> (r: Option<Vec<Frame<'a>>>)
        ensures
            packet@.len() == 0 ==> (r matches Some(v) && v@.len() == 0),
            packet@.len() > 0 && Self::kind_of(packet@[0]) is None ==> r is None,
            packet@.len() > 0 && Self::kind_of(packet@[0]) is Some && packet@.len() < Self::kind_min(
                Self::kind_of(packet@[0])->0,
            ) ==> r is None,
            r matches Some(v) ==> forall|i: int|
                0 <= i < v@.len() ==> (#[trigger] v@[i]).count_ok(),
            packet@.len() > 0 && (forall|i: int| 0 <= i < packet@.len() ==> packet@[i] == 0) ==> (r matches Some(v)
                && v@.len() == 1 && (v@[0] matches Frame::Padding(_, n) && n == packet@.len())),
            r matches Some(v) ==> forall|i: int|
                0 <= i < v@.len() - 1 ==> !((#[trigger] v@[i]) is Padding && v@[i + 1] is Padding),
            r matches Some(v) ==> forall|i: int| 0 <= i < v@.len() ==> (#[trigger] v@[i]).wf(),
            packet@.len() > 0 ==> (r matches Some(v) ==> v@.len() > 0 && v@[0].view().buf@ == packet@
                && Self::kind_of(packet@[0]) == Some(v@[0].kind())),
    {
        let mut rest: &'a [u8] = packet;
        let mut frames: Vec<Frame<'a>> = Vec::new();
        let plen = packet.len();
        while rest.len() > 0
            invariant
                packet@.len() == 0 ==> frames@.len() == 0 && rest@.len() == 0,
                frames@.len() == 0 ==> rest@ == packet@,
                rest@.len() <= packet@.len(),
                plen == packet@.len(),
                (forall|i: int| 0 <= i < packet@.len() ==> packet@[i] == 0) ==> {
                    &&& rest@ == packet@.subrange(packet@.len() - rest@.len(), packet@.len() as int)
                    &&& (frames@.len() == 0 || (frames@.len() == 1 && (frames@[0] matches Frame::Padding(_, n) && n
                        == packet@.len() - rest@.len())))
                },
                packet@.len() > 0 && Self::kind_of(packet@[0]) is Some && packet@.len() < Self::kind_min(
                    Self::kind_of(packet@[0])->0,
                ) ==> frames@.len() == 0,
                forall|i: int| 0 <= i < frames@.len() ==> (#[trigger] frames@[i]).count_ok(),
                forall|i: int| 0 <= i < frames@.len() - 1 ==> !((#[trigger] frames@[i]) is Padding && frames@[i + 1] is Padding),
                frames@.len() > 0 ==> frames@[0].view().buf@ == packet@ && packet@.len() > 0 && Self::kind_of(packet@[0])
                    == Some(frames@[0].kind()),
                forall|i: int| 0 <= i < frames@.len() ==> (#[trigger] frames@[i]).wf(),
            decreases rest@.len(),
        {
            let ghost zero = forall|i: int| 0 <= i < packet@.len() ==> packet@[i] == 0;
            let ghost before = rest@;
            let ghost done = packet@.len() - rest@.len();
            proof {
                if zero {
                    assert(rest@[0] == packet@[done]);
                }
            }
            let frame = match Frame::parse_one(rest) {
                Some(f) => f,
                None => return None,
            };
            proof {
                if zero {
                    assert(frame.kind() == 0);
                    assert(frame is Padding);
                }
            }
            let remaining = frame.remaining();
            proof {
                if frame is Padding {
                    lemma_padding_rest(frame.view().fields(), frame.view().calls(), frame.view().buf@);
                }
            }
            if remaining.len() >= rest.len() {
                return None;
            }
            rest = remaining;
            let merged = match frame {
                Frame::Padding(v, n) => {
                    if frames.len() > 0 && frames[frames.len() - 1].is_padding() {
                        match frames.pop() {
                            Some(Frame::Padding(w, m)) => {
                                Frame::Padding(w, if m <= usize::MAX - n { m + n } else { usize::MAX })
                            },
                            Some(other) => {
                                frames.push(other);
                                Frame::Padding(v, n)
                            },
                            None => Frame::Padding(v, n),
                        }
                    } else {
                        Frame::Padding(v, n)
                    }
                },
                other => other,
            };
            frames.push(merged);
            proof {
                if zero {
                    assert(rest@ == before.subrange(1, before.len() as int));
                    assert(rest@ =~= packet@.subrange(packet@.len() - rest@.len(), packet@.len() as int));
                    assert(frames@.len() == 1);
                    assert(frames@[0] matches Frame::Padding(_, n) && n == done + 1);
                }
            }
        }
        Some(frames)
    }

    fn is_padding(&self) -> (r: bool)
        ensures
            r == (self is Padding),
    {
        match self {
            Frame::Padding(_, _) => true,
            _ => false,
        }
    }

    /// The frame's type byte.
    pub fn ty(&self) -> (r: FrameType)
        requires
            self.wf(),
        ensures
            r.0 == self.view().buf@[0],
    {
        FrameType::new(self.inner().buf[0])
    }

    /// The frame's payload: the data of a stream frame, empty for others.
    pub fn payload(&self) -> (r: &'a [u8])
        requires
            self.wf(),
        ensures
            r@ == payload_of(self.view().fields(), self.view().calls(), self.view().buf@),
    {
        let v = self.inner();
        get_payload(&v.layout, v.buf)
    }

    /// The bytes after the frame: its last field, which runs to the end.
    pub fn remaining(&self) -> (r: &'a [u8])
        requires
            self.wf(),
        ensures
            r@ == region_of(self.view().fields(), self.view().calls(), self.view().buf@, self.field_count() - 1),
    {
        let v = self.inner();
        let n = v.layout.packet.fields.len();
        get_region(&v.layout, v.buf, n - 1)
    }
}

/// The name of frame type `t`.
pub open spec fn frame_type_name(t: u8) -> Seq<char> {
    if t == 0x00 {
        "padding"@
    } else if t == 0x01 {
        "ping"@
    } else if t == 0x02 {
        "ack"@
    } else if t == 0x03 {
        "ack"@
    } else if t == 0x04 {
        "reset-stream"@
    } else if t == 0x05 {
        "stop-sending"@
    } else if t == 0x06 {
        "crypto"@
    } else if t == 0x07 {
        "new-token"@
    } else if t == 0x08 {
        "stream"@
    } else if t == 0x09 {
        "stream"@
    } else if t == 0x0a {
        "stream"@
    } else if t == 0x0b {
        "stream"@
    } else if t == 0x0c {
        "stream"@
    } else if t == 0x0d {
        "stream"@
    } else if t == 0x0e {
        "stream"@
    } else if t == 0x0f {
        "stream"@
    } else if t == 0x10 {
        "max-data"@
    } else if t == 0x11 {
        "max-stream-data"@
    } else if t == 0x12 {
        "max-streams"@
    } else if t == 0x13 {
        "max-streams"@
    } else if t == 0x14 {
        "data-blocked"@
    } else if t == 0x15 {
        "stream-data-blocked"@
    } else if t == 0x16 {
        "streams-blocked"@
    } else if t == 0x17 {
        "streams-blocked"@
    } else if t == 0x18 {
        "new-connection-id"@
    } else if t == 0x19 {
        "retire-connection-id"@
    } else if t == 0x1a {
        "path-challenge"@
    } else if t == 0x1b {
        "path-response"@
    } else if t == 0x1c {
        "connection-close"@
    } else if t == 0x1d {
        "connection-close"@
    } else if t == 0x1e {
        "handshake-done"@
    } else {
        "unknown"@
    }
}

impl FrameType {
    /// The frame type's name.
    pub fn name(&self) -> (r: &'static str)
        ensures
            r@ == frame_type_name(self.0),
    {
        let t = self.0;
        if t == 0x00 {
            "padding"
        } else if t == 0x01 {
            "ping"
        } else if t == 0x02 {
            "ack"
        } else if t == 0x03 {
            "ack"
        } else if t == 0x04 {
            "reset-stream"
        } else if t == 0x05 {
            "stop-sending"
        } else if t == 0x06 {
            "crypto"
        } else if t == 0x07 {
            "new-token"
        } else if t == 0x08 {
            "stream"
        } else if t == 0x09 {
            "stream"
        } else if t == 0x0a {
            "stream"
        } else if t == 0x0b {
            "stream"
        } else if t == 0x0c {
            "stream"
        } else if t == 0x0d {
            "stream"
        } else if t == 0x0e {
            "stream"
        } else if t == 0x0f {
            "stream"
        } else if t == 0x10 {
            "max-data"
        } else if t == 0x11 {
            "max-stream-data"
        } else if t == 0x12 {
            "max-streams"
        } else if t == 0x13 {
            "max-streams"
        } else if t == 0x14 {
            "data-blocked"
        } else if t == 0x15 {
            "stream-data-blocked"
        } else if t == 0x16 {
            "streams-blocked"
        } else if t == 0x17 {
            "streams-blocked"
        } else if t == 0x18 {
            "new-connection-id"
        } else if t == 0x19 {
            "retire-connection-id"
        } else if t == 0x1a {
            "path-challenge"
        } else if t == 0x1b {
            "path-response"
        } else if t == 0x1c {
            "connection-close"
        } else if t == 0x1d {
            "connection-close"
        } else if t == 0x1e {
            "handshake-done"
        } else {
            "unknown"
        }
    }
}

/// The name of long packet type `t`.
pub open spec fn long_packet_type_name(t: u8) -> Seq<char> {
    if t == 0 {
        "initial"@
    } else if t == 1 {
        "0-rtt"@
    } else if t == 2 {
        "handshake"@
    } else if t == 3 {
        "retry"@
    } else {
        "unknown"@
    }
}

impl LongPacketType {
    /// The long packet type's name.
    pub fn name(&self) -> (r: &'static str)
        ensures
            r@ == long_packet_type_name(self.0),
    {
        if self.0 == 0 {
            "initial"
        } else if self.0 == 1 {
            "0-rtt"
        } else if self.0 == 2 {
            "handshake"
        } else if self.0 == 3 {
            "retry"
        } else {
            "unknown"
        }
    }
}

impl HeaderForm {
    /// The header form's name: `short` for 0, `long` for 1.
    pub fn name(&self) -> (r: &'static str)
        ensures
            self.0 == 0 ==> r@ == "short"@,
            self.0 == 1 ==> r@ == "long"@,
            self.0 > 1 ==> r@ == "unknown"@,
    {
        if self.0 == 0 {
            "short"
        } else if self.0 == 1 {
            "long"
        } else {
            "unknown"
        }
    }
}

impl QuicPacket<'_> {
    /// The packet kind's name.
    pub fn kind_name(&self) -> (r: &'static str)
        ensures
            self is VersionNegotiation ==> r@ == "version-negotiation"@,
            self is Initial ==> r@ == "initial"@,
            self is ZeroRtt ==> r@ == "0rtt"@,
            self is Handshake ==> r@ == "handshake"@,
            self is Retry ==> r@ == "retry"@,
            self is OneRtt ==> r@ == "1rtt"@,
    {
        match self {
            QuicPacket::VersionNegotiation(_) => "version-negotiation",
            QuicPacket::Initial(_) => "initial",
            QuicPacket::ZeroRtt(_) => "0rtt",
            QuicPacket::Handshake(_) => "handshake",
            QuicPacket::Retry(_) => "retry",
            QuicPacket::OneRtt(_) => "1rtt",
        }
    }
}

/// The rest of a padding frame is every byte after its type byte.
proof fn lemma_padding_rest<F: LengthFunctions>(fs: Seq<Field>, c: F, s: Seq<u8>)
    requires
        Padding::fields_spec(fs),
        s.len() >= 1,
    ensures
        region_of(fs, c, s, 1) == s.subrange(1, s.len() as int),
{
    reveal_with_fuel(walk, 3);
    reveal_with_fuel(fixed_bits, 2);
    reveal_with_fuel(args_width, 2);
    assert(fixed_bits(fs, 1) == 8);
}

} // verus!
