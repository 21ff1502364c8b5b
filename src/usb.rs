//! USB transfers by type.
use crate::layout::{arg_types, elem_ok, fixed_bits, layout_ok, min_size, prim_ok};
use crate::schema::{Field, Packet};
use crate::schemas::{bytes, view_of};
use crate::types::Type;
use crate::view::PacketView;
use vstd::prelude::*;
use vstd::string::*;

verus! {

/// A control transfer.
#[derive(Clone, Debug)]
pub struct Ctl {
    pub payload: Vec<u8>,
}

impl Ctl {
    /// The shape of each field of this layout: its type, its length
    /// expression and whether it is the payload.
    pub open spec fn fields_spec(fs: Seq<Field>) -> bool {
        &&& fs.len() == 1
        &&& (fs[0].ty matches Type::Vector(inner) && (*inner matches Type::Primitive(_, w, _) && w == 8))
        &&& fs[0].packet_length is None
        &&& fs[0].is_payload
    }

    /// The wire layout of this packet, field by field.
    pub fn schema() -> (r: Packet)
        ensures
            r.fields@.len() == 1,
            Self::fields_spec(r.fields@),
            layout_ok(r.fields@),
            min_size(r.fields@) == 0,
    {
        let mut f: Vec<Field> = Vec::new();
        f.push(bytes("payload", None, true));
        proof {
            let fs = f@;
            reveal_with_fuel(fixed_bits, 2);
            assert forall|k: int| 0 <= k < 1 implies prim_ok(#[trigger] fs[k].ty) && elem_ok(fs[k].ty) && forall|a: int|
                0 <= a < arg_types(fs[k]).len() ==> prim_ok(#[trigger] arg_types(fs[k])[a]) by {
                {}
            }
            assert(fixed_bits(fs, 1) == 0);
        }
        Packet { base_name: String::from_str("Ctl"), fields: f }
    }
}

/// A bulk transfer.
#[derive(Clone, Debug)]
pub struct Bulk {
    pub payload: Vec<u8>,
}

impl Bulk {
    /// The shape of each field of this layout: its type, its length
    /// expression and whether it is the payload.
    pub open spec fn fields_spec(fs: Seq<Field>) -> bool {
        &&& fs.len() == 1
        &&& (fs[0].ty matches Type::Vector(inner) && (*inner matches Type::Primitive(_, w, _) && w == 8))
        &&& fs[0].packet_length is None
        &&& fs[0].is_payload
    }

    /// The wire layout of this packet, field by field.
    pub fn schema() -> (r: Packet)
        ensures
            r.fields@.len() == 1,
            Self::fields_spec(r.fields@),
            layout_ok(r.fields@),
            min_size(r.fields@) == 0,
    {
        let mut f: Vec<Field> = Vec::new();
        f.push(bytes("payload", None, true));
        proof {
            let fs = f@;
            reveal_with_fuel(fixed_bits, 2);
            assert forall|k: int| 0 <= k < 1 implies prim_ok(#[trigger] fs[k].ty) && elem_ok(fs[k].ty) && forall|a: int|
                0 <= a < arg_types(fs[k]).len() ==> prim_ok(#[trigger] arg_types(fs[k])[a]) by {
                {}
            }
            assert(fixed_bits(fs, 1) == 0);
        }
        Packet { base_name: String::from_str("Bulk"), fields: f }
    }
}

/// An isochronous transfer.
#[derive(Clone, Debug)]
pub struct Isochr {
    pub payload: Vec<u8>,
}

impl Isochr {
    /// The shape of each field of this layout: its type, its length
    /// expression and whether it is the payload.
    pub open spec fn fields_spec(fs: Seq<Field>) -> bool {
        &&& fs.len() == 1
        &&& (fs[0].ty matches Type::Vector(inner) && (*inner matches Type::Primitive(_, w, _) && w == 8))
        &&& fs[0].packet_length is None
        &&& fs[0].is_payload
    }

    /// The wire layout of this packet, field by field.
    pub fn schema() -> (r: Packet)
        ensures
            r.fields@.len() == 1,
            Self::fields_spec(r.fields@),
            layout_ok(r.fields@),
            min_size(r.fields@) == 0,
    {
        let mut f: Vec<Field> = Vec::new();
        f.push(bytes("payload", None, true));
        proof {
            let fs = f@;
            reveal_with_fuel(fixed_bits, 2);
            assert forall|k: int| 0 <= k < 1 implies prim_ok(#[trigger] fs[k].ty) && elem_ok(fs[k].ty) && forall|a: int|
                0 <= a < arg_types(fs[k]).len() ==> prim_ok(#[trigger] arg_types(fs[k])[a]) by {
                {}
            }
            assert(fixed_bits(fs, 1) == 0);
        }
        Packet { base_name: String::from_str("Isochr"), fields: f }
    }
}

/// An interrupt transfer.
#[derive(Clone, Debug)]
pub struct Interr {
    pub payload: Vec<u8>,
}

impl Interr {
    /// The shape of each field of this layout: its type, its length
    /// expression and whether it is the payload.
    pub open spec fn fields_spec(fs: Seq<Field>) -> bool {
        &&& fs.len() == 1
        &&& (fs[0].ty matches Type::Vector(inner) && (*inner matches Type::Primitive(_, w, _) && w == 8))
        &&& fs[0].packet_length is None
        &&& fs[0].is_payload
    }

    /// The wire layout of this packet, field by field.
    pub fn schema() -> (r: Packet)
        ensures
            r.fields@.len() == 1,
            Self::fields_spec(r.fields@),
            layout_ok(r.fields@),
            min_size(r.fields@) == 0,
    {
        let mut f: Vec<Field> = Vec::new();
        f.push(bytes("payload", None, true));
        proof {
            let fs = f@;
            reveal_with_fuel(fixed_bits, 2);
            assert forall|k: int| 0 <= k < 1 implies prim_ok(#[trigger] fs[k].ty) && elem_ok(fs[k].ty) && forall|a: int|
                0 <= a < arg_types(fs[k]).len() ==> prim_ok(#[trigger] arg_types(fs[k])[a]) by {
                {}
            }
            assert(fixed_bits(fs, 1) == 0);
        }
        Packet { base_name: String::from_str("Interr"), fields: f }
    }
}

/// A USB transfer in a buffer, by type.
#[derive(Debug)]
pub enum Transfer<'pkt> {
    Ctl(PacketView<'pkt>),
    Bulk(PacketView<'pkt>),
    Isochr(PacketView<'pkt>),
    Interr(PacketView<'pkt>),
}

impl<'pkt> Transfer<'pkt> {
    /// Reads `src` as the first transfer type whose layout it fits; every
    /// type is payload only, so any buffer reads as a control transfer.
    pub fn new(src: &'pkt [u8]) -> (r: Option<Transfer<'pkt>>)
        ensures
            r matches Some(t) && t is Ctl,
    {
        if let Some(v) = view_of(Ctl::schema(), src) {
            return Some(Transfer::Ctl(v));
        }
        if let Some(v) = view_of(Bulk::schema(), src) {
            return Some(Transfer::Bulk(v));
        }
        if let Some(v) = view_of(Isochr::schema(), src) {
            return Some(Transfer::Isochr(v));
        }
        if let Some(v) = view_of(Interr::schema(), src) {
            return Some(Transfer::Interr(v));
        }
        None
    }
}

} // verus!
