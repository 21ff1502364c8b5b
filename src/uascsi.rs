//! USB Attached SCSI information units.
use crate::bits::Endianness;
use crate::expr::Expr;
use crate::layout::{arg_types, args_width, elem_ok, fixed_bits, layout_ok, min_size, prim_ok, payload_of};
use crate::schema::{Field, Packet};
use crate::schemas::{bytes, lit, prim, prim_type, semantic, small, view_of};
use crate::types::Type;
use crate::view::{get_payload, PacketView};
use vstd::prelude::*;
use vstd::string::*;

verus! {

/// Response information: three bytes.
#[derive(Clone, Copy, Debug)]
pub struct Info(pub (u8, u8, u8));

impl Info {
    pub fn new(a: u8, b: u8, c: u8) -> (r: Info)
        ensures
            r.0 == (a, b, c),
    {
        Info((a, b, c))
    }

    /// The primitive values that back this type.
    pub fn to_primitive_values(&self) -> (r: (u8, u8, u8))
        ensures
            r == self.0,
    {
        let tup = &self.0;
        (tup.0, tup.1, tup.2)
    }
}

/// A task management information unit.
#[derive(Debug)]
pub struct TaskManagement {
    pub iu_id: u8,
    pub reserved: u8,
    pub tag: u16,
    pub reserved2: u8,
    pub task_to_be_managed: u16,
    pub logical_unit_number: Vec<u8>,
    pub payload: Vec<u8>,
}

impl TaskManagement {
    /// The shape of each field of this layout: its type, its length
    /// expression and whether it is the payload.
    pub open spec fn fields_spec(fs: Seq<Field>) -> bool {
        &&& fs.len() == 7
        &&& (fs[0].ty matches Type::Primitive(_, w, e) && w == 8 && e == Endianness::Big)
        &&& fs[0].packet_length is None
        &&& !fs[0].is_payload
        &&& (fs[1].ty matches Type::Primitive(_, w, e) && w == 8 && e == Endianness::Big)
        &&& fs[1].packet_length is None
        &&& !fs[1].is_payload
        &&& (fs[2].ty matches Type::Primitive(_, w, e) && w == 16 && e == Endianness::Big)
        &&& fs[2].packet_length is None
        &&& !fs[2].is_payload
        &&& (fs[3].ty matches Type::Primitive(_, w, e) && w == 1 && e == Endianness::Big)
        &&& fs[3].packet_length is None
        &&& !fs[3].is_payload
        &&& (fs[4].ty matches Type::Primitive(_, w, e) && w == 16 && e == Endianness::Big)
        &&& fs[4].packet_length is None
        &&& !fs[4].is_payload
        &&& (fs[5].ty matches Type::Vector(inner) && (*inner matches Type::Primitive(_, w, _) && w == 8))
        &&& fs[5].packet_length == Some(Expr::Lit(8))
        &&& !fs[5].is_payload
        &&& (fs[6].ty matches Type::Vector(inner) && (*inner matches Type::Primitive(_, w, _) && w == 8))
        &&& fs[6].packet_length is None
        &&& fs[6].is_payload
    }

    /// The wire layout of this packet, field by field.
    pub fn schema() -> (r: Packet)
        ensures
            r.fields@.len() == 7,
            Self::fields_spec(r.fields@),
            layout_ok(r.fields@),
            min_size(r.fields@) == 7,
    {
        let mut f: Vec<Field> = Vec::new();
        f.push(small("iu_id", "u8", 8));
        f.push(small("reserved", "u8", 8));
        f.push(prim("tag", "u16be", 16, Endianness::Big));
        f.push(small("reserved2", "u1", 1));
        f.push(prim("task_to_be_managed", "u16be", 16, Endianness::Big));
        f.push(bytes("logical_unit_number", Some(lit(8)), false));
        f.push(bytes("payload", None, true));
        proof {
            let fs = f@;
            reveal_with_fuel(fixed_bits, 8);
            assert forall|k: int| 0 <= k < 7 implies prim_ok(#[trigger] fs[k].ty) && elem_ok(fs[k].ty) && forall|a: int|
                0 <= a < arg_types(fs[k]).len() ==> prim_ok(#[trigger] arg_types(fs[k])[a]) by {
                if k == 0 {} else if k == 1 {} else if k == 2 {} else if k == 3 {} else if k == 4 {} else if k == 5 {} else {}
            }
            assert(fixed_bits(fs, 7) == 49);
        }
        Packet { base_name: String::from_str("TaskManagement"), fields: f }
    }
}

/// A command information unit.
#[derive(Debug)]
pub struct Command {
    pub iu_id: u8,
    pub reserved: u8,
    pub tag: u16,
    pub reserved2: u8,
    pub command_priority: u8,
    pub task_attribute: u8,
    pub ras: u8,
    pub reserved3: u8,
    pub lun: u16,
    pub payload: Vec<u8>,
}

impl Command {
    /// The shape of each field of this layout: its type, its length
    /// expression and whether it is the payload.
    pub open spec fn fields_spec(fs: Seq<Field>) -> bool {
        &&& fs.len() == 10
        &&& (fs[0].ty matches Type::Primitive(_, w, e) && w == 8 && e == Endianness::Big)
        &&& fs[0].packet_length is None
        &&& !fs[0].is_payload
        &&& (fs[1].ty matches Type::Primitive(_, w, e) && w == 8 && e == Endianness::Big)
        &&& fs[1].packet_length is None
        &&& !fs[1].is_payload
        &&& (fs[2].ty matches Type::Primitive(_, w, e) && w == 16 && e == Endianness::Big)
        &&& fs[2].packet_length is None
        &&& !fs[2].is_payload
        &&& (fs[3].ty matches Type::Primitive(_, w, e) && w == 1 && e == Endianness::Big)
        &&& fs[3].packet_length is None
        &&& !fs[3].is_payload
        &&& (fs[4].ty matches Type::Primitive(_, w, e) && w == 4 && e == Endianness::Big)
        &&& fs[4].packet_length is None
        &&& !fs[4].is_payload
        &&& (fs[5].ty matches Type::Primitive(_, w, e) && w == 3 && e == Endianness::Big)
        &&& fs[5].packet_length is None
        &&& !fs[5].is_payload
        &&& (fs[6].ty matches Type::Primitive(_, w, e) && w == 8 && e == Endianness::Big)
        &&& fs[6].packet_length is None
        &&& !fs[6].is_payload
        &&& (fs[7].ty matches Type::Primitive(_, w, e) && w == 8 && e == Endianness::Big)
        &&& fs[7].packet_length is None
        &&& !fs[7].is_payload
        &&& (fs[8].ty matches Type::Primitive(_, w, e) && w == 16 && e == Endianness::Big)
        &&& fs[8].packet_length is None
        &&& !fs[8].is_payload
        &&& (fs[9].ty matches Type::Vector(inner) && (*inner matches Type::Primitive(_, w, _) && w == 8))
        &&& fs[9].packet_length is None
        &&& fs[9].is_payload
    }

    /// The wire layout of this packet, field by field.
    pub fn schema() -> (r: Packet)
        ensures
            r.fields@.len() == 10,
            Self::fields_spec(r.fields@),
            layout_ok(r.fields@),
            min_size(r.fields@) == 9,
    {
        let mut f: Vec<Field> = Vec::new();
        f.push(small("iu_id", "u8", 8));
        f.push(small("reserved", "u8", 8));
        f.push(prim("tag", "u16be", 16, Endianness::Big));
        f.push(small("reserved2", "u1", 1));
        f.push(small("command_priority", "u4", 4));
        f.push(small("task_attribute", "u3", 3));
        f.push(small("ras", "u8", 8));
        f.push(small("reserved3", "u8", 8));
        f.push(prim("lun", "u16be", 16, Endianness::Big));
        f.push(bytes("payload", None, true));
        proof {
            let fs = f@;
            reveal_with_fuel(fixed_bits, 11);
            assert forall|k: int| 0 <= k < 10 implies prim_ok(#[trigger] fs[k].ty) && elem_ok(fs[k].ty) && forall|a: int|
                0 <= a < arg_types(fs[k]).len() ==> prim_ok(#[trigger] arg_types(fs[k])[a]) by {
                if k == 0 {} else if k == 1 {} else if k == 2 {} else if k == 3 {} else if k == 4 {} else if k == 5 {} else if k == 6 {} else if k == 7 {} else if k == 8 {} else {}
            }
            assert(fixed_bits(fs, 10) == 72);
        }
        Packet { base_name: String::from_str("Command"), fields: f }
    }
}

/// A sense information unit.
#[derive(Debug)]
pub struct Sense {
    pub iu_id: u8,
    pub reserved: u8,
    pub tag: u16,
    pub status_qualifier: u16,
    pub status: u8,
    pub reserved2: u8,
    pub length: u8,
    pub sense_data: Vec<u8>,
}

impl Sense {
    /// The shape of each field of this layout: its type, its length
    /// expression and whether it is the payload.
    pub open spec fn fields_spec(fs: Seq<Field>) -> bool {
        &&& fs.len() == 8
        &&& (fs[0].ty matches Type::Primitive(_, w, e) && w == 8 && e == Endianness::Big)
        &&& fs[0].packet_length is None
        &&& !fs[0].is_payload
        &&& (fs[1].ty matches Type::Primitive(_, w, e) && w == 8 && e == Endianness::Big)
        &&& fs[1].packet_length is None
        &&& !fs[1].is_payload
        &&& (fs[2].ty matches Type::Primitive(_, w, e) && w == 16 && e == Endianness::Big)
        &&& fs[2].packet_length is None
        &&& !fs[2].is_payload
        &&& (fs[3].ty matches Type::Primitive(_, w, e) && w == 16 && e == Endianness::Big)
        &&& fs[3].packet_length is None
        &&& !fs[3].is_payload
        &&& (fs[4].ty matches Type::Primitive(_, w, e) && w == 8 && e == Endianness::Big)
        &&& fs[4].packet_length is None
        &&& !fs[4].is_payload
        &&& (fs[5].ty matches Type::Primitive(_, w, e) && w == 8 && e == Endianness::Big)
        &&& fs[5].packet_length is None
        &&& !fs[5].is_payload
        &&& (fs[6].ty matches Type::Primitive(_, w, e) && w == 8 && e == Endianness::Big)
        &&& fs[6].packet_length is None
        &&& !fs[6].is_payload
        &&& (fs[7].ty matches Type::Vector(inner) && (*inner matches Type::Primitive(_, w, _) && w == 8))
        &&& fs[7].packet_length is None
        &&& fs[7].is_payload
    }

    /// The wire layout of this packet, field by field.
    pub fn schema() -> (r: Packet)
        ensures
            r.fields@.len() == 8,
            Self::fields_spec(r.fields@),
            layout_ok(r.fields@),
            min_size(r.fields@) == 9,
    {
        let mut f: Vec<Field> = Vec::new();
        f.push(small("iu_id", "u8", 8));
        f.push(small("reserved", "u8", 8));
        f.push(prim("tag", "u16be", 16, Endianness::Big));
        f.push(prim("status_qualifier", "u16be", 16, Endianness::Big));
        f.push(small("status", "u8", 8));
        f.push(small("reserved2", "u8", 8));
        f.push(small("length", "u8", 8));
        f.push(bytes("sense_data", None, true));
        proof {
            let fs = f@;
            reveal_with_fuel(fixed_bits, 9);
            assert forall|k: int| 0 <= k < 8 implies prim_ok(#[trigger] fs[k].ty) && elem_ok(fs[k].ty) && forall|a: int|
                0 <= a < arg_types(fs[k]).len() ==> prim_ok(#[trigger] arg_types(fs[k])[a]) by {
                if k == 0 {} else if k == 1 {} else if k == 2 {} else if k == 3 {} else if k == 4 {} else if k == 5 {} else if k == 6 {} else {}
            }
            assert(fixed_bits(fs, 8) == 72);
        }
        Packet { base_name: String::from_str("Sense"), fields: f }
    }
}

/// A read-ready information unit.
#[derive(Debug)]
pub struct ReadReady {
    pub iu_id: u8,
    pub rsvd: u8,
    pub tag: u16,
    pub payload: Vec<u8>,
}

impl ReadReady {
    /// The shape of each field of this layout: its type, its length
    /// expression and whether it is the payload.
    pub open spec fn fields_spec(fs: Seq<Field>) -> bool {
        &&& fs.len() == 4
        &&& (fs[0].ty matches Type::Primitive(_, w, e) && w == 8 && e == Endianness::Big)
        &&& fs[0].packet_length is None
        &&& !fs[0].is_payload
        &&& (fs[1].ty matches Type::Primitive(_, w, e) && w == 8 && e == Endianness::Big)
        &&& fs[1].packet_length is None
        &&& !fs[1].is_payload
        &&& (fs[2].ty matches Type::Primitive(_, w, e) && w == 16 && e == Endianness::Big)
        &&& fs[2].packet_length is None
        &&& !fs[2].is_payload
        &&& (fs[3].ty matches Type::Vector(inner) && (*inner matches Type::Primitive(_, w, _) && w == 8))
        &&& fs[3].packet_length is None
        &&& fs[3].is_payload
    }

    /// The wire layout of this packet, field by field.
    pub fn schema() -> (r: Packet)
        ensures
            r.fields@.len() == 4,
            Self::fields_spec(r.fields@),
            layout_ok(r.fields@),
            min_size(r.fields@) == 4,
    {
        let mut f: Vec<Field> = Vec::new();
        f.push(small("iu_id", "u8", 8));
        f.push(small("rsvd", "u8", 8));
        f.push(prim("tag", "u16be", 16, Endianness::Big));
        f.push(bytes("payload", None, true));
        proof {
            let fs = f@;
            reveal_with_fuel(fixed_bits, 5);
            assert forall|k: int| 0 <= k < 4 implies prim_ok(#[trigger] fs[k].ty) && elem_ok(fs[k].ty) && forall|a: int|
                0 <= a < arg_types(fs[k]).len() ==> prim_ok(#[trigger] arg_types(fs[k])[a]) by {
                if k == 0 {} else if k == 1 {} else if k == 2 {} else {}
            }
            assert(fixed_bits(fs, 4) == 32);
        }
        Packet { base_name: String::from_str("ReadReady"), fields: f }
    }
}

/// A write-ready information unit.
#[derive(Debug)]
pub struct WriteReady {
    pub iu_id: u8,
    pub rsvd: u8,
    pub tag: u16,
    pub payload: Vec<u8>,
}

impl WriteReady {
    /// The shape of each field of this layout: its type, its length
    /// expression and whether it is the payload.
    pub open spec fn fields_spec(fs: Seq<Field>) -> bool {
        &&& fs.len() == 4
        &&& (fs[0].ty matches Type::Primitive(_, w, e) && w == 8 && e == Endianness::Big)
        &&& fs[0].packet_length is None
        &&& !fs[0].is_payload
        &&& (fs[1].ty matches Type::Primitive(_, w, e) && w == 8 && e == Endianness::Big)
        &&& fs[1].packet_length is None
        &&& !fs[1].is_payload
        &&& (fs[2].ty matches Type::Primitive(_, w, e) && w == 16 && e == Endianness::Big)
        &&& fs[2].packet_length is None
        &&& !fs[2].is_payload
        &&& (fs[3].ty matches Type::Vector(inner) && (*inner matches Type::Primitive(_, w, _) && w == 8))
        &&& fs[3].packet_length is None
        &&& fs[3].is_payload
    }

    /// The wire layout of this packet, field by field.
    pub fn schema() -> (r: Packet)
        ensures
            r.fields@.len() == 4,
            Self::fields_spec(r.fields@),
            layout_ok(r.fields@),
            min_size(r.fields@) == 4,
    {
        let mut f: Vec<Field> = Vec::new();
        f.push(small("iu_id", "u8", 8));
        f.push(small("rsvd", "u8", 8));
        f.push(prim("tag", "u16be", 16, Endianness::Big));
        f.push(bytes("payload", None, true));
        proof {
            let fs = f@;
            reveal_with_fuel(fixed_bits, 5);
            assert forall|k: int| 0 <= k < 4 implies prim_ok(#[trigger] fs[k].ty) && elem_ok(fs[k].ty) && forall|a: int|
                0 <= a < arg_types(fs[k]).len() ==> prim_ok(#[trigger] arg_types(fs[k])[a]) by {
                if k == 0 {} else if k == 1 {} else if k == 2 {} else {}
            }
            assert(fixed_bits(fs, 4) == 32);
        }
        Packet { base_name: String::from_str("WriteReady"), fields: f }
    }
}

/// A response information unit.
#[derive(Debug)]
pub struct Response {
    pub iu_id: u8,
    pub reserved: u8,
    pub tag: u16,
    pub response_information: Info,
    pub response_code: u8,
    pub payload: Vec<u8>,
}

impl Response {
    /// The shape of each field of this layout: its type, its length
    /// expression and whether it is the payload.
    pub open spec fn fields_spec(fs: Seq<Field>) -> bool {
        &&& fs.len() == 6
        &&& (fs[0].ty matches Type::Primitive(_, w, e) && w == 8 && e == Endianness::Big)
        &&& fs[0].packet_length is None
        &&& !fs[0].is_payload
        &&& (fs[1].ty matches Type::Primitive(_, w, e) && w == 8 && e == Endianness::Big)
        &&& fs[1].packet_length is None
        &&& !fs[1].is_payload
        &&& (fs[2].ty matches Type::Primitive(_, w, e) && w == 16 && e == Endianness::Big)
        &&& fs[2].packet_length is None
        &&& !fs[2].is_payload
        &&& fs[3].ty is Misc
        &&& arg_types(fs[3]).len() == 3
        &&& (arg_types(fs[3])[0] matches Type::Primitive(_, w, e) && w == 8 && e == Endianness::Big)
        &&& (arg_types(fs[3])[1] matches Type::Primitive(_, w, e) && w == 8 && e == Endianness::Big)
        &&& (arg_types(fs[3])[2] matches Type::Primitive(_, w, e) && w == 8 && e == Endianness::Big)
        &&& fs[3].packet_length is None
        &&& !fs[3].is_payload
        &&& (fs[4].ty matches Type::Primitive(_, w, e) && w == 8 && e == Endianness::Big)
        &&& fs[4].packet_length is None
        &&& !fs[4].is_payload
        &&& (fs[5].ty matches Type::Vector(inner) && (*inner matches Type::Primitive(_, w, _) && w == 8))
        &&& fs[5].packet_length is None
        &&& fs[5].is_payload
    }

    /// The wire layout of this packet, field by field.
    pub fn schema() -> (r: Packet)
        ensures
            r.fields@.len() == 6,
            Self::fields_spec(r.fields@),
            layout_ok(r.fields@),
            min_size(r.fields@) == 8,
    {
        let mut f: Vec<Field> = Vec::new();
        f.push(small("iu_id", "u8", 8));
        f.push(small("reserved", "u8", 8));
        f.push(prim("tag", "u16be", 16, Endianness::Big));
        {
            let mut a: Vec<Type> = Vec::new();
            a.push(prim_type("u8", 8, Endianness::Big));
            a.push(prim_type("u8", 8, Endianness::Big));
            a.push(prim_type("u8", 8, Endianness::Big));
            f.push(semantic("response_information", "Info", a));
        }
        f.push(small("response_code", "u8", 8));
        f.push(bytes("payload", None, true));
        proof {
            let fs = f@;
            reveal_with_fuel(fixed_bits, 7);
            reveal_with_fuel(args_width, 4);
            assert forall|k: int| 0 <= k < 6 implies prim_ok(#[trigger] fs[k].ty) && elem_ok(fs[k].ty) && forall|a: int|
                0 <= a < arg_types(fs[k]).len() ==> prim_ok(#[trigger] arg_types(fs[k])[a]) by {
                if k == 0 {} else if k == 1 {} else if k == 2 {} else if k == 3 {} else if k == 4 {} else {}
            }
            assert(fixed_bits(fs, 6) == 64);
        }
        Packet { base_name: String::from_str("Response"), fields: f }
    }
}

/// A UAS information unit in a buffer, by the kind its first byte names.
#[derive(Debug)]
pub enum UASPacket<'pkt> {
    Cmd(PacketView<'pkt>),
    Sns(PacketView<'pkt>),
    Rsp(PacketView<'pkt>),
    TskMng(PacketView<'pkt>),
    RdRdy(PacketView<'pkt>),
    WrRdy(PacketView<'pkt>),
}

impl<'pkt> UASPacket<'pkt> {
    /// The view of the unit's bytes.
    pub open spec fn view(&self) -> PacketView<'pkt> {
        match self {
            UASPacket::Cmd(v) => *v,
            UASPacket::Sns(v) => *v,
            UASPacket::Rsp(v) => *v,
            UASPacket::TskMng(v) => *v,
            UASPacket::RdRdy(v) => *v,
            UASPacket::WrRdy(v) => *v,
        }
    }

    /// The kind that first byte `b` names, by its position in the enum.
    pub open spec fn kind_of(b: u8) -> Option<nat> {
        if b == 0x01 {
            Some(0)
        } else if b == 0x03 {
            Some(1)
        } else if b == 0x04 {
            Some(2)
        } else if b == 0x05 {
            Some(3)
        } else if b == 0x06 {
            Some(4)
        } else if b == 0x07 {
            Some(5)
        } else {
            None
        }
    }

    /// The view holds the layout of the unit's kind.
    pub open spec fn shape_ok(&self) -> bool {
        match self {
            UASPacket::Cmd(v) => Command::fields_spec(v.fields()),
            UASPacket::Sns(v) => Sense::fields_spec(v.fields()),
            UASPacket::Rsp(v) => Response::fields_spec(v.fields()),
            UASPacket::TskMng(v) => TaskManagement::fields_spec(v.fields()),
            UASPacket::RdRdy(v) => ReadReady::fields_spec(v.fields()),
            UASPacket::WrRdy(v) => WriteReady::fields_spec(v.fields()),
        }
    }

    pub open spec fn kind(&self) -> nat {
        match self {
            UASPacket::Cmd(_) => 0,
            UASPacket::Sns(_) => 1,
            UASPacket::Rsp(_) => 2,
            UASPacket::TskMng(_) => 3,
            UASPacket::RdRdy(_) => 4,
            UASPacket::WrRdy(_) => 5,
        }
    }

    /// Size of the fixed part of each kind, by its position in the enum.
    pub open spec fn kind_min(k: nat) -> nat {
        if k == 0 {
            9
        } else if k == 1 {
            9
        } else if k == 2 {
            8
        } else if k == 3 {
            7
        } else if k == 4 {
            4
        } else if k == 5 {
            4
        } else {
            0
        }
    }

    /// Reads the unit in `src`: `None` when `src` is empty, its first byte
    /// names no kind, or it is shorter than that kind's fixed part.
    pub fn new(src: &'pkt [u8]) -> (r: Option<UASPacket<'pkt>>)
        ensures
            r is Some <==> src@.len() > 0 && Self::kind_of(src@[0]) is Some && src@.len() >= Self::kind_min(
                Self::kind_of(src@[0])->0,
            ),
            r matches Some(p) ==> src@.len() > 0 && Self::kind_of(src@[0]) == Some(p.kind()) && p.view().layout.wf() && p.shape_ok()
                && p.view().buf@ == src@,
    {
        if src.len() == 0 {
            return None;
        }
        let b = src[0];
        if b == 0x01 {
            match view_of(Command::schema(), src) {
                Some(v) => Some(UASPacket::Cmd(v)),
                None => None,
            }
        } else if b == 0x03 {
            match view_of(Sense::schema(), src) {
                Some(v) => Some(UASPacket::Sns(v)),
                None => None,
            }
        } else if b == 0x04 {
            match view_of(Response::schema(), src) {
                Some(v) => Some(UASPacket::Rsp(v)),
                None => None,
            }
        } else if b == 0x05 {
            match view_of(TaskManagement::schema(), src) {
                Some(v) => Some(UASPacket::TskMng(v)),
                None => None,
            }
        } else if b == 0x06 {
            match view_of(ReadReady::schema(), src) {
                Some(v) => Some(UASPacket::RdRdy(v)),
                None => None,
            }
        } else if b == 0x07 {
            match view_of(WriteReady::schema(), src) {
                Some(v) => Some(UASPacket::WrRdy(v)),
                None => None,
            }
        } else {
            None
        }
    }

    pub fn is_command(&self) -> (r: bool)
        ensures
            r == (self is Cmd),
    {
        matches!(self, UASPacket::Cmd(_))
    }

    pub fn is_read_ready(&self) -> (r: bool)
        ensures
            r == (self is RdRdy),
    {
        matches!(self, UASPacket::RdRdy(_))
    }

    /// The unit's payload.
    pub fn payload(&self) -> (r: &[u8])
        requires
            self.view().layout.wf(),
        ensures
            r@ == payload_of(self.view().fields(), self.view().calls(), self.view().buf@),
    {
        match self {
            UASPacket::Cmd(v) => get_payload(&v.layout, v.buf),
            UASPacket::Sns(v) => get_payload(&v.layout, v.buf),
            UASPacket::Rsp(v) => get_payload(&v.layout, v.buf),
            UASPacket::TskMng(v) => get_payload(&v.layout, v.buf),
            UASPacket::RdRdy(v) => get_payload(&v.layout, v.buf),
            UASPacket::WrRdy(v) => get_payload(&v.layout, v.buf),
        }
    }
}

} // verus!
