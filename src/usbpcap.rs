//! USB packets as captured by USBPcap (link type 249).
use crate::bits::Endianness;
use crate::layout::{arg_types, elem_ok, field_pos, fixed_bits, layout_ok, min_size, payload_of, prim_ok};
use crate::expr::Expr;
use crate::schema::{Field, Packet};
use crate::types::Type;
use crate::schemas::{bytes, lit, minus, prim, val, view_of_mut};
use crate::view::{declared_len, region_of, store_bytes, store_value, value_of, MutablePacketView};
use vstd::prelude::*;
use vstd::slice::slice_to_vec;
use vstd::string::*;

verus! {

/// A USBPcap header, the extra header bytes it announces, and the data.
#[derive(Debug)]
pub struct UsbPcap {
    pub header_length: u16,
    pub irp_id: u64,
    pub status: u32,
    pub function: u16,
    pub reserved_info: u8,
    pub pdo_to_fdo: u8,
    pub bus: u16,
    pub device: u16,
    pub direction: u8,
    pub reserved_endpoint: u8,
    pub endpoint: u8,
    pub transfer: u8,
    pub data_length: u32,
    pub header_payload: Vec<u8>,
    pub payload: Vec<u8>,
}

impl UsbPcap {
    /// The shape of each field of this layout: its type, its length
    /// expression and whether it is the payload.
    pub open spec fn fields_spec(fs: Seq<Field>) -> bool {
        &&& fs.len() == 15
        &&& (fs[0].ty matches Type::Primitive(_, w, e) && w == 16 && e == Endianness::Little)
        &&& fs[0].packet_length is None
        &&& !fs[0].is_payload
        &&& (fs[1].ty matches Type::Primitive(_, w, e) && w == 64 && e == Endianness::Little)
        &&& fs[1].packet_length is None
        &&& !fs[1].is_payload
        &&& (fs[2].ty matches Type::Primitive(_, w, e) && w == 32 && e == Endianness::Little)
        &&& fs[2].packet_length is None
        &&& !fs[2].is_payload
        &&& (fs[3].ty matches Type::Primitive(_, w, e) && w == 16 && e == Endianness::Little)
        &&& fs[3].packet_length is None
        &&& !fs[3].is_payload
        &&& (fs[4].ty matches Type::Primitive(_, w, e) && w == 7 && e == Endianness::Big)
        &&& fs[4].packet_length is None
        &&& !fs[4].is_payload
        &&& (fs[5].ty matches Type::Primitive(_, w, e) && w == 1 && e == Endianness::Big)
        &&& fs[5].packet_length is None
        &&& !fs[5].is_payload
        &&& (fs[6].ty matches Type::Primitive(_, w, e) && w == 16 && e == Endianness::Little)
        &&& fs[6].packet_length is None
        &&& !fs[6].is_payload
        &&& (fs[7].ty matches Type::Primitive(_, w, e) && w == 16 && e == Endianness::Little)
        &&& fs[7].packet_length is None
        &&& !fs[7].is_payload
        &&& (fs[8].ty matches Type::Primitive(_, w, e) && w == 1 && e == Endianness::Big)
        &&& fs[8].packet_length is None
        &&& !fs[8].is_payload
        &&& (fs[9].ty matches Type::Primitive(_, w, e) && w == 3 && e == Endianness::Big)
        &&& fs[9].packet_length is None
        &&& !fs[9].is_payload
        &&& (fs[10].ty matches Type::Primitive(_, w, e) && w == 4 && e == Endianness::Big)
        &&& fs[10].packet_length is None
        &&& !fs[10].is_payload
        &&& (fs[11].ty matches Type::Primitive(_, w, e) && w == 8 && e == Endianness::Big)
        &&& fs[11].packet_length is None
        &&& !fs[11].is_payload
        &&& (fs[12].ty matches Type::Primitive(_, w, e) && w == 32 && e == Endianness::Little)
        &&& fs[12].packet_length is None
        &&& !fs[12].is_payload
        &&& (fs[13].ty matches Type::Vector(inner) && (*inner matches Type::Primitive(_, w, _) && w == 8))
        &&& fs[13].packet_length == Some(Expr::Sub(Box::new(Expr::Field(0)), Box::new(Expr::Lit(27))))
        &&& !fs[13].is_payload
        &&& (fs[14].ty matches Type::Vector(inner) && (*inner matches Type::Primitive(_, w, _) && w == 8))
        &&& fs[14].packet_length == Some(Expr::Field(12))
        &&& fs[14].is_payload
    }

    /// The USBPcap layout: a 27-byte fixed header in little-endian order,
    /// `header_length - 27` further header bytes, then `data_length` bytes
    /// of payload.
    pub fn schema() -> (r: Packet)
        ensures
            r.fields@.len() == 15,
            r.fields@[13].ty is Vector,
            r.fields@[14].ty is Vector,
            Self::fields_spec(r.fields@),
            layout_ok(r.fields@),
            min_size(r.fields@) == 27,
    {
        let mut f: Vec<Field> = Vec::new();
        f.push(prim("header_length", "u16le", 16, Endianness::Little));
        f.push(prim("irp_id", "u64le", 64, Endianness::Little));
        f.push(prim("status", "u32le", 32, Endianness::Little));
        f.push(prim("function", "u16le", 16, Endianness::Little));
        f.push(prim("reserved_info", "u7", 7, Endianness::Big));
        f.push(prim("pdo_to_fdo", "u1", 1, Endianness::Big));
        f.push(prim("bus", "u16le", 16, Endianness::Little));
        f.push(prim("device", "u16le", 16, Endianness::Little));
        f.push(prim("direction", "u1", 1, Endianness::Big));
        f.push(prim("reserved_endpoint", "u3", 3, Endianness::Big));
        f.push(prim("endpoint", "u4", 4, Endianness::Big));
        f.push(prim("transfer", "u8", 8, Endianness::Big));
        f.push(prim("data_length", "u32le", 32, Endianness::Little));
        f.push(bytes("header_payload", Some(minus(val(0), lit(27))), false));
        f.push(bytes("payload", Some(val(12)), true));
        proof {
            let fs = f@;
            reveal_with_fuel(fixed_bits, 16);
            assert forall|k: int| 0 <= k < 15 implies prim_ok(#[trigger] fs[k].ty) && elem_ok(fs[k].ty) && forall|a: int|
                0 <= a < arg_types(fs[k]).len() ==> prim_ok(#[trigger] arg_types(fs[k])[a]) by {
                if k == 0 {} else if k == 1 {} else if k == 2 {} else if k == 3 {} else if k == 4 {} else if k == 5 {} else if k == 6 {} else if k == 7 {} else if k == 8 {} else if k == 9 {} else if k == 10 {} else if k == 11 {} else if k == 12 {} else if k == 13 {} else {}
            }
            assert(fixed_bits(fs, 15) == 216);
        }
        Packet { base_name: String::from_str("UsbPcap"), fields: f }
    }
}

/// A read-write view of a USBPcap packet.
pub struct MutableUsbPcapPacket<'p> {
    pub view: MutablePacketView<'p>,
}

impl<'p> MutableUsbPcapPacket<'p> {
    pub open spec fn wf(&self) -> bool {
        &&& self.view.layout.wf()
        &&& self.view.fields().len() == 15
        &&& self.view.fields()[13].ty is Vector
        &&& self.view.fields()[14].ty is Vector
        &&& UsbPcap::fields_spec(self.view.fields())
    }

    /// A view of `buf`, when it holds the 27 bytes of the fixed header.
    pub fn new(buf: &'p mut [u8]) -> (r: Option<MutableUsbPcapPacket<'p>>)
        ensures
            r is Some <==> old(buf)@.len() >= 27,
            r matches Some(p) ==> p.wf() && p.view.bytes() == old(buf)@,
    {
        match view_of_mut(UsbPcap::schema(), buf) {
            Some(view) => Some(MutableUsbPcapPacket { view }),
            None => None,
        }
    }

    pub fn payload(&self) -> (r: &[u8])
        requires
            self.wf(),
        ensures
            r@ == payload_of(self.view.fields(), self.view.calls(), self.view.bytes()),
    {
        self.view.payload()
    }

    pub fn get_header_length(&self) -> (r: u16)
        requires
            self.wf(),
        ensures
            r == value_of(self.view.fields(), self.view.calls(), self.view.bytes(), 0) as u16,
    {
        self.view.get(0) as u16
    }

    pub fn set_header_length(&mut self, v: u16)
        requires
            old(self).wf(),
        ensures
            final(self).wf(),
            final(self).view.bytes() == store_value(old(self).view.fields(), old(self).view.calls(), old(self).view.bytes(), 0, v as u64),
    {
        self.view.set(0, v as u64)
    }

    pub fn get_irp_id(&self) -> (r: u64)
        requires
            self.wf(),
        ensures
            r == value_of(self.view.fields(), self.view.calls(), self.view.bytes(), 1) as u64,
    {
        self.view.get(1) as u64
    }

    pub fn set_irp_id(&mut self, v: u64)
        requires
            old(self).wf(),
        ensures
            final(self).wf(),
            final(self).view.bytes() == store_value(old(self).view.fields(), old(self).view.calls(), old(self).view.bytes(), 1, v as u64),
    {
        self.view.set(1, v as u64)
    }

    pub fn get_status(&self) -> (r: u32)
        requires
            self.wf(),
        ensures
            r == value_of(self.view.fields(), self.view.calls(), self.view.bytes(), 2) as u32,
    {
        self.view.get(2) as u32
    }

    pub fn set_status(&mut self, v: u32)
        requires
            old(self).wf(),
        ensures
            final(self).wf(),
            final(self).view.bytes() == store_value(old(self).view.fields(), old(self).view.calls(), old(self).view.bytes(), 2, v as u64),
    {
        self.view.set(2, v as u64)
    }

    pub fn get_function(&self) -> (r: u16)
        requires
            self.wf(),
        ensures
            r == value_of(self.view.fields(), self.view.calls(), self.view.bytes(), 3) as u16,
    {
        self.view.get(3) as u16
    }

    pub fn set_function(&mut self, v: u16)
        requires
            old(self).wf(),
        ensures
            final(self).wf(),
            final(self).view.bytes() == store_value(old(self).view.fields(), old(self).view.calls(), old(self).view.bytes(), 3, v as u64),
    {
        self.view.set(3, v as u64)
    }

    pub fn get_reserved_info(&self) -> (r: u8)
        requires
            self.wf(),
        ensures
            r == value_of(self.view.fields(), self.view.calls(), self.view.bytes(), 4) as u8,
    {
        self.view.get(4) as u8
    }

    pub fn set_reserved_info(&mut self, v: u8)
        requires
            old(self).wf(),
        ensures
            final(self).wf(),
            final(self).view.bytes() == store_value(old(self).view.fields(), old(self).view.calls(), old(self).view.bytes(), 4, v as u64),
    {
        self.view.set(4, v as u64)
    }

    pub fn get_pdo_to_fdo(&self) -> (r: u8)
        requires
            self.wf(),
        ensures
            r == value_of(self.view.fields(), self.view.calls(), self.view.bytes(), 5) as u8,
    {
        self.view.get(5) as u8
    }

    pub fn set_pdo_to_fdo(&mut self, v: u8)
        requires
            old(self).wf(),
        ensures
            final(self).wf(),
            final(self).view.bytes() == store_value(old(self).view.fields(), old(self).view.calls(), old(self).view.bytes(), 5, v as u64),
    {
        self.view.set(5, v as u64)
    }

    pub fn get_bus(&self) -> (r: u16)
        requires
            self.wf(),
        ensures
            r == value_of(self.view.fields(), self.view.calls(), self.view.bytes(), 6) as u16,
    {
        self.view.get(6) as u16
    }

    pub fn set_bus(&mut self, v: u16)
        requires
            old(self).wf(),
        ensures
            final(self).wf(),
            final(self).view.bytes() == store_value(old(self).view.fields(), old(self).view.calls(), old(self).view.bytes(), 6, v as u64),
    {
        self.view.set(6, v as u64)
    }

    pub fn get_device(&self) -> (r: u16)
        requires
            self.wf(),
        ensures
            r == value_of(self.view.fields(), self.view.calls(), self.view.bytes(), 7) as u16,
    {
        self.view.get(7) as u16
    }

    pub fn set_device(&mut self, v: u16)
        requires
            old(self).wf(),
        ensures
            final(self).wf(),
            final(self).view.bytes() == store_value(old(self).view.fields(), old(self).view.calls(), old(self).view.bytes(), 7, v as u64),
    {
        self.view.set(7, v as u64)
    }

    pub fn get_direction(&self) -> (r: u8)
        requires
            self.wf(),
        ensures
            r == value_of(self.view.fields(), self.view.calls(), self.view.bytes(), 8) as u8,
    {
        self.view.get(8) as u8
    }

    pub fn set_direction(&mut self, v: u8)
        requires
            old(self).wf(),
        ensures
            final(self).wf(),
            final(self).view.bytes() == store_value(old(self).view.fields(), old(self).view.calls(), old(self).view.bytes(), 8, v as u64),
    {
        self.view.set(8, v as u64)
    }

    pub fn get_reserved_endpoint(&self) -> (r: u8)
        requires
            self.wf(),
        ensures
            r == value_of(self.view.fields(), self.view.calls(), self.view.bytes(), 9) as u8,
    {
        self.view.get(9) as u8
    }

    pub fn set_reserved_endpoint(&mut self, v: u8)
        requires
            old(self).wf(),
        ensures
            final(self).wf(),
            final(self).view.bytes() == store_value(old(self).view.fields(), old(self).view.calls(), old(self).view.bytes(), 9, v as u64),
    {
        self.view.set(9, v as u64)
    }

    pub fn get_endpoint(&self) -> (r: u8)
        requires
            self.wf(),
        ensures
            r == value_of(self.view.fields(), self.view.calls(), self.view.bytes(), 10) as u8,
    {
        self.view.get(10) as u8
    }

    pub fn set_endpoint(&mut self, v: u8)
        requires
            old(self).wf(),
        ensures
            final(self).wf(),
            final(self).view.bytes() == store_value(old(self).view.fields(), old(self).view.calls(), old(self).view.bytes(), 10, v as u64),
    {
        self.view.set(10, v as u64)
    }

    pub fn get_transfer(&self) -> (r: u8)
        requires
            self.wf(),
        ensures
            r == value_of(self.view.fields(), self.view.calls(), self.view.bytes(), 11) as u8,
    {
        self.view.get(11) as u8
    }

    pub fn set_transfer(&mut self, v: u8)
        requires
            old(self).wf(),
        ensures
            final(self).wf(),
            final(self).view.bytes() == store_value(old(self).view.fields(), old(self).view.calls(), old(self).view.bytes(), 11, v as u64),
    {
        self.view.set(11, v as u64)
    }

    pub fn get_data_length(&self) -> (r: u32)
        requires
            self.wf(),
        ensures
            r == value_of(self.view.fields(), self.view.calls(), self.view.bytes(), 12) as u32,
    {
        self.view.get(12) as u32
    }

    pub fn set_data_length(&mut self, v: u32)
        requires
            old(self).wf(),
        ensures
            final(self).wf(),
            final(self).view.bytes() == store_value(old(self).view.fields(), old(self).view.calls(), old(self).view.bytes(), 12, v as u64),
    {
        self.view.set(12, v as u64)
    }

    /// The bytes of the header payload field (copied).
    pub fn get_header_payload(&self) -> (r: Vec<u8>)
        requires
            self.wf(),
        ensures
            r@ == region_of(self.view.fields(), self.view.calls(), self.view.bytes(), 13),
    {
        slice_to_vec(self.view.get_raw(13))
    }

    /// Copies `vals` into the header payload field; they must fit the
    /// field's declared length and the buffer.
    pub fn set_header_payload(&mut self, vals: &[u8])
        requires
            old(self).wf(),
            vals@.len() <= declared_len(old(self).view.fields(), old(self).view.calls(), old(self).view.bytes(), 13),
            field_pos(old(self).view.fields(), old(self).view.calls(), old(self).view.bytes(), 13) + vals@.len() <= old(self).view.bytes().len(),
        ensures
            final(self).wf(),
            final(self).view.bytes() == store_bytes(
                old(self).view.bytes(),
                field_pos(old(self).view.fields(), old(self).view.calls(), old(self).view.bytes(), 13) as int,
                vals@,
            ),
    {
        proof {
            assert(self.view.fields()[13].ty is Vector);
        }
        self.view.set_raw(13, vals)
    }

    /// Copies `vals` into the payload field; they must fit the
    /// field's declared length and the buffer.
    pub fn set_payload(&mut self, vals: &[u8])
        requires
            old(self).wf(),
            vals@.len() <= declared_len(old(self).view.fields(), old(self).view.calls(), old(self).view.bytes(), 14),
            field_pos(old(self).view.fields(), old(self).view.calls(), old(self).view.bytes(), 14) + vals@.len() <= old(self).view.bytes().len(),
        ensures
            final(self).wf(),
            final(self).view.bytes() == store_bytes(
                old(self).view.bytes(),
                field_pos(old(self).view.fields(), old(self).view.calls(), old(self).view.bytes(), 14) as int,
                vals@,
            ),
    {
        proof {
            assert(self.view.fields()[14].ty is Vector);
        }
        self.view.set_raw(14, vals)
    }
}

} // verus!
