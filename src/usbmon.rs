//! Linux usbmon captures and USB descriptors.
use crate::bits::Endianness;
use crate::layout::{arg_types, args_width, elem_ok, fixed_bits, layout_ok, min_size, prim_ok, payload_of};
use crate::schema::{Field, Packet};
use crate::schemas::{bytes, prim, prim_type, semantic, small, view_of};
use crate::types::Type;
use crate::view::{arg_value, get_args, get_payload, value_of, PacketView};
use vstd::prelude::*;
use vstd::string::*;

verus! {

/// The eight setup bytes of a control transfer.
#[derive(Clone, Copy, Debug)]
pub struct Setup(pub (u8, u8, u8, u8, u8, u8, u8, u8));

impl Setup {
    pub fn new(a: u8, b: u8, c: u8, d: u8, e: u8, f: u8, g: u8, h: u8) -> (r: Self)
        ensures
            r.0 == (a, b, c, d, e, f, g, h),
    {
        Setup((a, b, c, d, e, f, g, h))
    }

    /// The primitive values that back this type.
    pub fn to_primitive_values(&self) -> (r: (u8, u8, u8, u8, u8, u8, u8, u8))
        ensures
            r == self.0,
    {
        let tup = &self.0;
        (tup.0, tup.1, tup.2, tup.3, tup.4, tup.5, tup.6, tup.7)
    }
}

/// A usbmon capture header (the 64-byte binary form) and its data.
#[derive(Debug)]
pub struct UsbMon {
    pub id: u64,
    pub ty: u8,
    pub xfer_type: u8,
    pub epnum: u8,
    pub devnum: u8,
    pub busnum: u16,
    pub flag_setup: u8,
    pub flag_data: u8,
    pub ts_sec: u64,
    pub ts_usec: u32,
    pub status: u32,
    pub len: u32,
    pub len_cap: u32,
    pub setup: Setup,
    pub interval: u32,
    pub start_frame: u32,
    pub xfer_flags: u32,
    pub ndesc: u32,
    pub data: Vec<u8>,
}

impl UsbMon {
    /// The shape of each field of this layout: its type, its length
    /// expression and whether it is the payload.
    pub open spec fn fields_spec(fs: Seq<Field>) -> bool {
        &&& fs.len() == 19
        &&& (fs[0].ty matches Type::Primitive(_, w, e) && w == 64 && e == Endianness::Little)
        &&& fs[0].packet_length is None
        &&& !fs[0].is_payload
        &&& (fs[1].ty matches Type::Primitive(_, w, e) && w == 8 && e == Endianness::Big)
        &&& fs[1].packet_length is None
        &&& !fs[1].is_payload
        &&& (fs[2].ty matches Type::Primitive(_, w, e) && w == 8 && e == Endianness::Big)
        &&& fs[2].packet_length is None
        &&& !fs[2].is_payload
        &&& (fs[3].ty matches Type::Primitive(_, w, e) && w == 8 && e == Endianness::Big)
        &&& fs[3].packet_length is None
        &&& !fs[3].is_payload
        &&& (fs[4].ty matches Type::Primitive(_, w, e) && w == 8 && e == Endianness::Big)
        &&& fs[4].packet_length is None
        &&& !fs[4].is_payload
        &&& (fs[5].ty matches Type::Primitive(_, w, e) && w == 16 && e == Endianness::Little)
        &&& fs[5].packet_length is None
        &&& !fs[5].is_payload
        &&& (fs[6].ty matches Type::Primitive(_, w, e) && w == 8 && e == Endianness::Big)
        &&& fs[6].packet_length is None
        &&& !fs[6].is_payload
        &&& (fs[7].ty matches Type::Primitive(_, w, e) && w == 8 && e == Endianness::Big)
        &&& fs[7].packet_length is None
        &&& !fs[7].is_payload
        &&& (fs[8].ty matches Type::Primitive(_, w, e) && w == 64 && e == Endianness::Little)
        &&& fs[8].packet_length is None
        &&& !fs[8].is_payload
        &&& (fs[9].ty matches Type::Primitive(_, w, e) && w == 32 && e == Endianness::Little)
        &&& fs[9].packet_length is None
        &&& !fs[9].is_payload
        &&& (fs[10].ty matches Type::Primitive(_, w, e) && w == 32 && e == Endianness::Little)
        &&& fs[10].packet_length is None
        &&& !fs[10].is_payload
        &&& (fs[11].ty matches Type::Primitive(_, w, e) && w == 32 && e == Endianness::Little)
        &&& fs[11].packet_length is None
        &&& !fs[11].is_payload
        &&& (fs[12].ty matches Type::Primitive(_, w, e) && w == 32 && e == Endianness::Little)
        &&& fs[12].packet_length is None
        &&& !fs[12].is_payload
        &&& fs[13].ty is Misc
        &&& arg_types(fs[13]).len() == 8
        &&& (arg_types(fs[13])[0] matches Type::Primitive(_, w, e) && w == 8 && e == Endianness::Big)
        &&& (arg_types(fs[13])[1] matches Type::Primitive(_, w, e) && w == 8 && e == Endianness::Big)
        &&& (arg_types(fs[13])[2] matches Type::Primitive(_, w, e) && w == 8 && e == Endianness::Big)
        &&& (arg_types(fs[13])[3] matches Type::Primitive(_, w, e) && w == 8 && e == Endianness::Big)
        &&& (arg_types(fs[13])[4] matches Type::Primitive(_, w, e) && w == 8 && e == Endianness::Big)
        &&& (arg_types(fs[13])[5] matches Type::Primitive(_, w, e) && w == 8 && e == Endianness::Big)
        &&& (arg_types(fs[13])[6] matches Type::Primitive(_, w, e) && w == 8 && e == Endianness::Big)
        &&& (arg_types(fs[13])[7] matches Type::Primitive(_, w, e) && w == 8 && e == Endianness::Big)
        &&& fs[13].packet_length is None
        &&& !fs[13].is_payload
        &&& (fs[14].ty matches Type::Primitive(_, w, e) && w == 32 && e == Endianness::Little)
        &&& fs[14].packet_length is None
        &&& !fs[14].is_payload
        &&& (fs[15].ty matches Type::Primitive(_, w, e) && w == 32 && e == Endianness::Little)
        &&& fs[15].packet_length is None
        &&& !fs[15].is_payload
        &&& (fs[16].ty matches Type::Primitive(_, w, e) && w == 32 && e == Endianness::Little)
        &&& fs[16].packet_length is None
        &&& !fs[16].is_payload
        &&& (fs[17].ty matches Type::Primitive(_, w, e) && w == 32 && e == Endianness::Little)
        &&& fs[17].packet_length is None
        &&& !fs[17].is_payload
        &&& (fs[18].ty matches Type::Vector(inner) && (*inner matches Type::Primitive(_, w, _) && w == 8))
        &&& fs[18].packet_length is None
        &&& fs[18].is_payload
    }

    /// The wire layout of this packet, field by field.
    pub fn schema() -> (r: Packet)
        ensures
            r.fields@.len() == 19,
            arg_types(r.fields@[13]).len() == 8,
            Self::fields_spec(r.fields@),
            layout_ok(r.fields@),
            min_size(r.fields@) == 64,
    {
        let mut f: Vec<Field> = Vec::new();
        f.push(prim("id", "u64le", 64, Endianness::Little));
        f.push(small("ty", "u8", 8));
        f.push(small("xfer_type", "u8", 8));
        f.push(small("epnum", "u8", 8));
        f.push(small("devnum", "u8", 8));
        f.push(prim("busnum", "u16le", 16, Endianness::Little));
        f.push(small("flag_setup", "u8", 8));
        f.push(small("flag_data", "u8", 8));
        f.push(prim("ts_sec", "u64le", 64, Endianness::Little));
        f.push(prim("ts_usec", "u32le", 32, Endianness::Little));
        f.push(prim("status", "u32le", 32, Endianness::Little));
        f.push(prim("len", "u32le", 32, Endianness::Little));
        f.push(prim("len_cap", "u32le", 32, Endianness::Little));
        {
            let mut a: Vec<Type> = Vec::new();
            a.push(prim_type("u8", 8, Endianness::Big));
            a.push(prim_type("u8", 8, Endianness::Big));
            a.push(prim_type("u8", 8, Endianness::Big));
            a.push(prim_type("u8", 8, Endianness::Big));
            a.push(prim_type("u8", 8, Endianness::Big));
            a.push(prim_type("u8", 8, Endianness::Big));
            a.push(prim_type("u8", 8, Endianness::Big));
            a.push(prim_type("u8", 8, Endianness::Big));
            f.push(semantic("setup", "Setup", a));
        }
        f.push(prim("interval", "u32le", 32, Endianness::Little));
        f.push(prim("start_frame", "u32le", 32, Endianness::Little));
        f.push(prim("xfer_flags", "u32le", 32, Endianness::Little));
        f.push(prim("ndesc", "u32le", 32, Endianness::Little));
        f.push(bytes("data", None, true));
        proof {
            let fs = f@;
            reveal_with_fuel(fixed_bits, 20);
            reveal_with_fuel(args_width, 9);
            assert forall|k: int| 0 <= k < 19 implies prim_ok(#[trigger] fs[k].ty) && elem_ok(fs[k].ty) && forall|a: int|
                0 <= a < arg_types(fs[k]).len() ==> prim_ok(#[trigger] arg_types(fs[k])[a]) by {
                if k == 0 {} else if k == 1 {} else if k == 2 {} else if k == 3 {} else if k == 4 {} else if k == 5 {} else if k == 6 {} else if k == 7 {} else if k == 8 {} else if k == 9 {} else if k == 10 {} else if k == 11 {} else if k == 12 {} else if k == 13 {} else if k == 14 {} else if k == 15 {} else if k == 16 {} else if k == 17 {} else {}
            }
            assert(fixed_bits(fs, 19) == 512);
        }
        Packet { base_name: String::from_str("UsbMon"), fields: f }
    }
}

/// A USB device descriptor.
#[derive(Debug)]
pub struct Device {
    pub length: u8,
    pub descriptor_type: u8,
    pub bcd_usb: u16,
    pub class: u8,
    pub subclass: u8,
    pub protocol: u8,
    pub maxsize: u8,
    pub id_vendor: u16,
    pub id_product: u16,
    pub bcd_device: u16,
    pub manufacturer: u8,
    pub product: u8,
    pub serial_number: u8,
    pub number_configurations: u8,
    pub payload: Vec<u8>,
}

impl Device {
    /// The shape of each field of this layout: its type, its length
    /// expression and whether it is the payload.
    pub open spec fn fields_spec(fs: Seq<Field>) -> bool {
        &&& fs.len() == 15
        &&& (fs[0].ty matches Type::Primitive(_, w, e) && w == 8 && e == Endianness::Big)
        &&& fs[0].packet_length is None
        &&& !fs[0].is_payload
        &&& (fs[1].ty matches Type::Primitive(_, w, e) && w == 8 && e == Endianness::Big)
        &&& fs[1].packet_length is None
        &&& !fs[1].is_payload
        &&& (fs[2].ty matches Type::Primitive(_, w, e) && w == 16 && e == Endianness::Little)
        &&& fs[2].packet_length is None
        &&& !fs[2].is_payload
        &&& (fs[3].ty matches Type::Primitive(_, w, e) && w == 8 && e == Endianness::Big)
        &&& fs[3].packet_length is None
        &&& !fs[3].is_payload
        &&& (fs[4].ty matches Type::Primitive(_, w, e) && w == 8 && e == Endianness::Big)
        &&& fs[4].packet_length is None
        &&& !fs[4].is_payload
        &&& (fs[5].ty matches Type::Primitive(_, w, e) && w == 8 && e == Endianness::Big)
        &&& fs[5].packet_length is None
        &&& !fs[5].is_payload
        &&& (fs[6].ty matches Type::Primitive(_, w, e) && w == 8 && e == Endianness::Big)
        &&& fs[6].packet_length is None
        &&& !fs[6].is_payload
        &&& (fs[7].ty matches Type::Primitive(_, w, e) && w == 16 && e == Endianness::Little)
        &&& fs[7].packet_length is None
        &&& !fs[7].is_payload
        &&& (fs[8].ty matches Type::Primitive(_, w, e) && w == 16 && e == Endianness::Little)
        &&& fs[8].packet_length is None
        &&& !fs[8].is_payload
        &&& (fs[9].ty matches Type::Primitive(_, w, e) && w == 16 && e == Endianness::Little)
        &&& fs[9].packet_length is None
        &&& !fs[9].is_payload
        &&& (fs[10].ty matches Type::Primitive(_, w, e) && w == 8 && e == Endianness::Big)
        &&& fs[10].packet_length is None
        &&& !fs[10].is_payload
        &&& (fs[11].ty matches Type::Primitive(_, w, e) && w == 8 && e == Endianness::Big)
        &&& fs[11].packet_length is None
        &&& !fs[11].is_payload
        &&& (fs[12].ty matches Type::Primitive(_, w, e) && w == 8 && e == Endianness::Big)
        &&& fs[12].packet_length is None
        &&& !fs[12].is_payload
        &&& (fs[13].ty matches Type::Primitive(_, w, e) && w == 8 && e == Endianness::Big)
        &&& fs[13].packet_length is None
        &&& !fs[13].is_payload
        &&& (fs[14].ty matches Type::Vector(inner) && (*inner matches Type::Primitive(_, w, _) && w == 8))
        &&& fs[14].packet_length is None
        &&& fs[14].is_payload
    }

    /// The wire layout of this packet, field by field.
    pub fn schema() -> (r: Packet)
        ensures
            r.fields@.len() == 15,
            Self::fields_spec(r.fields@),
            layout_ok(r.fields@),
            min_size(r.fields@) == 18,
    {
        let mut f: Vec<Field> = Vec::new();
        f.push(small("length", "u8", 8));
        f.push(small("descriptor_type", "u8", 8));
        f.push(prim("bcd_usb", "u16le", 16, Endianness::Little));
        f.push(small("class", "u8", 8));
        f.push(small("subclass", "u8", 8));
        f.push(small("protocol", "u8", 8));
        f.push(small("maxsize", "u8", 8));
        f.push(prim("id_vendor", "u16le", 16, Endianness::Little));
        f.push(prim("id_product", "u16le", 16, Endianness::Little));
        f.push(prim("bcd_device", "u16le", 16, Endianness::Little));
        f.push(small("manufacturer", "u8", 8));
        f.push(small("product", "u8", 8));
        f.push(small("serial_number", "u8", 8));
        f.push(small("number_configurations", "u8", 8));
        f.push(bytes("payload", None, true));
        proof {
            let fs = f@;
            reveal_with_fuel(fixed_bits, 16);
            assert forall|k: int| 0 <= k < 15 implies prim_ok(#[trigger] fs[k].ty) && elem_ok(fs[k].ty) && forall|a: int|
                0 <= a < arg_types(fs[k]).len() ==> prim_ok(#[trigger] arg_types(fs[k])[a]) by {
                if k == 0 {} else if k == 1 {} else if k == 2 {} else if k == 3 {} else if k == 4 {} else if k == 5 {} else if k == 6 {} else if k == 7 {} else if k == 8 {} else if k == 9 {} else if k == 10 {} else if k == 11 {} else if k == 12 {} else if k == 13 {} else {}
            }
            assert(fixed_bits(fs, 15) == 144);
        }
        Packet { base_name: String::from_str("Device"), fields: f }
    }
}

/// A USB config descriptor.
#[derive(Debug)]
pub struct Config {
    pub length: u8,
    pub descriptor_type: u8,
    pub total_length: u16,
    pub number_interfaces: u8,
    pub configuration_value: u8,
    pub configuration: u8,
    pub attributes: u8,
    pub max_power: u8,
    pub payload: Vec<u8>,
}

impl Config {
    /// The shape of each field of this layout: its type, its length
    /// expression and whether it is the payload.
    pub open spec fn fields_spec(fs: Seq<Field>) -> bool {
        &&& fs.len() == 9
        &&& (fs[0].ty matches Type::Primitive(_, w, e) && w == 8 && e == Endianness::Big)
        &&& fs[0].packet_length is None
        &&& !fs[0].is_payload
        &&& (fs[1].ty matches Type::Primitive(_, w, e) && w == 8 && e == Endianness::Big)
        &&& fs[1].packet_length is None
        &&& !fs[1].is_payload
        &&& (fs[2].ty matches Type::Primitive(_, w, e) && w == 16 && e == Endianness::Little)
        &&& fs[2].packet_length is None
        &&& !fs[2].is_payload
        &&& (fs[3].ty matches Type::Primitive(_, w, e) && w == 8 && e == Endianness::Big)
        &&& fs[3].packet_length is None
        &&& !fs[3].is_payload
        &&& (fs[4].ty matches Type::Primitive(_, w, e) && w == 8 && e == Endianness::Big)
        &&& fs[4].packet_length is None
        &&& !fs[4].is_payload
        &&& (fs[5].ty matches Type::Primitive(_, w, e) && w == 8 && e == Endianness::Big)
        &&& fs[5].packet_length is None
        &&& !fs[5].is_payload
        &&& (fs[6].ty matches Type::Primitive(_, w, e) && w == 8 && e == Endianness::Big)
        &&& fs[6].packet_length is None
        &&& !fs[6].is_payload
        &&& (fs[7].ty matches Type::Primitive(_, w, e) && w == 8 && e == Endianness::Big)
        &&& fs[7].packet_length is None
        &&& !fs[7].is_payload
        &&& (fs[8].ty matches Type::Vector(inner) && (*inner matches Type::Primitive(_, w, _) && w == 8))
        &&& fs[8].packet_length is None
        &&& fs[8].is_payload
    }

    /// The wire layout of this packet, field by field.
    pub fn schema() -> (r: Packet)
        ensures
            r.fields@.len() == 9,
            Self::fields_spec(r.fields@),
            layout_ok(r.fields@),
            min_size(r.fields@) == 9,
    {
        let mut f: Vec<Field> = Vec::new();
        f.push(small("length", "u8", 8));
        f.push(small("descriptor_type", "u8", 8));
        f.push(prim("total_length", "u16le", 16, Endianness::Little));
        f.push(small("number_interfaces", "u8", 8));
        f.push(small("configuration_value", "u8", 8));
        f.push(small("configuration", "u8", 8));
        f.push(small("attributes", "u8", 8));
        f.push(small("max_power", "u8", 8));
        f.push(bytes("payload", None, true));
        proof {
            let fs = f@;
            reveal_with_fuel(fixed_bits, 10);
            assert forall|k: int| 0 <= k < 9 implies prim_ok(#[trigger] fs[k].ty) && elem_ok(fs[k].ty) && forall|a: int|
                0 <= a < arg_types(fs[k]).len() ==> prim_ok(#[trigger] arg_types(fs[k])[a]) by {
                if k == 0 {} else if k == 1 {} else if k == 2 {} else if k == 3 {} else if k == 4 {} else if k == 5 {} else if k == 6 {} else if k == 7 {} else {}
            }
            assert(fixed_bits(fs, 9) == 72);
        }
        Packet { base_name: String::from_str("Config"), fields: f }
    }
}

/// A USB interface descriptor.
#[derive(Debug)]
pub struct Interface {
    pub length: u8,
    pub descriptor_type: u8,
    pub interface_number: u8,
    pub alternate_setting: u8,
    pub number_endpoints: u8,
    pub interface_class: u8,
    pub interface_subclass: u8,
    pub interface_protocol: u8,
    pub interface: u8,
    pub payload: Vec<u8>,
}

impl Interface {
    /// The shape of each field of this layout: its type, its length
    /// expression and whether it is the payload.
    pub open spec fn fields_spec(fs: Seq<Field>) -> bool {
        &&& fs.len() == 10
        &&& (fs[0].ty matches Type::Primitive(_, w, e) && w == 8 && e == Endianness::Big)
        &&& fs[0].packet_length is None
        &&& !fs[0].is_payload
        &&& (fs[1].ty matches Type::Primitive(_, w, e) && w == 8 && e == Endianness::Big)
        &&& fs[1].packet_length is None
        &&& !fs[1].is_payload
        &&& (fs[2].ty matches Type::Primitive(_, w, e) && w == 8 && e == Endianness::Big)
        &&& fs[2].packet_length is None
        &&& !fs[2].is_payload
        &&& (fs[3].ty matches Type::Primitive(_, w, e) && w == 8 && e == Endianness::Big)
        &&& fs[3].packet_length is None
        &&& !fs[3].is_payload
        &&& (fs[4].ty matches Type::Primitive(_, w, e) && w == 8 && e == Endianness::Big)
        &&& fs[4].packet_length is None
        &&& !fs[4].is_payload
        &&& (fs[5].ty matches Type::Primitive(_, w, e) && w == 8 && e == Endianness::Big)
        &&& fs[5].packet_length is None
        &&& !fs[5].is_payload
        &&& (fs[6].ty matches Type::Primitive(_, w, e) && w == 8 && e == Endianness::Big)
        &&& fs[6].packet_length is None
        &&& !fs[6].is_payload
        &&& (fs[7].ty matches Type::Primitive(_, w, e) && w == 8 && e == Endianness::Big)
        &&& fs[7].packet_length is None
        &&& !fs[7].is_payload
        &&& (fs[8].ty matches Type::Primitive(_, w, e) && w == 8 && e == Endianness::Big)
        &&& fs[8].packet_length is None
        &&& !fs[8].is_payload
        &&& (fs[9].ty matches Type::Vector(inner) && (*inner matches Type::Primitive(_, w, _) && w == 8))
        &&& fs[9].packet_length is None
        &&& fs[9].is_payload
    }

    /// The wire layout of this packet, field by field.
    pub fn schema() -> (r: Packet)
        ensures
            r.fields@.len() == 10,
            Self::fields_spec(r.fields@),
            layout_ok(r.fields@),
            min_size(r.fields@) == 9,
    {
        let mut f: Vec<Field> = Vec::new();
        f.push(small("length", "u8", 8));
        f.push(small("descriptor_type", "u8", 8));
        f.push(small("interface_number", "u8", 8));
        f.push(small("alternate_setting", "u8", 8));
        f.push(small("number_endpoints", "u8", 8));
        f.push(small("interface_class", "u8", 8));
        f.push(small("interface_subclass", "u8", 8));
        f.push(small("interface_protocol", "u8", 8));
        f.push(small("interface", "u8", 8));
        f.push(bytes("payload", None, true));
        proof {
            let fs = f@;
            reveal_with_fuel(fixed_bits, 11);
            assert forall|k: int| 0 <= k < 10 implies prim_ok(#[trigger] fs[k].ty) && elem_ok(fs[k].ty) && forall|a: int|
                0 <= a < arg_types(fs[k]).len() ==> prim_ok(#[trigger] arg_types(fs[k])[a]) by {
                if k == 0 {} else if k == 1 {} else if k == 2 {} else if k == 3 {} else if k == 4 {} else if k == 5 {} else if k == 6 {} else if k == 7 {} else if k == 8 {} else {}
            }
            assert(fixed_bits(fs, 10) == 72);
        }
        Packet { base_name: String::from_str("Interface"), fields: f }
    }
}

/// A USB endpoint descriptor.
#[derive(Debug)]
pub struct Endpoint {
    pub length: u8,
    pub descriptor_type: u8,
    pub endpoint_address: u8,
    pub attributes: u8,
    pub maxsize: u16,
    pub interval: u8,
    pub payload: Vec<u8>,
}

impl Endpoint {
    /// The shape of each field of this layout: its type, its length
    /// expression and whether it is the payload.
    pub open spec fn fields_spec(fs: Seq<Field>) -> bool {
        &&& fs.len() == 7
        &&& (fs[0].ty matches Type::Primitive(_, w, e) && w == 8 && e == Endianness::Big)
        &&& fs[0].packet_length is None
        &&& !fs[0].is_payload
        &&& (fs[1].ty matches Type::Primitive(_, w, e) && w == 8 && e == Endianness::Big)
        &&& fs[1].packet_length is None
        &&& !fs[1].is_payload
        &&& (fs[2].ty matches Type::Primitive(_, w, e) && w == 8 && e == Endianness::Big)
        &&& fs[2].packet_length is None
        &&& !fs[2].is_payload
        &&& (fs[3].ty matches Type::Primitive(_, w, e) && w == 8 && e == Endianness::Big)
        &&& fs[3].packet_length is None
        &&& !fs[3].is_payload
        &&& (fs[4].ty matches Type::Primitive(_, w, e) && w == 16 && e == Endianness::Little)
        &&& fs[4].packet_length is None
        &&& !fs[4].is_payload
        &&& (fs[5].ty matches Type::Primitive(_, w, e) && w == 8 && e == Endianness::Big)
        &&& fs[5].packet_length is None
        &&& !fs[5].is_payload
        &&& (fs[6].ty matches Type::Vector(inner) && (*inner matches Type::Primitive(_, w, _) && w == 8))
        &&& fs[6].packet_length is None
        &&& fs[6].is_payload
    }

    /// The wire layout of this packet, field by field.
    pub fn schema() -> (r: Packet)
        ensures
            r.fields@.len() == 7,
            Self::fields_spec(r.fields@),
            layout_ok(r.fields@),
            min_size(r.fields@) == 7,
    {
        let mut f: Vec<Field> = Vec::new();
        f.push(small("length", "u8", 8));
        f.push(small("descriptor_type", "u8", 8));
        f.push(small("endpoint_address", "u8", 8));
        f.push(small("attributes", "u8", 8));
        f.push(prim("maxsize", "u16le", 16, Endianness::Little));
        f.push(small("interval", "u8", 8));
        f.push(bytes("payload", None, true));
        proof {
            let fs = f@;
            reveal_with_fuel(fixed_bits, 8);
            assert forall|k: int| 0 <= k < 7 implies prim_ok(#[trigger] fs[k].ty) && elem_ok(fs[k].ty) && forall|a: int|
                0 <= a < arg_types(fs[k]).len() ==> prim_ok(#[trigger] arg_types(fs[k])[a]) by {
                if k == 0 {} else if k == 1 {} else if k == 2 {} else if k == 3 {} else if k == 4 {} else if k == 5 {} else {}
            }
            assert(fixed_bits(fs, 7) == 56);
        }
        Packet { base_name: String::from_str("Endpoint"), fields: f }
    }
}

/// A read-only view of a usbmon capture.
#[derive(Debug)]
pub struct UsbMonPacket<'pkt> {
    pub view: PacketView<'pkt>,
}

impl<'pkt> UsbMonPacket<'pkt> {
    pub open spec fn wf(&self) -> bool {
        &&& self.view.layout.wf()
        &&& self.view.fields().len() == 19
        &&& arg_types(self.view.fields()[13]).len() == 8
        &&& UsbMon::fields_spec(self.view.fields())
    }

    /// A view of `buf`, when it holds the 64-byte header.
    pub fn new(buf: &'pkt [u8]) -> (r: Option<UsbMonPacket<'pkt>>)
        ensures
            r is Some <==> buf@.len() >= 64,
            r matches Some(p) ==> p.wf() && p.view.buf@ == buf@,
    {
        match view_of(UsbMon::schema(), buf) {
            Some(view) => Some(UsbMonPacket { view }),
            None => None,
        }
    }

    pub fn get_xfer_type(&self) -> (r: u8)
        requires
            self.wf(),
        ensures
            r == value_of(self.view.fields(), self.view.calls(), self.view.buf@, 2) as u8,
    {
        self.view.get(2) as u8
    }

    pub fn get_epnum(&self) -> (r: u8)
        requires
            self.wf(),
        ensures
            r == value_of(self.view.fields(), self.view.calls(), self.view.buf@, 3) as u8,
    {
        self.view.get(3) as u8
    }

    pub fn get_devnum(&self) -> (r: u8)
        requires
            self.wf(),
        ensures
            r == value_of(self.view.fields(), self.view.calls(), self.view.buf@, 4) as u8,
    {
        self.view.get(4) as u8
    }

    pub fn get_busnum(&self) -> (r: u16)
        requires
            self.wf(),
        ensures
            r == value_of(self.view.fields(), self.view.calls(), self.view.buf@, 5) as u16,
    {
        self.view.get(5) as u16
    }

    /// The setup bytes.
    pub fn get_setup(&self) -> (r: Setup)
        requires
            self.wf(),
        ensures
            forall|a: int| 0 <= a < 8 ==> #[trigger] setup_byte(r, a) == arg_value(self.view.fields(), self.view.calls(), self.view.buf@, 13, a) as u8,
    {
        let a = get_args(&self.view.layout, self.view.buf, 13);
        Setup::new(a[0] as u8, a[1] as u8, a[2] as u8, a[3] as u8, a[4] as u8, a[5] as u8, a[6] as u8, a[7] as u8)
    }

    /// The captured data.
    pub fn payload(&self) -> (r: &'pkt [u8])
        requires
            self.wf(),
        ensures
            r@ == payload_of(self.view.fields(), self.view.calls(), self.view.buf@),
    {
        get_payload(&self.view.layout, self.view.buf)
    }

    /// `x` is this capture as a transfer: its kind by transfer type (2
    /// control, 3 bulk, anything else isochronous), its setup bytes and
    /// its data.
    pub open spec fn transfer_is(&self, x: XferPacket<'pkt>) -> bool {
        let t = value_of(self.view.fields(), self.view.calls(), self.view.buf@, 2) as u8;
        &&& x.data()@ == payload_of(self.view.fields(), self.view.calls(), self.view.buf@)
        &&& forall|a: int| 0 <= a < 8 ==> #[trigger] setup_byte(x.setup(), a) == arg_value(self.view.fields(), self.view.calls(), self.view.buf@, 13, a) as u8
        &&& (t == 2 ==> x is Ctl)
        &&& (t == 3 ==> x is Blk)
        &&& (t != 2 && t != 3 ==> x is Isochr)
    }

    /// The capture's setup bytes and data, by transfer type: 2 control,
    /// 3 bulk, anything else isochronous.
    pub fn into_xfer_packet(self) -> (r: Option<XferPacket<'pkt>>)
        requires
            self.wf(),
        ensures
            r matches Some(x) && self.transfer_is(x),
    {
        let setup = self.get_setup();
        let rf = self.payload();
        let pkt = match self.get_xfer_type() {
            0x02 => XferPacket::Ctl(setup, rf),
            0x03 => XferPacket::Blk(setup, rf),
            _ => XferPacket::Isochr(setup, rf),
        };
        Some(pkt)
    }

    /// Keeps the capture when it is of the given bus, device and endpoint.
    pub fn filter_flow(self, bus: u16, dev: u8, ep: u8) -> (r: Option<Self>)
        requires
            self.wf(),
        ensures
            r matches Some(p) ==> p == self,
            r is Some <==> (bus == value_of(self.view.fields(), self.view.calls(), self.view.buf@, 5) as u16 && dev == value_of(
                self.view.fields(), self.view.calls(),
                self.view.buf@,
                4,
            ) as u8 && ep == value_of(self.view.fields(), self.view.calls(), self.view.buf@, 3) as u8),
    {
        if bus != self.get_busnum() || dev != self.get_devnum() || ep != self.get_epnum() {
            None
        } else {
            Some(self)
        }
    }
}

/// Byte `a` of a setup.
pub open spec fn setup_byte(s: Setup, a: int) -> u8 {
    let t = s.0;
    if a == 0 {
        t.0
    } else if a == 1 {
        t.1
    } else if a == 2 {
        t.2
    } else if a == 3 {
        t.3
    } else if a == 4 {
        t.4
    } else if a == 5 {
        t.5
    } else if a == 6 {
        t.6
    } else {
        t.7
    }
}

/// A USB descriptor in a buffer, by the type its second byte names.
#[derive(Debug)]
pub enum DescriptorPacket<'pkt> {
    Dev(PacketView<'pkt>),
    Cfg(PacketView<'pkt>),
    If(PacketView<'pkt>),
    Ep(PacketView<'pkt>),
}

impl<'pkt> DescriptorPacket<'pkt> {
    /// The view of the descriptor's bytes.
    pub open spec fn view(&self) -> PacketView<'pkt> {
        match self {
            DescriptorPacket::Dev(v) => *v,
            DescriptorPacket::Cfg(v) => *v,
            DescriptorPacket::If(v) => *v,
            DescriptorPacket::Ep(v) => *v,
        }
    }

    pub fn is_device(&self) -> (r: bool)
        ensures
            r == (self is Dev),
    {
        matches!(self, DescriptorPacket::Dev(_))
    }

    pub fn is_config(&self) -> (r: bool)
        ensures
            r == (self is Cfg),
    {
        matches!(self, DescriptorPacket::Cfg(_))
    }

    pub fn is_interface(&self) -> (r: bool)
        ensures
            r == (self is If),
    {
        matches!(self, DescriptorPacket::If(_))
    }

    pub fn is_endpoint(&self) -> (r: bool)
        ensures
            r == (self is Ep),
    {
        matches!(self, DescriptorPacket::Ep(_))
    }

    /// The bytes after the descriptor's fixed part.
    pub fn payload(&self) -> (r: &[u8])
        requires
            self.view().layout.wf(),
        ensures
            r@ == payload_of(self.view().fields(), self.view().calls(), self.view().buf@),
    {
        match self {
            DescriptorPacket::Dev(v) => get_payload(&v.layout, v.buf),
            DescriptorPacket::Cfg(v) => get_payload(&v.layout, v.buf),
            DescriptorPacket::If(v) => get_payload(&v.layout, v.buf),
            DescriptorPacket::Ep(v) => get_payload(&v.layout, v.buf),
        }
    }

    /// Reads the descriptor in `pkt`: `None` when it has under two bytes,
    /// its type byte is none of 1, 2, 4 and 5, or it is shorter than that
    /// type's fixed part.
    pub fn new(pkt: &'pkt [u8]) -> (r: Option<Self>)
        ensures
            pkt@.len() < 2 ==> r is None,
            r matches Some(d) ==> d.view().layout.wf() && d.view().buf@ == pkt@ && match d {
                DescriptorPacket::Dev(v) => pkt@[1] == 1 && Device::fields_spec(v.fields()),
                DescriptorPacket::Cfg(v) => pkt@[1] == 2 && Config::fields_spec(v.fields()),
                DescriptorPacket::If(v) => pkt@[1] == 4 && Interface::fields_spec(v.fields()),
                DescriptorPacket::Ep(v) => pkt@[1] == 5 && Endpoint::fields_spec(v.fields()),
            },
            r is Some <==> pkt@.len() >= 2 && ((pkt@[1] == 1 && pkt@.len() >= 18) || (pkt@[1] == 2 && pkt@.len()
                >= 9) || (pkt@[1] == 4 && pkt@.len() >= 9) || (pkt@[1] == 5 && pkt@.len() >= 7)),
    {
        if pkt.len() < 2 {
            return None;
        }
        let t = pkt[1];
        if t == 0x01 {
            match view_of(Device::schema(), pkt) {
                Some(v) => Some(DescriptorPacket::Dev(v)),
                None => None,
            }
        } else if t == 0x02 {
            match view_of(Config::schema(), pkt) {
                Some(v) => Some(DescriptorPacket::Cfg(v)),
                None => None,
            }
        } else if t == 0x04 {
            match view_of(Interface::schema(), pkt) {
                Some(v) => Some(DescriptorPacket::If(v)),
                None => None,
            }
        } else if t == 0x05 {
            match view_of(Endpoint::schema(), pkt) {
                Some(v) => Some(DescriptorPacket::Ep(v)),
                None => None,
            }
        } else {
            None
        }
    }

    /// The whole buffer.
    pub fn packet(&self) -> (r: &[u8])
        ensures
            r@ == self.view().buf@,
    {
        match self {
            DescriptorPacket::Dev(v) => v.buf,
            DescriptorPacket::Cfg(v) => v.buf,
            DescriptorPacket::If(v) => v.buf,
            DescriptorPacket::Ep(v) => v.buf,
        }
    }
}

/// The setup and data of a capture, by transfer type. A setup of zero
/// bytes marks a reply.
#[derive(Clone, Debug)]
pub enum XferPacket<'pkt> {
    Ctl(Setup, &'pkt [u8]),
    Blk(Setup, &'pkt [u8]),
    Isochr(Setup, &'pkt [u8]),
    Interr(Setup, &'pkt [u8]),
}

impl<'pkt> XferPacket<'pkt> {
    /// The setup bytes, whatever the transfer type.
    pub open spec fn setup(&self) -> Setup {
        match self {
            XferPacket::Ctl(s, _) => *s,
            XferPacket::Blk(s, _) => *s,
            XferPacket::Isochr(s, _) => *s,
            XferPacket::Interr(s, _) => *s,
        }
    }

    /// The data, whatever the transfer type.
    pub open spec fn data(&self) -> &'pkt [u8] {
        match self {
            XferPacket::Ctl(_, d) => *d,
            XferPacket::Blk(_, d) => *d,
            XferPacket::Isochr(_, d) => *d,
            XferPacket::Interr(_, d) => *d,
        }
    }

    pub fn payload(&self) -> (r: &[u8])
        ensures
            r@ == self.data()@,
    {
        match self {
            XferPacket::Ctl(_, d) => d,
            XferPacket::Blk(_, d) => d,
            XferPacket::Isochr(_, d) => d,
            XferPacket::Interr(_, d) => d,
        }
    }

    /// Reads a usbmon capture in `pkt` as a transfer: `None` when `pkt` is
    /// shorter than the capture header.
    pub fn new(pkt: &'pkt [u8]) -> (r: Option<Self>)
        ensures
            r is Some <==> pkt@.len() >= 64,
            r matches Some(x) ==> x.data()@.len() <= pkt@.len() && exists|m: UsbMonPacket<'pkt>|
                m.wf() && m.view.buf@ == pkt@ && #[trigger] m.transfer_is(x),
    {
        match UsbMonPacket::new(pkt) {
            Some(m) => {
                proof {
                    crate::view::lemma_payload_clipped(m.view.fields(), m.view.calls(), m.view.buf@);
                }
                let ghost gm = m;
                let r = m.into_xfer_packet();
                proof {
                    assert(gm.transfer_is(r->0));
                }
                r
            },
            None => None,
        }
    }
}

} // verus!
