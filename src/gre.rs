//! GRE (Generic Routing Encapsulation), RFCs 1701, 2784 and 2890, for
//! inspection: checksums can be read but are not computed, and routing
//! information is not decoded (the routing field is always empty).
use crate::bits::{field_value, read_field, Endianness};
use crate::layout::{arg_types, elem_ok, field_pos, fixed_bits, layout_ok, min_size, payload_of, prim_ok};
use crate::expr::Expr;
use crate::schema::{Field, Packet};
use crate::types::Type;
use crate::schemas::{bytes, lit, or, times, packets, prim, small, val, view_of, view_of_mut};
use crate::view::{declared_len, region_of, store_bytes, store_value, value_of, MutablePacketView, PacketView};
use vstd::prelude::*;
use vstd::string::*;

verus! {

/// A GRE header and what it carries.
#[derive(Debug)]
pub struct Gre {
    pub checksum_present: u8,
    pub routing_present: u8,
    pub key_present: u8,
    pub sequence_present: u8,
    pub strict_source_route: u8,
    pub recursion_control: u8,
    pub zero_flags: u8,
    pub version: u8,
    /// An ethertype: 0x0800 for IPv4.
    pub protocol_type: u16,
    pub checksum: Vec<U16BE>,
    pub offset: Vec<U16BE>,
    pub key: Vec<U32BE>,
    pub sequence: Vec<U32BE>,
    pub routing: Vec<u8>,
    pub payload: Vec<u8>,
}

/// A big-endian 16-bit number as an element of a GRE field.
#[derive(Clone, Copy, Debug, PartialEq, Eq, Structural)]
pub struct U16BE {
    pub number: u16,
}

/// A big-endian 32-bit number as an element of a GRE field.
#[derive(Clone, Copy, Debug, PartialEq, Eq, Structural)]
pub struct U32BE {
    pub number: u32,
}

pub const CHECKSUM_PRESENT: usize = 0;
pub const ROUTING_PRESENT: usize = 1;
pub const KEY_PRESENT: usize = 2;
pub const SEQUENCE_PRESENT: usize = 3;
pub const STRICT_SOURCE_ROUTE: usize = 4;
pub const RECURSION_CONTROL: usize = 5;
pub const ZERO_FLAGS: usize = 6;
pub const VERSION: usize = 7;
pub const PROTOCOL_TYPE: usize = 8;
pub const CHECKSUM: usize = 9;
pub const OFFSET: usize = 10;
pub const KEY: usize = 11;
pub const SEQUENCE: usize = 12;

impl Gre {
    /// The shape of each field of this layout: its type, its length
    /// expression and whether it is the payload.
    pub open spec fn fields_spec(fs: Seq<Field>) -> bool {
        &&& fs.len() == 15
        &&& (fs[0].ty matches Type::Primitive(_, w, e) && w == 1 && e == Endianness::Big)
        &&& fs[0].packet_length is None
        &&& !fs[0].is_payload
        &&& (fs[1].ty matches Type::Primitive(_, w, e) && w == 1 && e == Endianness::Big)
        &&& fs[1].packet_length is None
        &&& !fs[1].is_payload
        &&& (fs[2].ty matches Type::Primitive(_, w, e) && w == 1 && e == Endianness::Big)
        &&& fs[2].packet_length is None
        &&& !fs[2].is_payload
        &&& (fs[3].ty matches Type::Primitive(_, w, e) && w == 1 && e == Endianness::Big)
        &&& fs[3].packet_length is None
        &&& !fs[3].is_payload
        &&& (fs[4].ty matches Type::Primitive(_, w, e) && w == 1 && e == Endianness::Big)
        &&& fs[4].packet_length is None
        &&& !fs[4].is_payload
        &&& (fs[5].ty matches Type::Primitive(_, w, e) && w == 3 && e == Endianness::Big)
        &&& fs[5].packet_length is None
        &&& !fs[5].is_payload
        &&& (fs[6].ty matches Type::Primitive(_, w, e) && w == 5 && e == Endianness::Big)
        &&& fs[6].packet_length is None
        &&& !fs[6].is_payload
        &&& (fs[7].ty matches Type::Primitive(_, w, e) && w == 3 && e == Endianness::Big)
        &&& fs[7].packet_length is None
        &&& !fs[7].is_payload
        &&& (fs[8].ty matches Type::Primitive(_, w, e) && w == 16 && e == Endianness::Big)
        &&& fs[8].packet_length is None
        &&& !fs[8].is_payload
        &&& (fs[9].ty matches Type::Vector(inner) && *inner is Misc)
        &&& fs[9].packet_length == Some(Expr::Mul(Box::new(Expr::Or(Box::new(Expr::Field(0)), Box::new(Expr::Field(1)))), Box::new(Expr::Lit(2))))
        &&& !fs[9].is_payload
        &&& (fs[10].ty matches Type::Vector(inner) && *inner is Misc)
        &&& fs[10].packet_length == Some(Expr::Mul(Box::new(Expr::Or(Box::new(Expr::Field(0)), Box::new(Expr::Field(1)))), Box::new(Expr::Lit(2))))
        &&& !fs[10].is_payload
        &&& (fs[11].ty matches Type::Vector(inner) && *inner is Misc)
        &&& fs[11].packet_length == Some(Expr::Mul(Box::new(Expr::Field(2)), Box::new(Expr::Lit(4))))
        &&& !fs[11].is_payload
        &&& (fs[12].ty matches Type::Vector(inner) && *inner is Misc)
        &&& fs[12].packet_length == Some(Expr::Mul(Box::new(Expr::Field(3)), Box::new(Expr::Lit(4))))
        &&& !fs[12].is_payload
        &&& (fs[13].ty matches Type::Vector(inner) && (*inner matches Type::Primitive(_, w, _) && w == 8))
        &&& fs[13].packet_length == Some(Expr::Lit(0))
        &&& !fs[13].is_payload
        &&& (fs[14].ty matches Type::Vector(inner) && (*inner matches Type::Primitive(_, w, _) && w == 8))
        &&& fs[14].packet_length is None
        &&& fs[14].is_payload
    }

    /// The GRE layout: eight flag and version fields in the first two
    /// bytes, the protocol type, then checksum and offset (two bytes each
    /// when either the checksum or the routing flag is set), key and
    /// sequence number (four bytes each when flagged), and the payload.
    pub fn schema() -> (r: Packet)
        ensures
            r.fields@.len() == 15,
            Self::fields_spec(r.fields@),
            layout_ok(r.fields@),
            min_size(r.fields@) == 4,
    {
        let mut f: Vec<Field> = Vec::new();
        f.push(small("checksum_present", "u1", 1));
        f.push(small("routing_present", "u1", 1));
        f.push(small("key_present", "u1", 1));
        f.push(small("sequence_present", "u1", 1));
        f.push(small("strict_source_route", "u1", 1));
        f.push(small("recursion_control", "u3", 3));
        f.push(small("zero_flags", "u5", 5));
        f.push(small("version", "u3", 3));
        f.push(prim("protocol_type", "u16be", 16, Endianness::Big));
        f.push(packets("checksum", "U16BE", Some(times(or(val(CHECKSUM_PRESENT), val(ROUTING_PRESENT)), lit(2)))));
        f.push(packets("offset", "U16BE", Some(times(or(val(CHECKSUM_PRESENT), val(ROUTING_PRESENT)), lit(2)))));
        f.push(packets("key", "U32BE", Some(times(val(KEY_PRESENT), lit(4)))));
        f.push(packets("sequence", "U32BE", Some(times(val(SEQUENCE_PRESENT), lit(4)))));
        f.push(bytes("routing", Some(lit(0)), false));
        f.push(bytes("payload", None, true));
        proof {
            let fs = f@;
            reveal_with_fuel(fixed_bits, 16);
            assert forall|k: int| 0 <= k < 15 implies prim_ok(#[trigger] fs[k].ty) && elem_ok(fs[k].ty)
                && arg_types(fs[k]).len() == 0 by {
                if k == 0 {} else if k == 1 {} else if k == 2 {} else if k == 3 {} else if k == 4 {} else if k == 5 {
                } else if k == 6 {} else if k == 7 {} else if k == 8 {} else if k == 9 {} else if k == 10 {
                } else if k == 11 {} else if k == 12 {} else if k == 13 {} else {}
            }
            assert(fixed_bits(fs, 15) == 32);
        }
        Packet { base_name: String::from_str("Gre"), fields: f }
    }
}

/// The 16-bit big-endian numbers in `b`, two bytes each; a last odd byte
/// is left out.
pub fn u16_elements(b: &[u8]) -> (r: Vec<U16BE>)
    ensures
        r@.len() == b@.len() / 2,
        forall|j: int| 0 <= j < r@.len() ==> r@[j].number as nat == field_value(b@, 2 * j, 0, 16, Endianness::Big),
{
    let bl = b.len();
    let n = bl / 2;
    let mut out: Vec<U16BE> = Vec::new();
    let mut j: usize = 0;
    while j < n
        invariant
            bl == b@.len(),
            n == b@.len() / 2,
            j <= n,
            out@.len() == j,
            forall|x: int| 0 <= x < j ==> out@[x].number as nat == field_value(b@, 2 * x, 0, 16, Endianness::Big),
        decreases n - j,
    {
        let v = read_field(b, 2 * j, 0, 16, Endianness::Big);
        proof {
            crate::bits::lemma_value_bound(b@, 2 * j as int, 0, 16, Endianness::Big);
            vstd::arithmetic::power2::lemma2_to64();
        }
        out.push(U16BE { number: v as u16 });
        j = j + 1;
    }
    out
}

/// The 32-bit big-endian numbers in `b`, four bytes each; trailing bytes
/// that do not make a whole number are left out.
pub fn u32_elements(b: &[u8]) -> (r: Vec<U32BE>)
    ensures
        r@.len() == b@.len() / 4,
        forall|j: int| 0 <= j < r@.len() ==> r@[j].number as nat == field_value(b@, 4 * j, 0, 32, Endianness::Big),
{
    let bl = b.len();
    let n = bl / 4;
    let mut out: Vec<U32BE> = Vec::new();
    let mut j: usize = 0;
    while j < n
        invariant
            bl == b@.len(),
            n == b@.len() / 4,
            j <= n,
            out@.len() == j,
            forall|x: int| 0 <= x < j ==> out@[x].number as nat == field_value(b@, 4 * x, 0, 32, Endianness::Big),
        decreases n - j,
    {
        let v = read_field(b, 4 * j, 0, 32, Endianness::Big);
        proof {
            crate::bits::lemma_value_bound(b@, 4 * j as int, 0, 32, Endianness::Big);
            vstd::arithmetic::power2::lemma2_to64();
        }
        out.push(U32BE { number: v as u32 });
        j = j + 1;
    }
    out
}

/// The big-endian bytes of `vals`, two per number.
pub open spec fn be16_bytes(vals: Seq<U16BE>) -> Seq<u8> {
    Seq::new(
        2 * vals.len(),
        |i: int| if i % 2 == 0 { (vals[i / 2].number / 256) as u8 } else { (vals[i / 2].number % 256) as u8 },
    )
}

/// The big-endian bytes of `vals`, four per number.
pub open spec fn be32_bytes(vals: Seq<U32BE>) -> Seq<u8> {
    Seq::new(
        4 * vals.len(),
        |i: int|
            (if i % 4 == 0 {
                vals[i / 4].number / 0x1000000
            } else if i % 4 == 1 {
                vals[i / 4].number / 0x10000 % 256
            } else if i % 4 == 2 {
                vals[i / 4].number / 256 % 256
            } else {
                vals[i / 4].number % 256
            }) as u8,
    )
}

/// The big-endian bytes of `vals`, as `be16_bytes` states.
pub fn u16_bytes(vals: &[U16BE]) -> (r: Vec<u8>)
    ensures
        r@ == be16_bytes(vals@),
{
    let mut out: Vec<u8> = Vec::new();
    let mut j: usize = 0;
    while j < vals.len()
        invariant
            j <= vals@.len(),
            out@ == be16_bytes(vals@.subrange(0, j as int)),
        decreases vals.len() - j,
    {
        let v = vals[j].number;
        out.push((v / 256) as u8);
        out.push((v % 256) as u8);
        proof {
            assert(out@ =~= be16_bytes(vals@.subrange(0, j + 1)));
        }
        j = j + 1;
    }
    proof {
        assert(vals@.subrange(0, j as int) =~= vals@);
    }
    out
}

/// The big-endian bytes of `vals`, as `be32_bytes` states.
pub fn u32_bytes(vals: &[U32BE]) -> (r: Vec<u8>)
    ensures
        r@ == be32_bytes(vals@),
{
    let mut out: Vec<u8> = Vec::new();
    let mut j: usize = 0;
    while j < vals.len()
        invariant
            j <= vals@.len(),
            out@ == be32_bytes(vals@.subrange(0, j as int)),
        decreases vals.len() - j,
    {
        let v = vals[j].number;
        out.push((v / 0x1000000) as u8);
        out.push((v / 0x10000 % 256) as u8);
        out.push((v / 256 % 256) as u8);
        out.push((v % 256) as u8);
        proof {
            assert(out@ =~= be32_bytes(vals@.subrange(0, j + 1)));
        }
        j = j + 1;
    }
    proof {
        assert(vals@.subrange(0, j as int) =~= vals@);
    }
    out
}

/// A read-only view of a GRE packet.
pub struct GrePacket<'p> {
    pub view: PacketView<'p>,
}

impl<'p> GrePacket<'p> {
    pub open spec fn wf(&self) -> bool {
        self.view.layout.wf() && self.view.fields().len() == 15 && Gre::fields_spec(self.view.fields())
    }

    /// A view of `buf`, when it holds the four bytes of the fixed header.
    pub fn new(buf: &'p [u8]) -> (r: Option<GrePacket<'p>>)
        ensures
            r is Some <==> buf@.len() >= 4,
            r matches Some(p) ==> p.wf() && p.view.buf@ == buf@,
    {
        match view_of(Gre::schema(), buf) {
            Some(view) => Some(GrePacket { view }),
            None => None,
        }
    }

    pub fn get_protocol_type(&self) -> (r: u16)
        requires
            self.wf(),
        ensures
            r == value_of(self.view.fields(), self.view.calls(), self.view.buf@, PROTOCOL_TYPE as int) as u16,
    {
        self.view.get(PROTOCOL_TYPE) as u16
    }

    pub fn get_checksum(&self) -> (r: Vec<U16BE>)
        requires
            self.wf(),
        ensures
            r@.len() == region_of(self.view.fields(), self.view.calls(), self.view.buf@, CHECKSUM as int).len() / 2,
            forall|j: int| 0 <= j < r@.len() ==> r@[j].number as nat == field_value(
                region_of(self.view.fields(), self.view.calls(), self.view.buf@, CHECKSUM as int),
                2 * j,
                0,
                16,
                Endianness::Big,
            ),
    {
        u16_elements(self.view.get_raw(CHECKSUM))
    }

    pub fn payload(&self) -> (r: &[u8])
        requires
            self.wf(),
        ensures
            r@ == payload_of(self.view.fields(), self.view.calls(), self.view.buf@),
    {
        self.view.payload()
    }
}

/// A read-write view of a GRE packet.
pub struct MutableGrePacket<'p> {
    pub view: MutablePacketView<'p>,
}

impl<'p> MutableGrePacket<'p> {
    pub open spec fn wf(&self) -> bool {
        self.view.layout.wf() && self.view.fields().len() == 15 && Gre::fields_spec(self.view.fields())
    }

    /// A view of `buf`, when it holds the four bytes of the fixed header.
    pub fn new(buf: &'p mut [u8]) -> (r: Option<MutableGrePacket<'p>>)
        ensures
            r is Some <==> old(buf)@.len() >= 4,
            r matches Some(p) ==> p.wf() && p.view.bytes() == old(buf)@,
    {
        match view_of_mut(Gre::schema(), buf) {
            Some(view) => Some(MutableGrePacket { view }),
            None => None,
        }
    }

    fn set_flag(&mut self, k: usize, v: u8)
        requires
            old(self).wf(),
            k < 15,
        ensures
            final(self).wf(),
            final(self).view.layout == old(self).view.layout,
            final(self).view.bytes() == store_value(old(self).view.fields(), old(self).view.calls(), old(self).view.bytes(), k as int, v as u64),
    {
        self.view.set(k, v as u64)
    }

    pub fn set_checksum_present(&mut self, v: u8)
        requires
            old(self).wf(),
        ensures
            final(self).wf(),
            final(self).view.bytes() == store_value(
                old(self).view.fields(), old(self).view.calls(),
                old(self).view.bytes(),
                CHECKSUM_PRESENT as int,
                v as u64,
            ),
    {
        self.set_flag(CHECKSUM_PRESENT, v)
    }

    pub fn set_key_present(&mut self, v: u8)
        requires
            old(self).wf(),
        ensures
            final(self).wf(),
            final(self).view.bytes() == store_value(
                old(self).view.fields(), old(self).view.calls(),
                old(self).view.bytes(),
                KEY_PRESENT as int,
                v as u64,
            ),
    {
        self.set_flag(KEY_PRESENT, v)
    }

    pub fn set_protocol_type(&mut self, v: u16)
        requires
            old(self).wf(),
        ensures
            final(self).wf(),
            final(self).view.bytes() == store_value(
                old(self).view.fields(), old(self).view.calls(),
                old(self).view.bytes(),
                PROTOCOL_TYPE as int,
                v as u64,
            ),
    {
        self.view.set(PROTOCOL_TYPE, v as u64)
    }

    pub fn get_checksum_present(&self) -> (r: u8)
        requires
            self.wf(),
        ensures
            r == value_of(self.view.fields(), self.view.calls(), self.view.bytes(), CHECKSUM_PRESENT as int) as u8,
    {
        self.view.get(CHECKSUM_PRESENT) as u8
    }

    pub fn get_protocol_type(&self) -> (r: u16)
        requires
            self.wf(),
        ensures
            r == value_of(self.view.fields(), self.view.calls(), self.view.bytes(), PROTOCOL_TYPE as int) as u16,
    {
        self.view.get(PROTOCOL_TYPE) as u16
    }

    /// The checksum field as numbers.
    pub fn get_checksum(&self) -> (r: Vec<U16BE>)
        requires
            self.wf(),
        ensures
            r@.len() == region_of(self.view.fields(), self.view.calls(), self.view.bytes(), CHECKSUM as int).len() / 2,
            forall|j: int| 0 <= j < r@.len() ==> r@[j].number as nat == field_value(
                region_of(self.view.fields(), self.view.calls(), self.view.bytes(), CHECKSUM as int),
                2 * j,
                0,
                16,
                Endianness::Big,
            ),
    {
        u16_elements(self.view.get_raw(CHECKSUM))
    }

    /// The offset field as numbers.
    pub fn get_offset(&self) -> (r: Vec<U16BE>)
        requires
            self.wf(),
        ensures
            r@.len() == region_of(self.view.fields(), self.view.calls(), self.view.bytes(), OFFSET as int).len() / 2,
            forall|j: int| 0 <= j < r@.len() ==> r@[j].number as nat == field_value(
                region_of(self.view.fields(), self.view.calls(), self.view.bytes(), OFFSET as int),
                2 * j,
                0,
                16,
                Endianness::Big,
            ),
    {
        u16_elements(self.view.get_raw(OFFSET))
    }

    /// The key field as numbers.
    pub fn get_key(&self) -> (r: Vec<U32BE>)
        requires
            self.wf(),
        ensures
            r@.len() == region_of(self.view.fields(), self.view.calls(), self.view.bytes(), KEY as int).len() / 4,
            forall|j: int| 0 <= j < r@.len() ==> r@[j].number as nat == field_value(
                region_of(self.view.fields(), self.view.calls(), self.view.bytes(), KEY as int),
                4 * j,
                0,
                32,
                Endianness::Big,
            ),
    {
        u32_elements(self.view.get_raw(KEY))
    }

    /// The sequence number field as numbers.
    pub fn get_sequence(&self) -> (r: Vec<U32BE>)
        requires
            self.wf(),
        ensures
            r@.len() == region_of(self.view.fields(), self.view.calls(), self.view.bytes(), SEQUENCE as int).len() / 4,
            forall|j: int| 0 <= j < r@.len() ==> r@[j].number as nat == field_value(
                region_of(self.view.fields(), self.view.calls(), self.view.bytes(), SEQUENCE as int),
                4 * j,
                0,
                32,
                Endianness::Big,
            ),
    {
        u32_elements(self.view.get_raw(SEQUENCE))
    }

    /// Writes `vals` into the checksum field, 2 bytes each; they must fit
    /// its declared length and the buffer.
    pub fn set_checksum(&mut self, vals: &[U16BE])
        requires
            old(self).wf(),
            2 * vals@.len() <= declared_len(old(self).view.fields(), old(self).view.calls(), old(self).view.bytes(), CHECKSUM as int),
            field_pos(old(self).view.fields(), old(self).view.calls(), old(self).view.bytes(), CHECKSUM as int) + 2 * vals@.len()
                <= old(self).view.bytes().len(),
        ensures
            final(self).wf(),
            final(self).view.bytes() == store_bytes(
                old(self).view.bytes(),
                field_pos(old(self).view.fields(), old(self).view.calls(), old(self).view.bytes(), CHECKSUM as int) as int,
                be16_bytes(vals@),
            ),
    {
        let b = u16_bytes(vals);
        self.view.set_raw(CHECKSUM, b.as_slice())
    }

    /// Writes `vals` into the offset field, 2 bytes each; they must fit
    /// its declared length and the buffer.
    pub fn set_offset(&mut self, vals: &[U16BE])
        requires
            old(self).wf(),
            2 * vals@.len() <= declared_len(old(self).view.fields(), old(self).view.calls(), old(self).view.bytes(), OFFSET as int),
            field_pos(old(self).view.fields(), old(self).view.calls(), old(self).view.bytes(), OFFSET as int) + 2 * vals@.len()
                <= old(self).view.bytes().len(),
        ensures
            final(self).wf(),
            final(self).view.bytes() == store_bytes(
                old(self).view.bytes(),
                field_pos(old(self).view.fields(), old(self).view.calls(), old(self).view.bytes(), OFFSET as int) as int,
                be16_bytes(vals@),
            ),
    {
        let b = u16_bytes(vals);
        self.view.set_raw(OFFSET, b.as_slice())
    }

    /// Writes `vals` into the key field, 4 bytes each; they must fit
    /// its declared length and the buffer.
    pub fn set_key(&mut self, vals: &[U32BE])
        requires
            old(self).wf(),
            4 * vals@.len() <= declared_len(old(self).view.fields(), old(self).view.calls(), old(self).view.bytes(), KEY as int),
            field_pos(old(self).view.fields(), old(self).view.calls(), old(self).view.bytes(), KEY as int) + 4 * vals@.len()
                <= old(self).view.bytes().len(),
        ensures
            final(self).wf(),
            final(self).view.bytes() == store_bytes(
                old(self).view.bytes(),
                field_pos(old(self).view.fields(), old(self).view.calls(), old(self).view.bytes(), KEY as int) as int,
                be32_bytes(vals@),
            ),
    {
        let b = u32_bytes(vals);
        self.view.set_raw(KEY, b.as_slice())
    }

    /// Writes `vals` into the sequence field, 4 bytes each; they must fit
    /// its declared length and the buffer.
    pub fn set_sequence(&mut self, vals: &[U32BE])
        requires
            old(self).wf(),
            4 * vals@.len() <= declared_len(old(self).view.fields(), old(self).view.calls(), old(self).view.bytes(), SEQUENCE as int),
            field_pos(old(self).view.fields(), old(self).view.calls(), old(self).view.bytes(), SEQUENCE as int) + 4 * vals@.len()
                <= old(self).view.bytes().len(),
        ensures
            final(self).wf(),
            final(self).view.bytes() == store_bytes(
                old(self).view.bytes(),
                field_pos(old(self).view.fields(), old(self).view.calls(), old(self).view.bytes(), SEQUENCE as int) as int,
                be32_bytes(vals@),
            ),
    {
        let b = u32_bytes(vals);
        self.view.set_raw(SEQUENCE, b.as_slice())
    }

    pub fn payload(&self) -> (r: &[u8])
        requires
            self.wf(),
        ensures
            r@ == payload_of(self.view.fields(), self.view.calls(), self.view.bytes()),
    {
        self.view.payload()
    }
}

} // verus!
