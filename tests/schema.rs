use libpacket::bits::Endianness;
use libpacket::expr::{eval_expr, Expr, MinMax, NoCalls};
use libpacket::layout::Layout;
use libpacket::lengthexpr::parse_length_expr;
use libpacket::schema::{packet, packet_from_text, FieldDecl, Packet, SchemaError};
use libpacket::types::{parse_ty, parse_type, EndiannessSpecified, Type, TypeError};
use libpacket::view::{
    nested_packets, packet_size_of_value, FieldValue, MutablePacketView, OwnedPacketView, PacketView,
};

fn decl(name: &str, ty: &str) -> FieldDecl {
    FieldDecl { name: name.to_string(), ty: ty.to_string(), is_payload: false, length: None, construct_with: None }
}

fn names(v: &[&str]) -> Vec<String> {
    v.iter().map(|s| s.to_string()).collect()
}

#[test]
fn test_parse_ty() {
    assert_eq!(parse_ty("u8"), Some((8, Endianness::Big, EndiannessSpecified::No)));
    assert_eq!(parse_ty("u21be"), Some((21, Endianness::Big, EndiannessSpecified::Yes)));
    assert_eq!(parse_ty("u21le"), Some((21, Endianness::Little, EndiannessSpecified::Yes)));
    assert_eq!(parse_ty("u21he"), Some((21, Endianness::Host, EndiannessSpecified::Yes)));
    assert_eq!(parse_ty("u9"), Some((9, Endianness::Big, EndiannessSpecified::No)));
    assert_eq!(parse_ty("u16"), Some((16, Endianness::Big, EndiannessSpecified::No)));
    assert_eq!(parse_ty("uable"), None);
    assert_eq!(parse_ty("u21re"), None);
    assert_eq!(parse_ty("i21be"), None);
}

#[test]
fn parse_ty_refuses_widths_that_do_not_fit() {
    assert_eq!(parse_ty("u99999999999999999999999"), None);
    assert_eq!(parse_ty("u"), None);
    assert_eq!(parse_ty("u8 "), None);
}

#[test]
fn parse_type_resolves_tags() {
    match parse_type("Vec<u16be>", true) {
        Ok(Type::Vector(inner)) => match *inner {
            Type::Primitive(tag, 16, Endianness::Big) => assert_eq!(tag, "u16be"),
            other => panic!("{:?}", other),
        },
        other => panic!("{:?}", other),
    }
    match parse_type("HeaderForm", true) {
        Ok(Type::Misc(name)) => assert_eq!(name, "HeaderForm"),
        other => panic!("{:?}", other),
    }
    assert_eq!(parse_type("u16", true).unwrap_err(), TypeError::EndiannessRequired);
    assert!(parse_type("u16", false).is_ok());
    assert_eq!(parse_type("&u8", true).unwrap_err(), TypeError::InvalidType);
    assert!(matches!(parse_type("Vec<", true), Ok(Type::Misc(_))));
    assert!(matches!(parse_type("Vec<u8x", true), Ok(Type::Misc(_))));
    assert_eq!(parse_type("Vec<Vec<u8>>", true).unwrap_err(), TypeError::VectorOfVector);
}

#[test]
fn minimum_size_rounds_fixed_bits_up() {
    let p = packet(vec![decl("a", "u3"), decl("b", "u5"), decl("c", "u8")], "Small".to_string()).unwrap();
    let layout = Layout::new(p, NoCalls).unwrap();
    assert_eq!(layout.minimum_packet_size(), 2);

    let p = packet(vec![decl("a", "u3"), decl("b", "u6")], "Odd".to_string()).unwrap();
    assert_eq!(Layout::new(p, NoCalls).unwrap().minimum_packet_size(), 2);
}

fn banana() -> Packet {
    let len = parse_length_expr("banana", &names(&["banana", "payload"]), 1, &NoCalls).unwrap();
    let mut payload = decl("payload", "Vec<u8>");
    payload.is_payload = true;
    payload.length = Some(len);
    packet(vec![decl("banana", "u8"), payload], "Banana".to_string()).unwrap()
}

#[test]
fn length_field_bounds_the_payload() {
    let buf = [3u8, 9, 9, 9, 9];
    let view = PacketView::new(Layout::new(banana(), NoCalls).unwrap(), &buf).unwrap();
    assert_eq!(view.get(0), 3);
    assert_eq!(view.get_raw(1), &[9, 9, 9]);
    assert_eq!(view.payload(), &[9, 9, 9]);
    assert_eq!(view.packet_size(), 4);
    let other = [3u8, 9, 9, 9, 1, 2, 3];
    let view = PacketView::new(Layout::new(banana(), NoCalls).unwrap(), &other).unwrap();
    assert_eq!(view.get_raw(1), &[9, 9, 9]);
}

#[test]
fn payload_is_clipped_to_the_buffer() {
    // The declared payload runs past the end: it stops at the end.
    let buf = [10u8, 1, 2, 3];
    let view = PacketView::new(Layout::new(banana(), NoCalls).unwrap(), &buf).unwrap();
    assert_eq!(view.payload(), &[1, 2, 3]);

    // The payload starts past the end of the buffer: it is empty.
    let len = parse_length_expr("n", &names(&["n", "data", "payload"]), 1, &NoCalls).unwrap();
    let mut data = decl("data", "Vec<u8>");
    data.length = Some(len);
    let mut payload = decl("payload", "Vec<u8>");
    payload.is_payload = true;
    let p = packet(vec![decl("n", "u8"), data, payload], "Gap".to_string()).unwrap();
    let buf = [5u8, 1, 2];
    let view = PacketView::new(Layout::new(p, NoCalls).unwrap(), &buf).unwrap();
    assert_eq!(view.get_raw(1), &[1, 2]);
    assert_eq!(view.payload().len(), 0);
}

#[test]
fn too_short_buffers_give_no_view() {
    let buf: [u8; 0] = [];
    assert!(PacketView::new(Layout::new(banana(), NoCalls).unwrap(), &buf).is_none());
}

#[test]
fn mutable_views_write_through() {
    let mut buf = [0u8; 5];
    {
        let mut view = MutablePacketView::new(Layout::new(banana(), NoCalls).unwrap(), &mut buf).unwrap();
        view.set(0, 2);
        view.set_raw(1, &[7, 8]);
        assert_eq!(view.payload(), &[7, 8]);
        let ro = view.consume_to_immutable();
        assert_eq!(ro.get(0), 2);
    }
    assert_eq!(buf, [2, 7, 8, 0, 0]);
}

#[test]
fn two_payloads_are_refused() {
    let mut a = decl("a", "Vec<u8>");
    a.is_payload = true;
    a.length = Some(Expr::Lit(1));
    let mut b = decl("b", "Vec<u8>");
    b.is_payload = true;
    assert_eq!(packet(vec![a, b], "Two".to_string()).unwrap_err(), SchemaError::MultiplePayload(0, 1));
}

#[test]
fn a_middle_variable_field_needs_a_length() {
    let p = packet(vec![decl("a", "u8"), decl("b", "Vec<u8>"), decl("c", "u8")], "Mid".to_string());
    assert_eq!(p.unwrap_err(), SchemaError::MissingLength(1));
    // As the last field it needs none.
    assert!(packet(vec![decl("a", "u8"), decl("b", "Vec<u8>")], "Last".to_string()).is_ok());
}

#[test]
fn each_schema_error() {
    let one = |d: FieldDecl| packet(vec![decl("x", "u8"), d], "E".to_string()).unwrap_err();
    assert_eq!(one(decl("a", "u16")), SchemaError::EndiannessRequired(1));
    assert_eq!(one(decl("a", "&u8")), SchemaError::InvalidType(1));
    assert_eq!(one(decl("a", "Vec<Vec<u8>>")), SchemaError::VectorOfVector(1));
    assert_eq!(one(decl("a", "Vec<u4>")), SchemaError::UnsupportedSubByteVectorElement(1));
    assert_eq!(one(decl("a", "u65be")), SchemaError::UnsupportedWidth(1));
    assert_eq!(one(decl("a", "u0")), SchemaError::UnsupportedWidth(1));
    assert_eq!(one(decl("a", "Flags")), SchemaError::MissingConstructWith(1));
    let mut m = decl("a", "Flags");
    m.construct_with = Some(vec!["Other".to_string()]);
    assert_eq!(one(m), SchemaError::ConstructWithNotPrimitive(1));
    let mut m = decl("a", "Flags");
    m.construct_with = Some(vec!["u4".to_string(), "u70be".to_string()]);
    assert_eq!(one(m), SchemaError::UnsupportedWidth(1));
    let mut v = decl("a", "Vec<u8>");
    v.length = Some(Expr::Field(1));
    assert_eq!(one(v), SchemaError::LengthOutOfOrder(1));
}

#[test]
fn semantic_fields_read_their_primitives() {
    let mut m = decl("flags", "Flags");
    m.construct_with = Some(vec!["u4".to_string(), "u12be".to_string()]);
    let p = packet(vec![m, decl("tail", "u8")], "Sem".to_string()).unwrap();
    let layout = Layout::new(p, NoCalls).unwrap();
    assert_eq!(layout.minimum_packet_size(), 3);
    let buf = [0xab, 0xcd, 0xef];
    assert_eq!(libpacket::view::get_args(&layout, &buf, 0), vec![0xa, 0xbcd]);
    assert_eq!(libpacket::view::get_value(&layout, &buf, 1), 0xef);
    let mut out = [0u8; 3];
    libpacket::view::set_args(&layout, &mut out, 0, &[0x1, 0x234]);
    assert_eq!(out, [0x12, 0x34, 0x00]);
}

#[test]
fn vectors_of_wider_elements_decode_each_element() {
    let mut v = decl("words", "Vec<u16le>");
    v.length = Some(Expr::Lit(5));
    let p = packet(vec![v, decl("end", "u8")], "Words".to_string()).unwrap();
    let layout = Layout::new(p, NoCalls).unwrap();
    let buf = [0x01, 0x02, 0x03, 0x04, 0x05, 0x06];
    assert_eq!(libpacket::view::get_elements(&layout, &buf, 0), vec![0x0201, 0x0403]);
}

#[test]
fn length_expressions_follow_precedence() {
    let n = names(&["a", "b", "c"]);
    let vals = vec![3u64, 4];
    let regions: Vec<Vec<u8>> = vec![vec![], vec![]];
    let eval = |t: &str| eval_expr(&parse_length_expr(t, &n, 2, &NoCalls).unwrap(), &vals, &regions, &NoCalls);
    assert_eq!(eval("a + b * 2"), 11);
    assert_eq!(eval("(a | b) * 2"), 14);
    assert_eq!(eval("a | b + 1"), 7);
    assert_eq!(eval("b - a - 1"), 0);
    assert_eq!(eval("a - b"), 0);
    assert_eq!(eval("b / 0"), 0);
    assert_eq!(eval("(b % 3) + 10 / a"), 4);
    assert_eq!(eval("  7 "), 7);
    assert_eq!(eval("0x10 + 0b11 + 0o7 + 1_000 + 4usize + 0xffu8"), 16 + 3 + 7 + 1000 + 4 + 255);
    assert_eq!(eval("18446744073709551615"), u64::MAX);
}

#[test]
fn length_expression_errors() {
    let n = names(&["a", "b"]);
    assert_eq!(parse_length_expr("1x", &n, 1, &NoCalls).unwrap_err(), SchemaError::InvalidLengthLiteral(1));
    assert_eq!(parse_length_expr("99999999999999999999999", &n, 1, &NoCalls).unwrap_err(), SchemaError::InvalidLengthLiteral(1));
    assert_eq!(parse_length_expr("2.5", &n, 1, &NoCalls).unwrap_err(), SchemaError::InvalidLengthLiteral(1));
    assert_eq!(parse_length_expr("0x", &n, 1, &NoCalls).unwrap_err(), SchemaError::InvalidLengthLiteral(1));
    assert_eq!(parse_length_expr("300u8", &n, 1, &NoCalls).unwrap_err(), SchemaError::InvalidLengthLiteral(1));
    assert_eq!(parse_length_expr("0b102", &n, 1, &NoCalls).unwrap_err(), SchemaError::InvalidLengthLiteral(1));
    assert_eq!(parse_length_expr("\"3\"", &n, 1, &NoCalls).unwrap_err(), SchemaError::InvalidLengthLiteral(1));
    assert_eq!(parse_length_expr("a; 1", &n, 1, &NoCalls).unwrap_err(), SchemaError::NonIntegerLengthToken(1));
    assert_eq!(parse_length_expr("a, 1", &n, 1, &NoCalls).unwrap_err(), SchemaError::MalformedLength(1));
    assert_eq!(parse_length_expr("a $ 1", &n, 1, &NoCalls).unwrap_err(), SchemaError::NonIntegerLengthToken(1));
    assert_eq!(parse_length_expr("a.len()", &n, 1, &NoCalls).unwrap_err(), SchemaError::MalformedLength(1));
    assert_eq!(parse_length_expr("b", &n, 1, &NoCalls).unwrap_err(), SchemaError::UnknownLengthName(1));
    assert_eq!(parse_length_expr("(a", &n, 1, &NoCalls).unwrap_err(), SchemaError::MalformedLength(1));
    assert_eq!(parse_length_expr("a +", &n, 1, &NoCalls).unwrap_err(), SchemaError::MalformedLength(1));
    assert_eq!(parse_length_expr("", &n, 1, &NoCalls).unwrap_err(), SchemaError::MalformedLength(1));
}

#[test]
fn view_names() {
    let p = banana();
    assert_eq!(p.packet_name(), "BananaPacket");
    assert_eq!(p.packet_name_mut(), "MutableBananaPacket");
}

#[test]
fn layouts_refuse_unplaceable_widths() {
    let p = Packet {
        base_name: "Wide".to_string(),
        fields: vec![libpacket::schema::Field {
            name: "w".to_string(),
            ty: Type::Primitive("u70be".to_string(), 70, Endianness::Big),
            packet_length: None,
            is_payload: false,
            construct_with: None,
        }],
    };
    assert!(Layout::new(p, NoCalls).is_none());
    let nested = Packet {
        base_name: "Nested".to_string(),
        fields: vec![libpacket::schema::Field {
            name: "v".to_string(),
            ty: Type::Vector(Box::new(Type::Vector(Box::new(Type::Primitive("u8".to_string(), 8, Endianness::Big))))),
            packet_length: None,
            is_payload: false,
            construct_with: None,
        }],
    };
    assert!(Layout::new(nested, NoCalls).is_none());
}

#[test]
fn populate_writes_fields_in_order() {
    let layout = Layout::new(banana(), NoCalls).unwrap();
    let mut buf = [0u8; 6];
    {
        let mut view = MutablePacketView::new(layout, &mut buf).unwrap();
        let vals = vec![FieldValue::Number(3), FieldValue::Bytes(vec![4, 5, 6])];
        assert!(view.populate(&vals));
    }
    assert_eq!(buf, [3, 4, 5, 6, 0, 0]);

    // Four bytes do not fit a payload declared three bytes long.
    let layout = Layout::new(banana(), NoCalls).unwrap();
    let mut buf = [0u8; 6];
    let mut view = MutablePacketView::new(layout, &mut buf).unwrap();
    let vals = vec![FieldValue::Number(3), FieldValue::Bytes(vec![4, 5, 6, 7])];
    assert!(!view.populate(&vals));
    // A value of the wrong kind does not suit its field.
    let vals = vec![FieldValue::Bytes(vec![1]), FieldValue::Bytes(vec![])];
    assert!(!view.populate(&vals));
}

#[test]
fn size_of_a_value() {
    let layout = Layout::new(banana(), NoCalls).unwrap();
    let vals = vec![FieldValue::Number(3), FieldValue::Bytes(vec![4, 5, 6])];
    assert_eq!(packet_size_of_value(&layout, &vals), Some(4));
}

#[test]
fn nested_packets_follow_each_other() {
    // Each element: a length byte, then that many bytes.
    let elem = Layout::new(banana(), NoCalls).unwrap();
    let buf = [2u8, 7, 7, 0, 1, 9];
    assert_eq!(nested_packets(&elem, &buf), vec![0, 3, 4]);
    let empty: [u8; 0] = [];
    assert_eq!(nested_packets(&elem, &empty), Vec::<usize>::new());
}

#[test]
fn owned_views_hold_their_buffer() {
    let v = OwnedPacketView::owned(Layout::new(banana(), NoCalls).unwrap(), vec![2, 1, 2, 3]).unwrap();
    assert_eq!(v.get(0), 2);
    assert_eq!(v.payload(), &[1, 2]);
    assert_eq!(v.packet(), &[2, 1, 2, 3]);
    assert!(OwnedPacketView::owned(Layout::new(banana(), NoCalls).unwrap(), vec![]).is_none());
}

#[test]
fn vectors_of_wider_elements_store_each_element() {
    let mut v = decl("words", "Vec<u16be>");
    v.length = Some(Expr::Lit(4));
    let p = packet(vec![v, decl("end", "u8")], "Words".to_string()).unwrap();
    let layout = Layout::new(p, NoCalls).unwrap();
    let mut buf = [0u8; 5];
    libpacket::view::set_elements(&layout, &mut buf, 0, &[0x0102, 0x0304]);
    assert_eq!(buf, [1, 2, 3, 4, 0]);
    assert_eq!(libpacket::view::get_elements(&layout, &buf, 0), vec![0x0102, 0x0304]);
}

#[test]
fn gre_length_expression_from_text() {
    let n = names(&["checksum_present", "routing_present", "key_present"]);
    let e = parse_length_expr("(checksum_present | routing_present) * 2", &n, 3, &NoCalls).unwrap();
    let regions: Vec<Vec<u8>> = vec![vec![], vec![], vec![]];
    assert_eq!(eval_expr(&e, &vec![1, 0, 0], &regions, &NoCalls), 2);
    assert_eq!(eval_expr(&e, &vec![1, 1, 0], &regions, &NoCalls), 2);
    assert_eq!(eval_expr(&e, &vec![0, 0, 1], &regions, &NoCalls), 0);
}

#[test]
fn borrowed_read_only_views_and_owned_writes() {
    let mut buf = [2u8, 7, 8, 0];
    {
        let mut view = MutablePacketView::new(Layout::new(banana(), NoCalls).unwrap(), &mut buf).unwrap();
        {
            let ro = view.to_immutable();
            assert_eq!(ro.get(0), 2);
            assert_eq!(ro.payload(), &[7, 8]);
        }
        view.set(0, 1);
        assert_eq!(view.to_immutable().payload(), &[7]);
    }
    let mut owned = OwnedPacketView::owned(Layout::new(banana(), NoCalls).unwrap(), vec![0, 0, 0]).unwrap();
    owned.set(0, 2);
    owned.set_raw(1, &[5, 6]);
    assert_eq!(owned.packet(), &[2, 5, 6]);
    assert_eq!(owned.to_immutable().get_raw(1), &[5, 6]);
    assert!(owned.populate(&vec![FieldValue::Number(1), FieldValue::Bytes(vec![9])]));
    assert_eq!(owned.packet(), &[1, 9, 6]);
}

#[test]
fn calls_pass_through_and_are_evaluated_by_the_layout() {
    let n = names(&["n", "m", "payload"]);
    let e = parse_length_expr("max(n, m) * 2 + min(n, m, 1) + max()", &n, 2, &MinMax).unwrap();
    let regions: Vec<Vec<u8>> = vec![vec![], vec![]];
    assert_eq!(eval_expr(&e, &vec![3, 4], &regions, &MinMax), 8 + 1);
    assert_eq!(parse_length_expr("twice(n)", &n, 2, &MinMax).unwrap_err(), SchemaError::UnknownLengthName(2));
    assert_eq!(parse_length_expr("max(n", &n, 2, &MinMax).unwrap_err(), SchemaError::MalformedLength(2));
    assert_eq!(parse_length_expr("max(n)", &n, 2, &NoCalls).unwrap_err(), SchemaError::UnknownLengthName(2));

    // A payload whose length a function gives, evaluated when the packet is read.
    let len = parse_length_expr("min(n, 3)", &names(&["n", "payload"]), 1, &MinMax).unwrap();
    let mut payload = decl("payload", "Vec<u8>");
    payload.is_payload = true;
    payload.length = Some(len);
    let p = packet(vec![decl("n", "u8"), payload], "Capped".to_string()).unwrap();
    let buf = [9u8, 1, 2, 3, 4, 5, 6];
    let view = PacketView::new(Layout::new(p, MinMax).unwrap(), &buf).unwrap();
    assert_eq!(view.payload(), &[1, 2, 3]);
}

#[test]
fn fields_read_back_as_values() {
    let buf = [3u8, 9, 8, 7, 6];
    let layout = Layout::new(banana(), NoCalls).unwrap();
    let vals = libpacket::view::read_all(&layout, &buf);
    assert!(matches!(vals[0], FieldValue::Number(3)));
    match &vals[1] {
        FieldValue::Bytes(b) => assert_eq!(b, &vec![9, 8, 7]),
        other => panic!("{:?}", other),
    }
}

fn text(name: &str, ty: &str, length: Option<&str>, payload: bool) -> libpacket::schema::FieldText {
    libpacket::schema::FieldText {
        name: name.to_string(),
        ty: ty.to_string(),
        is_payload: payload,
        length: length.map(|l| l.to_string()),
        construct_with: None,
    }
}

#[test]
fn schema_with_length_text() {
    let p = packet_from_text(vec![text("banana", "u8", None, false), text("payload", "Vec<u8>", Some("banana"), true)], "Banana".to_string(), &NoCalls).unwrap();
    let buf = [3u8, 9, 9, 9, 9];
    let view = PacketView::new(Layout::new(p, NoCalls).unwrap(), &buf).unwrap();
    assert_eq!(view.payload(), &[9, 9, 9]);
    let bad = packet_from_text(vec![text("a", "u8", None, false), text("b", "Vec<u8>", Some("2.5"), true)], "Bad".to_string(), &NoCalls);
    assert_eq!(bad.unwrap_err(), SchemaError::InvalidLengthLiteral(1));
    let bad = packet_from_text(vec![text("a", "u8", None, false), text("b", "Vec<u8>", Some("a $ 1"), true)], "Bad".to_string(), &NoCalls);
    assert_eq!(bad.unwrap_err(), SchemaError::NonIntegerLengthToken(1));
    let bad = packet_from_text(vec![text("a", "Vec<u8>", None, false), text("b", "u8", None, false)], "Bad".to_string(), &NoCalls);
    assert_eq!(bad.unwrap_err(), SchemaError::MissingLength(0));
}

#[test]
fn nested_packets_are_written_one_after_another() {
    let mut items = decl("items", "Vec<Banana>");
    items.length = Some(Expr::Field(0));
    let outer = Layout::new(packet(vec![decl("n", "u8"), items], "Outer".to_string()).unwrap(), NoCalls).unwrap();
    let elem = Layout::new(banana(), NoCalls).unwrap();
    let mut buf = [5u8, 0, 0, 0, 0, 0, 0];
    let vals = vec![
        vec![FieldValue::Number(1), FieldValue::Bytes(vec![7])],
        vec![FieldValue::Number(2), FieldValue::Bytes(vec![8, 9])],
    ];
    assert!(libpacket::view::set_nested(&outer, &mut buf, 1, &elem, &vals));
    assert_eq!(buf, [5, 1, 7, 2, 8, 9, 0]);
    assert_eq!(nested_packets(&elem, &buf[1..6]), vec![0, 2]);
    // Six bytes do not fit the five the field declares.
    let too_many = vec![vec![FieldValue::Number(5), FieldValue::Bytes(vec![1, 2, 3, 4, 5])]];
    assert!(!libpacket::view::set_nested(&outer, &mut buf, 1, &elem, &too_many));
    assert_eq!(buf, [5, 1, 7, 2, 8, 9, 0]);
}
