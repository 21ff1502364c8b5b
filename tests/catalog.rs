use libpacket::gre::{GrePacket, MutableGrePacket, U16BE, U32BE};
use libpacket::quic::{Frame, FrameType, QuicPacket, Version};
use libpacket::uascsi::UASPacket;
use libpacket::usb::Transfer;
use libpacket::usbmon::{DescriptorPacket, UsbMonPacket, XferPacket};

#[test]
fn gre_flags_open_optional_fields() {
    let mut packet = [0u8; 8];
    {
        let mut gre = MutableGrePacket::new(&mut packet[..]).unwrap();
        gre.set_checksum_present(1);
        assert_eq!(gre.get_checksum().len(), 1);
        assert_eq!(gre.get_offset().len(), 1);
        assert_eq!(gre.get_key().len(), 0);
        assert_eq!(gre.get_sequence().len(), 0);
    }
    assert_eq!(packet, [0x80, 0, 0, 0, 0, 0, 0, 0]);

    let mut packet = [0u8; 12];
    {
        let mut gre = MutableGrePacket::new(&mut packet[..]).unwrap();
        gre.set_key_present(1);
        gre.set_protocol_type(0x86dd);
        assert_eq!(gre.get_checksum().len(), 0);
        assert_eq!(gre.get_key().len(), 1);
        assert_eq!(gre.payload().len(), 4);
    }
    let gre = GrePacket::new(&packet[..]).unwrap();
    assert_eq!(gre.get_protocol_type(), 0x86dd);
    assert_eq!(packet[0], 0x20);
}

#[test]
fn gre_needs_its_fixed_header() {
    let mut short = [0u8; 3];
    assert!(MutableGrePacket::new(&mut short[..]).is_none());
}

fn initial() -> Vec<u8> {
    vec![
        0xc0, // long header, fixed bit, initial, one-byte packet number
        0x00, 0x00, 0x00, 0x01, // version 1
        0x01, 0xaa, // destination id
        0x01, 0xbb, // source id
        0x00, // no token
        0x02, // length: packet number and one frame byte
        0x05, // packet number
        0x01, // a ping frame
    ]
}

#[test]
fn quic_initial_packet_fields() {
    let bytes = initial();
    let packets = QuicPacket::new(&bytes).unwrap();
    assert_eq!(packets.len(), 1);
    let p = &packets[0];
    assert!(matches!(p, QuicPacket::Initial(_)));
    assert_eq!(p.version(), Some(Version(1)));
    assert_eq!(p.dest_id(), vec![0xaa]);
    assert_eq!(p.src_id(), Some(vec![0xbb]));
    assert_eq!(p.token(), Some(vec![]));
    assert_eq!(p.packet_number(), Some(5));
    assert_eq!(p.frames(), Some(&[0x01u8][..]));
    assert_eq!(p.remaining().len(), 0);
    assert_eq!(p.packet().len(), 13);

    let frames = Frame::new(p.frames().unwrap()).unwrap();
    assert_eq!(frames.len(), 1);
    assert!(matches!(frames[0], Frame::Ping(_)));
    assert_eq!(frames[0].ty(), FrameType(1));
}

#[test]
fn quic_coalesced_packets_and_short_input() {
    let mut bytes = initial();
    bytes.extend_from_slice(&[0x40, 1, 2, 3, 4, 5, 6, 7, 8, 0x09, 0xee]);
    // The initial packet's remaining field carries the short-header packet.
    let packets = QuicPacket::new(&bytes).unwrap();
    assert_eq!(packets.len(), 2);
    assert!(matches!(packets[1], QuicPacket::OneRtt(_)));
    assert_eq!(packets[1].dest_id(), vec![1, 2, 3, 4, 5, 6, 7, 8]);
    assert_eq!(packets[1].packet_number(), Some(9));
    assert_eq!(packets[1].frames(), Some(&[0xeeu8][..]));
    assert_eq!(packets[1].src_id(), None);
    assert_eq!(packets[1].version(), None);

    assert!(QuicPacket::new(&[0xc0, 0, 0]).is_none());
    assert_eq!(QuicPacket::new(&[]).unwrap().len(), 0);
}

#[test]
fn quic_frames_merge_padding() {
    let frames = Frame::new(&[0, 0, 0, 1]).unwrap();
    assert_eq!(frames.len(), 2);
    assert!(matches!(frames[0], Frame::Padding(_, 3)));
    assert!(matches!(frames[1], Frame::Ping(_)));
    assert!(Frame::new(&[0xff]).is_none());
}

#[test]
fn quic_crypto_frame_payload_length() {
    // crypto frame: offset 0, length 2, two bytes of data, then a ping
    let frames = Frame::new(&[0x06, 0x00, 0x02, 0xaa, 0xbb, 0x01]).unwrap();
    assert_eq!(frames.len(), 2);
    assert!(matches!(frames[0], Frame::Crypto(_)));
    assert_eq!(frames[0].remaining(), &[0x01]);
}

#[test]
fn uas_units_by_first_byte() {
    let mut cmd = vec![1u8, 0, 0, 1, 0, 0, 0, 0, 0];
    cmd.extend_from_slice(&[18, 0, 0, 0, 36]);
    let u = UASPacket::new(&cmd).unwrap();
    assert!(u.is_command());
    assert!(!u.is_read_ready());
    assert_eq!(u.payload(), &[18, 0, 0, 0, 36]);

    let rr = [6u8, 0, 0, 7];
    let u = UASPacket::new(&rr).unwrap();
    assert!(u.is_read_ready());
    assert_eq!(u.payload().len(), 0);

    assert!(UASPacket::new(&[]).is_none());
    assert!(UASPacket::new(&[2, 0, 0, 0]).is_none());
    assert!(UASPacket::new(&[1, 0]).is_none());
}

#[test]
fn usb_descriptors_by_type_byte() {
    let mut dev = vec![18u8, 1];
    dev.extend_from_slice(&[0; 16]);
    dev.push(0x42);
    let d = DescriptorPacket::new(&dev).unwrap();
    assert!(d.is_device());
    assert!(!d.is_config());
    assert_eq!(d.payload(), &[0x42]);
    assert_eq!(d.packet().len(), 19);

    let ep = [7u8, 5, 0x81, 2, 0x00, 0x02, 0];
    let d = DescriptorPacket::new(&ep).unwrap();
    assert!(d.is_endpoint());
    assert!(!d.is_interface());

    assert!(DescriptorPacket::new(&[9, 3, 0, 0]).is_none());
    assert!(DescriptorPacket::new(&[9]).is_none());
}

fn usbmon(xfer: u8) -> Vec<u8> {
    let mut b = vec![0u8; 64];
    b[9] = xfer; // transfer type
    b[10] = 0x81; // endpoint
    b[11] = 3; // device
    b[12] = 2; // bus, little-endian
    b[40] = 0x80; // first setup byte
    b.extend_from_slice(&[1, 2, 3]);
    b
}

#[test]
fn usbmon_transfers_and_flows() {
    let bytes = usbmon(2);
    match XferPacket::new(&bytes).unwrap() {
        XferPacket::Ctl(setup, data) => {
            assert_eq!(setup.to_primitive_values().0, 0x80);
            assert_eq!(data, &[1, 2, 3]);
        }
        other => panic!("{:?}", other),
    }
    let bulk = usbmon(3);
    assert!(matches!(XferPacket::new(&bulk).unwrap(), XferPacket::Blk(_, _)));
    let iso = usbmon(0);
    assert_eq!(XferPacket::new(&iso).unwrap().payload(), &[1, 2, 3]);

    let m = UsbMonPacket::new(&bytes).unwrap();
    assert!(m.filter_flow(2, 3, 0x81).is_some());
    let m = UsbMonPacket::new(&bytes).unwrap();
    assert!(m.filter_flow(2, 4, 0x81).is_none());
    assert!(XferPacket::new(&[0u8; 63]).is_none());
}

#[test]
fn usb_transfers_take_any_buffer() {
    assert!(matches!(Transfer::new(&[1, 2]), Some(Transfer::Ctl(_))));
}

#[test]
fn quic_type_names() {
    assert_eq!(FrameType(0x00).name(), "padding");
    assert_eq!(FrameType(0x03).name(), "ack");
    assert_eq!(FrameType(0x0f).name(), "stream");
    assert_eq!(FrameType(0x1e).name(), "handshake-done");
    assert_eq!(FrameType(0x40).name(), "unknown");
    assert_eq!(libpacket::quic::LongPacketType(1).name(), "0-rtt");
    assert_eq!(libpacket::quic::HeaderForm(1).name(), "long");
    let bytes = initial();
    let packets = QuicPacket::new(&bytes).unwrap();
    assert_eq!(packets[0].kind_name(), "initial");
}

#[test]
fn gre_optional_fields_are_written() {
    let mut packet = [0u8; 16];
    {
        let mut gre = MutableGrePacket::new(&mut packet[..]).unwrap();
        gre.set_checksum_present(1);
        gre.set_key_present(1);
        gre.set_checksum(&[U16BE { number: 0xabcd }]);
        gre.set_offset(&[U16BE { number: 0x0102 }]);
        gre.set_key(&[U32BE { number: 0x11223344 }]);
        assert_eq!(gre.get_checksum()[0].number, 0xabcd);
        assert_eq!(gre.get_key()[0].number, 0x11223344);
    }
    assert_eq!(packet[4..12], [0xab, 0xcd, 0x01, 0x02, 0x11, 0x22, 0x33, 0x44]);
}

#[test]
fn quic_zero_bytes_are_one_padding_frame() {
    let frames = Frame::new(&[0, 0, 0]).unwrap();
    assert_eq!(frames.len(), 1);
    assert!(matches!(frames[0], Frame::Padding(_, 3)));
    assert!(Frame::new(&[0x1f]).is_none());
}
