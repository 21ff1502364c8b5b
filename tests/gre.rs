use libpacket::gre::MutableGrePacket;

#[test]
fn gre_packet_test() {
    let mut packet = [0u8; 4];
    {
        let mut gre_packet = MutableGrePacket::new(&mut packet[..]).unwrap();
        gre_packet.set_protocol_type(0x0800);
        assert_eq!(gre_packet.payload().len(), 0);
    }

    let ref_packet = [
        0x00, /* no flags */
        0x00, /* no flags, version 0 */
        0x08, /* protocol 0x0800 */
        0x00,
    ];

    assert_eq!(&ref_packet[..], &packet[..]);
}

#[test]
fn gre_checksum_test() {
    let mut packet = [0u8; 8];
    {
        let mut gre_packet = MutableGrePacket::new(&mut packet[..]).unwrap();
        gre_packet.set_checksum_present(1);
        assert_eq!(gre_packet.payload().len(), 0);
        assert_eq!(gre_packet.get_checksum().len(), 1);
        assert_eq!(gre_packet.get_offset().len(), 1);
    }

    let ref_packet = [
        0x80, /* checksum on */
        0x00, /* no flags, version 0 */
        0x00, /* protocol 0x0000 */
        0x00, 0x00, /* 16 bits of checksum */
        0x00, 0x00, /* 16 bits of offset */
        0x00,
    ];

    assert_eq!(&ref_packet[..], &packet[..]);
}
