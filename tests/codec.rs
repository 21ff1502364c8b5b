use libpacket::bits::{read_field, write_field, Endianness};
use libpacket::expr::{packet_number, varint, varint_length};

fn mask(width: u8) -> u64 {
    if width == 64 {
        u64::MAX
    } else {
        (1u64 << width) - 1
    }
}

#[test]
fn store_then_read_every_offset_width_and_order() {
    let values = [0u64, 1, 0x5a, 0xdead_beef, 0x0123_4567_89ab_cdef, u64::MAX, 0x8000_0000_0000_0001];
    for order in [Endianness::Big, Endianness::Little, Endianness::Host] {
        for off in 0u8..8 {
            for width in 1u8..=64 {
                for &v in values.iter() {
                    let mut buf = [0xa5u8; 12];
                    write_field(&mut buf, 1, off, width, order, v);
                    assert_eq!(read_field(&buf, 1, off, width, order), v & mask(width));
                }
            }
        }
    }
}

#[test]
fn store_keeps_neighbouring_bits() {
    for off in 0u8..8 {
        for width in 1u8..=20 {
            let mut buf = [0xffu8; 6];
            write_field(&mut buf, 1, off, width, Endianness::Big, 0);
            let end = off as usize + width as usize;
            for bit in 0..48usize {
                let set = buf[bit / 8] & (0x80 >> (bit % 8)) != 0;
                let inside = bit >= 8 + off as usize && bit < 8 + end;
                assert_eq!(set, !inside, "bit {} off {} width {}", bit, off, width);
            }
        }
    }
}

#[test]
fn big_and_little_endian_values() {
    let buf = [0x12u8, 0x34, 0x56];
    assert_eq!(read_field(&buf, 0, 0, 16, Endianness::Big), 0x1234);
    assert_eq!(read_field(&buf, 0, 0, 16, Endianness::Little), 0x3412);
    assert_eq!(read_field(&buf, 0, 0, 16, Endianness::Host), 0x3412);
    assert_eq!(read_field(&buf, 0, 0, 24, Endianness::Little), 0x563412);
    // bits 4..12: 0x2 then 0x3
    assert_eq!(read_field(&buf, 0, 4, 8, Endianness::Big), 0x23);
    // three bits at offset 5 of 0x12 = 0b0001_0010
    assert_eq!(read_field(&buf, 0, 5, 3, Endianness::Big), 0b010);
}

#[test]
fn bytes_past_the_end_read_as_zero_and_writes_are_dropped() {
    let mut buf = [0xffu8; 2];
    assert_eq!(read_field(&buf, 1, 0, 16, Endianness::Big), 0xff00);
    write_field(&mut buf, 1, 0, 16, Endianness::Big, 0x1234);
    assert_eq!(buf, [0xff, 0x12]);
}

#[test]
fn quic_variable_length_integers() {
    assert_eq!(varint_length(0x00), 0);
    assert_eq!(varint_length(0x40), 1);
    assert_eq!(varint_length(0x80), 3);
    assert_eq!(varint_length(0xc0), 7);
    assert_eq!(varint(0x25, &[]), 37);
    assert_eq!(varint(0x7b, &[0xbd]), 15293);
    assert_eq!(varint(0x9d, &[0x7f, 0x3e, 0x7d]), 494878333);
}

#[test]
fn packet_numbers_are_big_endian() {
    assert_eq!(packet_number(&[]), 0);
    assert_eq!(packet_number(&[0x01, 0x02]), 258);
    assert_eq!(packet_number(&[0xff; 8]), u64::MAX);
}
