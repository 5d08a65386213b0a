use sqlite_tools::udp2sqlite_async;
use sqlite_tools::udp2sqlite_async::item;
use sqlite_tools::udp2sqlite_async::entity::{target as atarget, unit as aunit};
use sqlite_tools::udp2sqlite_sync::entity::{target, unit};
use sqlite_tools::udp2sqlite_sync::{decode_datagram, encode_datagram, DecodeError, HeaderError, Message, MsgId};

#[test]
fn msg_id_bytes() {
    assert_eq!(MsgId::Target.to_byte(), 0x01);
    assert_eq!(MsgId::Unit.to_byte(), 0x02);
    assert_eq!(MsgId::from_byte(0x01), Some(MsgId::Target));
    assert_eq!(MsgId::from_byte(0x02), Some(MsgId::Unit));
    assert_eq!(MsgId::from_byte(0x00), None);
    assert_eq!(MsgId::read_le(&[]), Err(HeaderError::Empty));
    assert_eq!(MsgId::read_le(&[7]), Err(HeaderError::UnknownId(7)));
}

#[test]
fn unit_datagram_layout() {
    let m = Message::Unit(unit::Dto { id: 1, value_bits: 123.45f64.to_bits() });
    let bytes = encode_datagram(&m);
    let mut want = vec![0x02, 1, 0, 0, 0];
    want.extend_from_slice(&123.45f64.to_le_bytes());
    assert_eq!(bytes, want);
}

#[test]
fn target_datagram_round_trip() {
    let m = Message::Target(target::Dto { id: -1, value_bits: (-0.5f64).to_bits() });
    let bytes = encode_datagram(&m);
    assert_eq!(&bytes[..5], &[0x01, 0xff, 0xff, 0xff, 0xff]);
    match decode_datagram(&bytes) {
        Ok(Message::Target(d)) => {
            assert_eq!(d.id, -1);
            assert_eq!(f64::from_bits(d.value_bits), -0.5);
        }
        _ => panic!("target expected"),
    }
}

#[test]
fn decode_ignores_trailing_bytes() {
    let mut bytes = encode_datagram(&Message::Unit(unit::Dto { id: 0x01020304, value_bits: 9 }));
    bytes.extend_from_slice(&[0xaa, 0xbb]);
    match decode_datagram(&bytes) {
        Ok(Message::Unit(d)) => {
            assert_eq!(d.id, 0x01020304);
            assert_eq!(d.value_bits, 9);
        }
        _ => panic!("unit expected"),
    }
}

#[test]
fn decode_errors() {
    assert!(matches!(decode_datagram(&[]), Err(DecodeError::Header(HeaderError::Empty))));
    assert!(matches!(decode_datagram(&[9, 0, 0]), Err(DecodeError::Header(HeaderError::UnknownId(9)))));
    assert!(matches!(decode_datagram(&[2, 1, 2, 3]), Err(DecodeError::Payload(MsgId::Unit))));
    assert!(matches!(decode_datagram(&[1; 12]), Err(DecodeError::Payload(MsgId::Target))));
}

#[test]
fn async_protocol_unsigned_ids() {
    let m = udp2sqlite_async::Message::Unit(aunit::Model { id: 0xffff_ffff, value_bits: 42 });
    let bytes = udp2sqlite_async::encode_datagram(&m);
    assert_eq!(bytes.len(), 13);
    match udp2sqlite_async::decode_datagram(&bytes) {
        Ok(udp2sqlite_async::Message::Unit(u)) => {
            assert_eq!(u.id, 0xffff_ffff);
            assert_eq!(u.value_bits, 42);
        }
        _ => panic!("unit expected"),
    }
    let t = atarget::Dto { id: 5, value_bits: 7 };
    let row: atarget::Model = t.into();
    assert_eq!((row.id, row.value_bits), (5, 7));
    let back: atarget::Dto = row.into();
    assert_eq!((back.id, back.value_bits), (5, 7));
    assert!(matches!(
        udp2sqlite_async::decode_datagram(&[1, 0]),
        Err(udp2sqlite_async::DecodeError::Payload(MsgId::Target))
    ));
}

#[test]
fn cake_model_bytes() {
    let m = item::Model { id: 3, value_bits: 2.5f64.to_bits() };
    let mut out = Vec::new();
    m.write_le(&mut out);
    let mut want = vec![3, 0, 0, 0];
    want.extend_from_slice(&2.5f64.to_le_bytes());
    assert_eq!(out, want);
    let back = item::Model::read_le(&out, 0).unwrap();
    assert_eq!((back.id, f64::from_bits(back.value_bits)), (3, 2.5));
    assert!(item::Model::read_le(&out, 1).is_none());
}
