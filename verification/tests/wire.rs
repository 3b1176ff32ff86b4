use data_exchange::error::ErrorCode;
use data_exchange::error::ErrorKind;
use data_exchange::packet::DataBlock;
use data_exchange::packet::DataPacket;
use data_exchange::packet::StreamItem;
use data_exchange::wire::code_of_kind;
use data_exchange::wire::decode;
use data_exchange::wire::encode;
use data_exchange::wire::inbound_item;
use data_exchange::wire::item_of_bytes;
use data_exchange::wire::kind_of_code;
use data_exchange::binary::read_unsigned;
use data_exchange::binary::write_unsigned;

#[test]
fn batch_is_written_tag_fragment_rows() {
    let bytes = encode(&DataPacket::Data(3, DataBlock { rows: vec![1, 0x0102] }));
    assert_eq!(
        bytes,
        vec![1, 3, 0, 0, 0, 0, 0, 0, 0, 1, 0, 0, 0, 0, 0, 0, 0, 2, 1, 0, 0, 0, 0, 0, 0]
    );
    assert_eq!(encode(&DataPacket::Data(0, DataBlock { rows: vec![] })), vec![1, 0, 0, 0, 0, 0, 0, 0, 0]);
}

#[test]
fn failure_is_written_tag_class_message() {
    let bytes = encode(&DataPacket::ErrorCode(ErrorCode::new(ErrorKind::Transport, "lost é")));
    assert_eq!(bytes, vec![2, 4, b'l', b'o', b's', b't', b' ', 0xc3, 0xa9]);
}

#[test]
fn what_is_written_is_read_back() {
    for packet in [
        DataPacket::Data(0, DataBlock { rows: vec![] }),
        DataPacket::Data(7, DataBlock { rows: vec![0, 1, u64::MAX, 1 << 40] }),
        DataPacket::Data(usize::MAX, DataBlock { rows: (0..100).collect() }),
        DataPacket::ErrorCode(ErrorCode::new(ErrorKind::LogicalError, "")),
        DataPacket::ErrorCode(ErrorCode::new(ErrorKind::NotFound, "Query q not found in cluster.")),
        DataPacket::ErrorCode(ErrorCode::new(ErrorKind::BadRequest, "héllo, wörld ✓")),
    ] {
        assert_eq!(decode(&encode(&packet)), Ok(packet));
    }
}

#[test]
fn bytes_that_stand_for_no_packet_are_refused() {
    for bytes in [
        vec![],
        vec![0],
        vec![3, 0, 0],
        vec![1],
        vec![1, 0, 0, 0, 0, 0, 0, 0],
        vec![1, 0, 0, 0, 0, 0, 0, 0, 0, 9],
        vec![2],
        vec![2, 0],
        vec![2, 8, b'x'],
        vec![2, 1, 0xff],
        vec![2, 1, 0xc3],
    ] {
        let failure = decode(&bytes).unwrap_err();
        assert_eq!(failure.kind, ErrorKind::BadBytes);
        assert_eq!(failure.message, "Malformed packet");
        assert!(matches!(item_of_bytes(&bytes), StreamItem::Malformed(_)));
    }
    assert_eq!(decode(&[2, 1]), Ok(DataPacket::ErrorCode(ErrorCode::new(ErrorKind::NotFound, ""))));
}

#[test]
fn transport_failure_and_bytes_become_items() {
    let status = ErrorCode::new(ErrorKind::Transport, "reset");
    assert_eq!(inbound_item(Err(status.clone())), StreamItem::Status(status));
    assert_eq!(
        inbound_item(Ok(vec![1, 5, 0, 0, 0, 0, 0, 0, 0])),
        StreamItem::Packet(DataPacket::Data(5, DataBlock { rows: vec![] }))
    );
    assert!(matches!(inbound_item(Ok(vec![9])), StreamItem::Malformed(_)));
}

#[test]
fn class_codes_are_one_to_one() {
    for kind in [
        ErrorKind::NotFound,
        ErrorKind::AlreadyExists,
        ErrorKind::LogicalError,
        ErrorKind::Transport,
        ErrorKind::BadBytes,
        ErrorKind::StorageOther,
        ErrorKind::BadRequest,
    ] {
        assert_eq!(kind_of_code(code_of_kind(kind)), Some(kind));
    }
    assert_eq!(code_of_kind(ErrorKind::NotFound), 1);
    assert_eq!(code_of_kind(ErrorKind::BadRequest), 7);
    assert_eq!(kind_of_code(0), None);
    assert_eq!(kind_of_code(8), None);
}

#[test]
fn numbers_are_written_lowest_byte_first() {
    let mut out = vec![9];
    write_unsigned(&mut out, 0x0102030405060708);
    assert_eq!(out, vec![9, 8, 7, 6, 5, 4, 3, 2, 1]);
    assert_eq!(read_unsigned(&out, 1, 8), 0x0102030405060708);
    assert_eq!(read_unsigned(&out, 1, 4), 0x05060708);
}
