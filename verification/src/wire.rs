//! The bytes of a packet on the wire: a tag, then the fragment and the rows
//! of a batch, or the class and the message of a failure.

use vstd::prelude::*;
use vstd::utf8::decode_utf8;
use vstd::utf8::encode_utf8;
use vstd::utf8::encode_utf8_decode_utf8;
use vstd::utf8::encode_utf8_valid_utf8;
use vstd::utf8::valid_utf8;
use crate::binary::le_bytes;
use crate::binary::le_value;
use crate::binary::lemma_le_bytes_len;
use crate::binary::lemma_le_round_trip;
use crate::binary::lemma_le_value_bound;
use crate::binary::read_unsigned;
use crate::binary::write_unsigned;
use crate::error::ErrorCode;
use crate::error::ErrorKind;
use crate::packet::DataBlock;
use crate::packet::DataPacket;

verus! {

/// The tag of a packet that carries rows.
pub const DATA_TAG: u8 = 1;

/// The tag of a packet that carries a failure.
pub const ERROR_TAG: u8 = 2;

/// A packet as plain values.
pub enum PacketView {
    /// The rows of a fragment.
    Data(usize, Seq<u64>),
    /// A failure: its class and its message.
    Failure(ErrorKind, Seq<char>),
}

impl View for DataPacket {
    type V = PacketView;

    open spec fn view(&self) -> PacketView {
        match self {
            DataPacket::Data(fragment, block) => PacketView::Data(*fragment, block@),
            DataPacket::ErrorCode(failure) => PacketView::Failure(failure.kind, failure.message@),
        }
    }
}

/// The byte that stands for a class of failure.
pub open spec fn kind_code(kind: ErrorKind) -> u8 {
    match kind {
        ErrorKind::NotFound => 1,
        ErrorKind::AlreadyExists => 2,
        ErrorKind::LogicalError => 3,
        ErrorKind::Transport => 4,
        ErrorKind::BadBytes => 5,
        ErrorKind::StorageOther => 6,
        ErrorKind::BadRequest => 7,
    }
}

/// The class of failure that a byte stands for.
pub open spec fn kind_of(code: u8) -> Option<ErrorKind> {
    if code == 1 {
        Some(ErrorKind::NotFound)
    } else if code == 2 {
        Some(ErrorKind::AlreadyExists)
    } else if code == 3 {
        Some(ErrorKind::LogicalError)
    } else if code == 4 {
        Some(ErrorKind::Transport)
    } else if code == 5 {
        Some(ErrorKind::BadBytes)
    } else if code == 6 {
        Some(ErrorKind::StorageOther)
    } else if code == 7 {
        Some(ErrorKind::BadRequest)
    } else {
        None
    }
}

/// The bytes of rows: eight for each, lowest byte first.
pub open spec fn rows_bytes(rows: Seq<u64>) -> Seq<u8>
    decreases rows.len(),
{
    if rows.len() == 0 {
        Seq::empty()
    } else {
        rows_bytes(rows.drop_last()) + le_bytes(rows.last() as nat, 8)
    }
}

/// The bytes of a packet.
pub open spec fn encoded(packet: PacketView) -> Seq<u8> {
    match packet {
        PacketView::Data(fragment, rows) => seq![DATA_TAG] + le_bytes(fragment as nat, 8)
            + rows_bytes(rows),
        PacketView::Failure(kind, message) => seq![ERROR_TAG, kind_code(kind)] + encode_utf8(
            message,
        ),
    }
}

/// The packet that bytes stand for, if they stand for one: a batch is its
/// tag, eight bytes of fragment and eight bytes for each row; a failure is
/// its tag, the byte of a class and a message in UTF-8.
pub open spec fn decoded(bytes: Seq<u8>) -> Option<PacketView> {
    if bytes.len() == 0 {
        None
    } else if bytes[0] == DATA_TAG {
        if bytes.len() < 9 || (bytes.len() - 9) % 8 != 0 || le_value(bytes, 1, 8) > usize::MAX {
            None
        } else {
            Some(
                PacketView::Data(
                    le_value(bytes, 1, 8) as usize,
                    Seq::new(
                        ((bytes.len() - 9) / 8) as nat,
                        |i: int| le_value(bytes, 9 + 8 * i, 8) as u64,
                    ),
                ),
            )
        }
    } else if bytes[0] == ERROR_TAG {
        if bytes.len() < 2 || kind_of(bytes[1]) is None || !valid_utf8(
            bytes.subrange(2, bytes.len() as int),
        ) {
            None
        } else {
            Some(
                PacketView::Failure(
                    kind_of(bytes[1])->Some_0,
                    decode_utf8(bytes.subrange(2, bytes.len() as int)),
                ),
            )
        }
    } else {
        None
    }
}

/// The bytes of rows are eight for each row, and the eight bytes of a row
/// are the bytes of its number.
pub proof fn lemma_rows_bytes(rows: Seq<u64>)
    ensures
        rows_bytes(rows).len() == 8 * rows.len(),
        forall|i: int|
            0 <= i < rows.len() ==> #[trigger] rows_bytes(rows).subrange(8 * i, 8 * i + 8)
                == le_bytes(rows[i] as nat, 8),
    decreases rows.len(),
{
    if rows.len() > 0 {
        let before = rows.drop_last();
        lemma_rows_bytes(before);
        lemma_le_bytes_len(rows.last() as nat, 8);
        let all = rows_bytes(rows);
        assert forall|i: int| 0 <= i < rows.len() implies #[trigger] all.subrange(8 * i, 8 * i + 8)
            == le_bytes(rows[i] as nat, 8) by {
            if i < before.len() {
                assert(all.subrange(8 * i, 8 * i + 8) =~= rows_bytes(before).subrange(
                    8 * i,
                    8 * i + 8,
                ));
                assert(before[i] == rows[i]);
            } else {
                assert(all.subrange(8 * i, 8 * i + 8) =~= le_bytes(rows.last() as nat, 8));
            }
        }
    }
}

/// What is written is read back: the bytes of a packet stand for that
/// packet.
pub proof fn law_decode_inverts_encode(packet: PacketView)
    ensures
        decoded(encoded(packet)) == Some(packet),
{
    let bytes = encoded(packet);
    match packet {
        PacketView::Data(fragment, rows) => {
            lemma_le_bytes_len(fragment as nat, 8);
            lemma_rows_bytes(rows);
            assert(bytes.subrange(1, 9) =~= le_bytes(fragment as nat, 8));
            lemma_le_round_trip(bytes, 1, fragment as u64);
            let read = Seq::new(
                ((bytes.len() - 9) / 8) as nat,
                |i: int| le_value(bytes, 9 + 8 * i, 8) as u64,
            );
            assert(read.len() == rows.len());
            assert forall|i: int| 0 <= i < rows.len() implies read[i] == rows[i] by {
                assert(bytes.subrange(9 + 8 * i, 9 + 8 * i + 8) =~= rows_bytes(rows).subrange(
                    8 * i,
                    8 * i + 8,
                ));
                lemma_le_round_trip(bytes, 9 + 8 * i, rows[i]);
            }
            assert(read =~= rows);
        },
        PacketView::Failure(kind, message) => {
            encode_utf8_valid_utf8(message);
            encode_utf8_decode_utf8(message);
            assert(bytes.subrange(2, bytes.len() as int) =~= encode_utf8(message));
        },
    }
}

/// Calls `std::str::from_utf8`, which takes bytes as a text exactly where
/// they are valid UTF-8; the text is then what the bytes encode.
#[verifier::external_body]
pub(crate) fn utf8_text<'a>(bytes: &'a [u8]) -> (text: Option<&'a str>)
    ensures
        text is Some <==> valid_utf8(bytes@),
        text is Some ==> text->Some_0@ == decode_utf8(bytes@),
{
    std::str::from_utf8(bytes).ok()
}

/// The byte that stands for a class of failure.
pub fn code_of_kind(kind: ErrorKind) -> (code: u8)
    ensures
        code == kind_code(kind),
        kind_of(code) == Some(kind),
{
    match kind {
        ErrorKind::NotFound => 1,
        ErrorKind::AlreadyExists => 2,
        ErrorKind::LogicalError => 3,
        ErrorKind::Transport => 4,
        ErrorKind::BadBytes => 5,
        ErrorKind::StorageOther => 6,
        ErrorKind::BadRequest => 7,
    }
}

/// The class of failure that a byte stands for.
pub fn kind_of_code(code: u8) -> (kind: Option<ErrorKind>)
    ensures
        kind == kind_of(code),
{
    if code == 1 {
        Some(ErrorKind::NotFound)
    } else if code == 2 {
        Some(ErrorKind::AlreadyExists)
    } else if code == 3 {
        Some(ErrorKind::LogicalError)
    } else if code == 4 {
        Some(ErrorKind::Transport)
    } else if code == 5 {
        Some(ErrorKind::BadBytes)
    } else if code == 6 {
        Some(ErrorKind::StorageOther)
    } else if code == 7 {
        Some(ErrorKind::BadRequest)
    } else {
        None
    }
}

/// The failure that reports bytes that stand for no packet.
pub fn malformed() -> (e: ErrorCode)
    ensures
        e.kind == ErrorKind::BadBytes,
        e.message@ == "Malformed packet"@,
{
    ErrorCode::new(ErrorKind::BadBytes, "Malformed packet")
}

/// Writes a packet as bytes.
pub fn encode(packet: &DataPacket) -> (bytes: Vec<u8>)
    ensures
        bytes@ == encoded(packet@),
{
    let mut bytes: Vec<u8> = Vec::new();
    match packet {
        DataPacket::Data(fragment, block) => {
            bytes.push(DATA_TAG);
            write_unsigned(&mut bytes, *fragment as u64);
            let ghost head = bytes@;
            let mut i: usize = 0;
            while i < block.rows.len()
                invariant
                    i <= block.rows@.len(),
                    bytes@ == head + rows_bytes(block.rows@.take(i as int)),
                decreases block.rows@.len() - i,
            {
                let ghost before = bytes@;
                write_unsigned(&mut bytes, block.rows[i]);
                proof {
                    let grown = block.rows@.take(i + 1);
                    assert(grown.drop_last() =~= block.rows@.take(i as int));
                    assert(grown.last() == block.rows@[i as int]);
                    assert(bytes@ =~= head + rows_bytes(grown));
                }
                i += 1;
            }
            proof {
                assert(block.rows@.take(i as int) =~= block.rows@);
                assert(head =~= seq![DATA_TAG] + le_bytes(*fragment as nat, 8));
            }
        },
        DataPacket::ErrorCode(failure) => {
            bytes.push(ERROR_TAG);
            bytes.push(code_of_kind(failure.kind));
            let text = failure.message.as_str().as_bytes();
            let ghost head = bytes@;
            let mut i: usize = 0;
            while i < text.len()
                invariant
                    i <= text@.len(),
                    bytes@ == head + text@.take(i as int),
                decreases text@.len() - i,
            {
                bytes.push(text[i]);
                assert(bytes@ =~= head + text@.take(i + 1));
                i += 1;
            }
            proof {
                assert(text@.take(i as int) =~= text@);
                assert(head =~= seq![ERROR_TAG, kind_code(failure.kind)]);
            }
        },
    }
    bytes
}

/// Reads a packet from bytes. Bytes that stand for no packet are bad bytes.
pub fn decode(bytes: &[u8]) -> (r: Result<DataPacket, ErrorCode>)
    ensures
        r is Ok <==> decoded(bytes@) is Some,
        r is Ok ==> r->Ok_0@ == decoded(bytes@)->Some_0,
        r is Err ==> r->Err_0.kind == ErrorKind::BadBytes && r->Err_0.message@
            == "Malformed packet"@,
{
    let total: usize = bytes.len();
    if total == 0 {
        return Err(malformed());
    }
    let tag = bytes[0];
    if tag == DATA_TAG {
        if total < 9 || (total - 9) % 8 != 0 {
            return Err(malformed());
        }
        let fragment = read_unsigned(bytes, 1, 8);
        if fragment > usize::MAX as u64 {
            return Err(malformed());
        }
        let count: usize = (total - 9) / 8;
        let mut rows: Vec<u64> = Vec::new();
        let mut i: usize = 0;
        while i < count
            invariant
                i <= count,
                total == bytes@.len(),
                total >= 9,
                count == (total - 9) / 8,
                (total - 9) % 8 == 0,
                rows@.len() == i,
                forall|k: int| 0 <= k < i ==> #[trigger] rows@[k] == le_value(bytes@, 9 + 8 * k, 8),
            decreases count - i,
        {
            let at: usize = 9 + 8 * i;
            proof {
                lemma_le_value_bound(bytes@, at as int, 8);
            }
            let row = read_unsigned(bytes, at, 8);
            rows.push(row);
            i += 1;
        }
        proof {
            assert(rows@ =~= Seq::new(
                ((bytes@.len() - 9) / 8) as nat,
                |k: int| le_value(bytes@, 9 + 8 * k, 8) as u64,
            ));
        }
        Ok(DataPacket::Data(fragment as usize, DataBlock { rows }))
    } else if tag == ERROR_TAG {
        if total < 2 {
            return Err(malformed());
        }
        let kind = match kind_of_code(bytes[1]) {
            Some(kind) => kind,
            None => {
                return Err(malformed());
            },
        };
        let rest = vstd::slice::slice_subrange(bytes, 2, total);
        match utf8_text(rest) {
            Some(text) => Ok(DataPacket::ErrorCode(ErrorCode { kind, message: text.to_owned() })),
            None => Err(malformed()),
        }
    } else {
        Err(malformed())
    }
}

/// What arrives as bytes, as an item of an inbound stream: the packet that
/// the bytes stand for, or the report that they stand for none.
pub fn item_of_bytes(bytes: &[u8]) -> (item: crate::packet::StreamItem)
    ensures
        decoded(bytes@) is Some ==> item is Packet && item->Packet_0@ == decoded(bytes@)->Some_0,
        decoded(bytes@) is None ==> item is Malformed && item->Malformed_0.kind
            == ErrorKind::BadBytes,
{
    match decode(bytes) {
        Ok(packet) => crate::packet::StreamItem::Packet(packet),
        Err(cause) => crate::packet::StreamItem::Malformed(cause),
    }
}

/// What the transport hands over, as an item of an inbound stream: its own
/// failure, or what the received bytes stand for.
pub fn inbound_item(received: Result<Vec<u8>, ErrorCode>) -> (item: crate::packet::StreamItem)
    ensures
        match received {
            Err(status) => item == crate::packet::StreamItem::Status(status),
            Ok(bytes) => {
                &&& decoded(bytes@) is Some ==> item is Packet && item->Packet_0@ == decoded(
                    bytes@,
                )->Some_0
                &&& decoded(bytes@) is None ==> item is Malformed && item->Malformed_0.kind
                    == ErrorKind::BadBytes
            },
        },
{
    match received {
        Err(status) => crate::packet::StreamItem::Status(status),
        Ok(bytes) => item_of_bytes(bytes.as_slice()),
    }
}

} // verus!
