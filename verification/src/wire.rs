//! The layout of a reply datagram, stated over sequences of bytes.
//!
//! A reply is a header of three bytes and a body. The header holds the
//! message identifier `RESPONSE_IDENTIFIER` and, low byte first, the length
//! of the body. The body holds one or more records. A record is the name of
//! the server, as text that ends with `VALUE_TERMINATOR`, and after it any
//! number of fields. A field is one identifier byte and a value: two bytes,
//! low byte first, for a field that holds a number, and text that ends with
//! `VALUE_TERMINATOR` for every other field. Where an identifier could
//! stand, `RECORD_SEPARATOR` ends the record and announces another, and
//! `END_OF_MESSAGE` ends the record and the message. A field that occurs
//! again in a record replaces the earlier value.

use crate::error::{BrowserProtocolField, ProtocolErrorView, TokenView, FIELD_COUNT};
use crate::record::{RecordView, Value};
use crate::utf8::decoded_text;
use vstd::prelude::*;

verus! {

/// The message identifier of a reply.
pub const RESPONSE_IDENTIFIER: u8 = 0x05;

/// The length of the header: the message identifier and the length field.
pub const HEADER_LEN: usize = 3;

/// The byte that ends a text value: a semicolon.
pub const VALUE_TERMINATOR: u8 = 0x3B;

/// The byte that, in the place of a field identifier, ends a record that is
/// followed by another: a semicolon.
pub const RECORD_SEPARATOR: u8 = 0x3B;

/// The byte that, in the place of a field identifier, ends the last record
/// and the message.
pub const END_OF_MESSAGE: u8 = 0x00;

/// The byte that introduces `field` in a record.
pub open spec fn identifier_of(field: BrowserProtocolField) -> u8 {
    (field.ordinal() + 1) as u8
}

/// The field that the identifier byte `byte` introduces, if there is one.
pub open spec fn field_of_identifier(byte: u8) -> Option<BrowserProtocolField> {
    if 1 <= byte <= FIELD_COUNT {
        BrowserProtocolField::at((byte - 1) as nat)
    } else {
        None
    }
}

/// Whether `byte` can stand where an identifier is expected: as the
/// identifier of a field, as the record separator or as the end marker.
pub open spec fn recognized(byte: u8) -> bool {
    ||| field_of_identifier(byte) is Some
    ||| byte == RECORD_SEPARATOR
    ||| byte == END_OF_MESSAGE
}

/// Whether the value of `field` is a number of two bytes; every other field
/// holds text.
pub open spec fn holds_number(field: BrowserProtocolField) -> bool {
    field == BrowserProtocolField::TcpPort
}

/// The number that two bytes hold, low byte first.
pub open spec fn u16_le(low: u8, high: u8) -> u16 {
    (low as int + 256 * (high as int)) as u16
}

/// The length of the body that the header of `buf` declares.
pub open spec fn declared_length(buf: Seq<u8>) -> nat
    recommends
        buf.len() >= HEADER_LEN,
{
    u16_le(buf[1], buf[2]) as nat
}

/// The error of a token that is not the expected one.
pub open spec fn unexpected(expected: TokenView, found: TokenView) -> ProtocolErrorView {
    ProtocolErrorView::UnexpectedToken { expected, found }
}

/// The position of the first `VALUE_TERMINATOR` in `buf` at or after `from`.
pub open spec fn first_terminator(buf: Seq<u8>, from: int) -> Option<int>
    decreases buf.len() - from,
{
    if from < 0 || from >= buf.len() {
        None
    } else if buf[from] == VALUE_TERMINATOR {
        Some(from)
    } else {
        first_terminator(buf, from + 1)
    }
}

/// The text value of `field` that starts at `start`, and the position after
/// its terminator.
pub open spec fn text_value(buf: Seq<u8>, start: int, field: BrowserProtocolField) -> Result<
    (Seq<char>, int),
    ProtocolErrorView,
> {
    match first_terminator(buf, start) {
        None => Err(unexpected(TokenView::ValueOf(field), TokenView::EndOfMessage)),
        Some(end) => match decoded_text(buf.subrange(start, end), start) {
            Ok(text) => Ok((text, end + 1)),
            Err(failure) => Err(ProtocolErrorView::InvalidUtf8(failure)),
        },
    }
}

/// The value of `field` that starts at `start`, and the position after it.
pub open spec fn field_value(buf: Seq<u8>, start: int, field: BrowserProtocolField) -> Result<
    (Value, int),
    ProtocolErrorView,
> {
    if holds_number(field) {
        if 0 <= start && start + 2 <= buf.len() {
            Ok((Value::Number(u16_le(buf[start], buf[start + 1])), start + 2))
        } else {
            Err(unexpected(TokenView::ValueOf(field), TokenView::EndOfMessage))
        }
    } else {
        match text_value(buf, start, field) {
            Ok((text, next)) => Ok((Value::Text(text), next)),
            Err(e) => Err(e),
        }
    }
}

/// How the fields of one record end: the record, the position after the
/// byte that ended it, and whether that byte announced another record.
pub ghost struct RecordEnd {
    pub record: RecordView,
    pub next: int,
    pub more: bool,
}

/// The fields of a record from `pos` on. `last` is the field that was read
/// before `pos` and `record` holds what the record carries so far. Where the
/// byte at `pos` is no identifier, the identifier that is reported as
/// expected is that of the field that follows `last` in the vocabulary.
pub open spec fn fields(
    buf: Seq<u8>,
    pos: int,
    last: BrowserProtocolField,
    record: RecordView,
) -> Result<RecordEnd, ProtocolErrorView>
    decreases buf.len() - pos,
    via fields_decreases
{
    if pos < 0 || pos >= buf.len() {
        Err(unexpected(TokenView::Identifier(last.following()), TokenView::EndOfMessage))
    } else if buf[pos] == END_OF_MESSAGE {
        Ok(RecordEnd { record, next: pos + 1, more: false })
    } else if buf[pos] == RECORD_SEPARATOR {
        Ok(RecordEnd { record, next: pos + 1, more: true })
    } else {
        match field_of_identifier(buf[pos]) {
            None => Err(
                unexpected(
                    TokenView::Identifier(last.following()),
                    TokenView::MessageIdentifier(buf[pos]),
                ),
            ),
            Some(field) => match field_value(buf, pos + 1, field) {
                Err(e) => Err(e),
                Ok((value, next)) => fields(buf, next, field, record.insert(field, value)),
            },
        }
    }
}

/// What holds after the end marker at `pos`: the records, unless bytes are
/// left, which then are the error.
pub open spec fn at_end(buf: Seq<u8>, pos: int, done: Seq<RecordView>) -> Result<
    Seq<RecordView>,
    ProtocolErrorView,
> {
    if 0 <= pos < buf.len() {
        Err(ProtocolErrorView::ExtraneousData(buf.subrange(pos, buf.len() as int)))
    } else {
        Ok(done)
    }
}

/// The first record of the body from `pos` on: the server's name as the
/// value of `ServerName`, then the fields.
pub open spec fn record_at(buf: Seq<u8>, pos: int) -> Result<RecordEnd, ProtocolErrorView> {
    match text_value(buf, pos, BrowserProtocolField::ServerName) {
        Err(e) => Err(e),
        Ok((name, next)) => fields(
            buf,
            next,
            BrowserProtocolField::ServerName,
            Map::empty().insert(BrowserProtocolField::ServerName, Value::Text(name)),
        ),
    }
}

/// The records of the body from `pos` on, after the records `done`.
pub open spec fn records(buf: Seq<u8>, pos: int, done: Seq<RecordView>) -> Result<
    Seq<RecordView>,
    ProtocolErrorView,
>
    decreases buf.len() - pos,
    via records_decreases
{
    match record_at(buf, pos) {
        Err(e) => Err(e),
        Ok(end) => if end.more {
            records(buf, end.next, done.push(end.record))
        } else {
            at_end(buf, end.next, done.push(end.record))
        },
    }
}

/// What a datagram decodes to: its records in the order in which they
/// stand, or the first error.
pub open spec fn decoded(buf: Seq<u8>) -> Result<Seq<RecordView>, ProtocolErrorView> {
    if buf.len() == 0 {
        Err(unexpected(TokenView::MessageIdentifier(RESPONSE_IDENTIFIER), TokenView::EndOfMessage))
    } else if buf[0] != RESPONSE_IDENTIFIER {
        Err(
            unexpected(
                TokenView::MessageIdentifier(RESPONSE_IDENTIFIER),
                TokenView::MessageIdentifier(buf[0]),
            ),
        )
    } else if buf.len() < HEADER_LEN {
        Err(unexpected(TokenView::MessageLength, TokenView::EndOfMessage))
    } else if declared_length(buf) != buf.len() - HEADER_LEN {
        Err(
            ProtocolErrorView::LengthMismatch {
                datagram: (buf.len() - HEADER_LEN) as nat,
                header: declared_length(buf),
            },
        )
    } else {
        records(buf, HEADER_LEN as int, Seq::empty())
    }
}

/// The first terminator at or after `from`, where there is one, stands at or
/// after `from`, and no earlier byte from `from` on is a terminator.
pub proof fn lemma_first_terminator(buf: Seq<u8>, from: int)
    ensures
        match first_terminator(buf, from) {
            Some(end) => {
                &&& 0 <= from <= end < buf.len()
                &&& buf[end] == VALUE_TERMINATOR
                &&& forall|i: int| from <= i < end ==> buf[i] != VALUE_TERMINATOR
            },
            None => forall|i: int| 0 <= from <= i < buf.len() ==> buf[i] != VALUE_TERMINATOR,
        },
    decreases buf.len() - from,
{
    if 0 <= from < buf.len() && buf[from] != VALUE_TERMINATOR {
        lemma_first_terminator(buf, from + 1);
    }
}

/// A value ends after the place where it starts, and inside the datagram.
pub proof fn lemma_field_value_advances(buf: Seq<u8>, start: int, field: BrowserProtocolField)
    ensures
        field_value(buf, start, field) is Ok ==> start < field_value(buf, start, field)->Ok_0.1
            <= buf.len(),
        text_value(buf, start, field) is Ok ==> start < text_value(buf, start, field)->Ok_0.1
            <= buf.len(),
{
    lemma_first_terminator(buf, start);
}

/// The fields after a value start after the place where the value starts.
#[via_fn]
proof fn fields_decreases(
    buf: Seq<u8>,
    pos: int,
    last: BrowserProtocolField,
    record: RecordView,
) {
    if 0 <= pos < buf.len() {
        match field_of_identifier(buf[pos]) {
            None => {},
            Some(field) => {
                lemma_field_value_advances(buf, pos + 1, field);
            },
        }
    }
}

/// The fields of a record end after the place where they start, and inside
/// the datagram.
pub proof fn lemma_fields_advance(
    buf: Seq<u8>,
    pos: int,
    last: BrowserProtocolField,
    record: RecordView,
)
    ensures
        fields(buf, pos, last, record) is Ok ==> 0 <= pos < fields(
            buf,
            pos,
            last,
            record,
        )->Ok_0.next <= buf.len(),
    decreases buf.len() - pos,
{
    if 0 <= pos < buf.len() && buf[pos] != END_OF_MESSAGE && buf[pos] != RECORD_SEPARATOR {
        match field_of_identifier(buf[pos]) {
            None => {},
            Some(field) => {
                lemma_field_value_advances(buf, pos + 1, field);
                match field_value(buf, pos + 1, field) {
                    Err(e) => {},
                    Ok((value, next)) => {
                        lemma_fields_advance(buf, next, field, record.insert(field, value));
                    },
                }
            },
        }
    }
}

/// A record ends after the place where it starts, and inside the datagram.
pub proof fn lemma_record_advances(buf: Seq<u8>, pos: int)
    ensures
        record_at(buf, pos) is Ok ==> 0 <= pos < record_at(buf, pos)->Ok_0.next <= buf.len(),
{
    lemma_first_terminator(buf, pos);
    match text_value(buf, pos, BrowserProtocolField::ServerName) {
        Err(e) => {},
        Ok((name, next)) => {
            lemma_fields_advance(
                buf,
                next,
                BrowserProtocolField::ServerName,
                Map::empty().insert(BrowserProtocolField::ServerName, Value::Text(name)),
            );
        },
    }
}

/// The record after a record starts after the place where that one starts.
#[via_fn]
proof fn records_decreases(buf: Seq<u8>, pos: int, done: Seq<RecordView>) {
    lemma_record_advances(buf, pos);
}

} // verus!
