//! What holds of every datagram: the laws of the reply layout.

use crate::decoder::outcome_view;
use crate::error::{BrowserProtocolError, BrowserProtocolField, ProtocolErrorView, TokenView};
use crate::record::{InstanceRecord, RecordView, Value};
use crate::utf8::lemma_valid_up_to_exists;
use crate::wire::{
    declared_length, decoded, field_of_identifier, field_value, fields, first_terminator,
    holds_number, lemma_field_value_advances, lemma_first_terminator, lemma_record_advances,
    recognized, record_at, records, text_value, unexpected, RecordEnd, END_OF_MESSAGE,
    HEADER_LEN, RECORD_SEPARATOR, RESPONSE_IDENTIFIER, VALUE_TERMINATOR,
};
use vstd::prelude::*;

verus! {

/// `longer` holds the bytes of `shorter` from `from` up to the end of
/// `shorter`, and may hold more after them.
pub open spec fn agrees_from(shorter: Seq<u8>, longer: Seq<u8>, from: int) -> bool {
    &&& shorter.len() <= longer.len()
    &&& forall|i: int| from <= i < shorter.len() ==> shorter[i] == longer[i]
}

/// A terminator that is found in the shorter datagram is found at the same
/// place in the longer one.
proof fn lemma_terminator_stable(a: Seq<u8>, b: Seq<u8>, from: int, start: int)
    requires
        agrees_from(a, b, from),
        0 <= from <= start,
        first_terminator(a, start) is Some,
    ensures
        first_terminator(b, start) == first_terminator(a, start),
    decreases a.len() - start,
{
    if start < a.len() && a[start] != VALUE_TERMINATOR {
        lemma_terminator_stable(a, b, from, start + 1);
    }
}

/// A text value that ends in the shorter datagram is the same in the
/// longer one.
proof fn lemma_text_value_stable(
    a: Seq<u8>,
    b: Seq<u8>,
    from: int,
    start: int,
    field: BrowserProtocolField,
)
    requires
        agrees_from(a, b, from),
        0 <= from <= start,
        text_value(a, start, field) != Err::<(Seq<char>, int), ProtocolErrorView>(
            unexpected(TokenView::ValueOf(field), TokenView::EndOfMessage),
        ),
    ensures
        text_value(b, start, field) == text_value(a, start, field),
{
    lemma_first_terminator(a, start);
    if first_terminator(a, start) is Some {
        lemma_terminator_stable(a, b, from, start);
        let end = first_terminator(a, start)->0;
        assert(a.subrange(start, end) =~= b.subrange(start, end));
    }
}

/// A value that ends in the shorter datagram is the same in the longer one.
proof fn lemma_field_value_stable(
    a: Seq<u8>,
    b: Seq<u8>,
    from: int,
    start: int,
    field: BrowserProtocolField,
)
    requires
        agrees_from(a, b, from),
        0 <= from <= start,
        field_value(a, start, field) != Err::<(Value, int), ProtocolErrorView>(
            unexpected(TokenView::ValueOf(field), TokenView::EndOfMessage),
        ),
    ensures
        field_value(b, start, field) == field_value(a, start, field),
{
    if !holds_number(field) {
        lemma_text_value_stable(a, b, from, start, field);
    }
}

/// Fields that end in the shorter datagram end in the same way in the
/// longer one.
proof fn lemma_fields_stable(
    a: Seq<u8>,
    b: Seq<u8>,
    from: int,
    pos: int,
    last: BrowserProtocolField,
    record: RecordView,
)
    requires
        agrees_from(a, b, from),
        0 <= from <= pos,
        fields(a, pos, last, record) is Ok,
    ensures
        fields(b, pos, last, record) == fields(a, pos, last, record),
    decreases a.len() - pos,
{
    if pos < a.len() && a[pos] != END_OF_MESSAGE && a[pos] != RECORD_SEPARATOR {
        let field = field_of_identifier(a[pos])->0;
        lemma_field_value_advances(a, pos + 1, field);
        lemma_field_value_stable(a, b, from, pos + 1, field);
        let (value, next) = field_value(a, pos + 1, field)->Ok_0;
        lemma_fields_stable(a, b, from, next, field, record.insert(field, value));
    }
}

/// Fields that the end of the shorter datagram cuts off where an identifier
/// could stand are refused in the longer one for the byte that stands there.
proof fn lemma_fields_cut(
    a: Seq<u8>,
    b: Seq<u8>,
    from: int,
    pos: int,
    last: BrowserProtocolField,
    record: RecordView,
    expected: BrowserProtocolField,
)
    requires
        agrees_from(a, b, from),
        0 <= from <= pos <= a.len() < b.len(),
        !recognized(b[a.len() as int]),
        fields(a, pos, last, record) == Err::<RecordEnd, ProtocolErrorView>(
            unexpected(TokenView::Identifier(expected), TokenView::EndOfMessage),
        ),
    ensures
        fields(b, pos, last, record) == Err::<RecordEnd, ProtocolErrorView>(
            unexpected(
                TokenView::Identifier(expected),
                TokenView::MessageIdentifier(b[a.len() as int]),
            ),
        ),
    decreases a.len() - pos,
{
    if pos < a.len() {
        let field = field_of_identifier(a[pos])->0;
        lemma_field_value_advances(a, pos + 1, field);
        lemma_field_value_stable(a, b, from, pos + 1, field);
        let (value, next) = field_value(a, pos + 1, field)->Ok_0;
        lemma_fields_cut(a, b, from, next, field, record.insert(field, value), expected);
    }
}

/// Records that the end of the shorter datagram cuts off where an
/// identifier could stand are refused in the longer one for the byte that
/// stands there.
proof fn lemma_records_cut(
    a: Seq<u8>,
    b: Seq<u8>,
    from: int,
    pos: int,
    done: Seq<RecordView>,
    expected: BrowserProtocolField,
)
    requires
        agrees_from(a, b, from),
        0 <= from <= pos <= a.len() < b.len(),
        !recognized(b[a.len() as int]),
        records(a, pos, done) == Err::<Seq<RecordView>, ProtocolErrorView>(
            unexpected(TokenView::Identifier(expected), TokenView::EndOfMessage),
        ),
    ensures
        records(b, pos, done) == Err::<Seq<RecordView>, ProtocolErrorView>(
            unexpected(
                TokenView::Identifier(expected),
                TokenView::MessageIdentifier(b[a.len() as int]),
            ),
        ),
    decreases a.len() - pos,
{
    let server = BrowserProtocolField::ServerName;
    lemma_record_advances(a, pos);
    lemma_field_value_advances(a, pos, server);
    lemma_text_value_stable(a, b, from, pos, server);
    let (name, next) = text_value(a, pos, server)->Ok_0;
    let first = Map::<BrowserProtocolField, Value>::empty().insert(server, Value::Text(name));
    match record_at(a, pos) {
        Err(e) => {
            lemma_fields_cut(a, b, from, next, server, first, expected);
        },
        Ok(end) => {
            lemma_fields_stable(a, b, from, next, server, first);
            lemma_records_cut(a, b, from, end.next, done.push(end.record), expected);
        },
    }
}

/// Records that fill the shorter datagram leave the rest of the longer one
/// as extraneous data.
proof fn lemma_records_stable(
    a: Seq<u8>,
    b: Seq<u8>,
    from: int,
    pos: int,
    done: Seq<RecordView>,
)
    requires
        agrees_from(a, b, from),
        0 <= from <= pos,
        a.len() < b.len(),
        records(a, pos, done) is Ok,
    ensures
        records(b, pos, done) == Err::<Seq<RecordView>, ProtocolErrorView>(
            ProtocolErrorView::ExtraneousData(b.subrange(a.len() as int, b.len() as int)),
        ),
    decreases a.len() - pos,
{
    let server = BrowserProtocolField::ServerName;
    lemma_record_advances(a, pos);
    lemma_text_value_stable(a, b, from, pos, server);
    let (name, next) = text_value(a, pos, server)->Ok_0;
    lemma_field_value_advances(a, pos, server);
    let first = Map::<BrowserProtocolField, Value>::empty().insert(server, Value::Text(name));
    lemma_fields_stable(a, b, from, next, server, first);
    let end = record_at(a, pos)->Ok_0;
    if end.more {
        lemma_records_stable(a, b, from, end.next, done.push(end.record));
    }
}

/// Whether `value` is of the kind that `field` holds: a number for a field
/// that holds a number, and text for every other field.
pub open spec fn value_fits(field: BrowserProtocolField, value: Value) -> bool {
    holds_number(field) <==> value is Number
}

/// Whether every value of `record` is of the kind that its field holds,
/// and the record names its server.
pub open spec fn sound_record(record: RecordView) -> bool {
    &&& record.contains_key(BrowserProtocolField::ServerName)
    &&& forall|f: BrowserProtocolField| #[trigger]
        record.contains_key(f) ==> value_fits(f, record[f])
}

/// The fields of a record keep the record sound.
proof fn lemma_fields_keep_sound(
    buf: Seq<u8>,
    pos: int,
    last: BrowserProtocolField,
    record: RecordView,
)
    requires
        sound_record(record),
        fields(buf, pos, last, record) is Ok,
    ensures
        sound_record(fields(buf, pos, last, record)->Ok_0.record),
    decreases buf.len() - pos,
{
    if 0 <= pos < buf.len() && buf[pos] != END_OF_MESSAGE && buf[pos] != RECORD_SEPARATOR {
        let field = field_of_identifier(buf[pos])->0;
        lemma_field_value_advances(buf, pos + 1, field);
        let (value, next) = field_value(buf, pos + 1, field)->Ok_0;
        lemma_fields_keep_sound(buf, next, field, record.insert(field, value));
    }
}

/// Records that are decoded after sound records are sound, and there is
/// at least one of them.
proof fn lemma_records_are_sound(buf: Seq<u8>, pos: int, done: Seq<RecordView>)
    requires
        forall|i: int| 0 <= i < done.len() ==> sound_record(#[trigger] done[i]),
        records(buf, pos, done) is Ok,
    ensures
        records(buf, pos, done)->Ok_0.len() > done.len(),
        forall|i: int|
            0 <= i < records(buf, pos, done)->Ok_0.len() ==> sound_record(
                #[trigger] records(buf, pos, done)->Ok_0[i],
            ),
    decreases buf.len() - pos,
{
    let server = BrowserProtocolField::ServerName;
    lemma_record_advances(buf, pos);
    let (name, next) = text_value(buf, pos, server)->Ok_0;
    let first = Map::<BrowserProtocolField, Value>::empty().insert(server, Value::Text(name));
    lemma_fields_keep_sound(buf, next, server, first);
    let end = record_at(buf, pos)->Ok_0;
    if end.more {
        lemma_records_are_sound(buf, end.next, done.push(end.record));
    }
}

/// A reply holds at least one record; every record of it names its server,
/// and every value in it is of the kind that its field holds.
pub proof fn lemma_decoded_records_are_sound(buf: Seq<u8>)
    requires
        decoded(buf) is Ok,
    ensures
        decoded(buf)->Ok_0.len() >= 1,
        forall|i: int|
            0 <= i < decoded(buf)->Ok_0.len() ==> sound_record(#[trigger] decoded(buf)->Ok_0[i]),
{
    lemma_records_are_sound(buf, HEADER_LEN as int, Seq::empty());
}

/// Whether `error`, where it says that bytes are no text, names a position
/// from `low` up to, but without, `high`.
pub open spec fn located_within(error: ProtocolErrorView, low: int, high: int) -> bool {
    error is InvalidUtf8 ==> low <= error->InvalidUtf8_0.offset < high
}

/// A text value that is no text is so at a place from its start on.
proof fn lemma_text_failure_located(buf: Seq<u8>, start: int, field: BrowserProtocolField)
    requires
        0 <= start,
        buf.len() <= usize::MAX,
        text_value(buf, start, field) is Err,
    ensures
        located_within(text_value(buf, start, field)->Err_0, start, buf.len() as int),
        !holds_number(field) ==> located_within(
            field_value(buf, start, field)->Err_0,
            start,
            buf.len() as int,
        ),
{
    lemma_first_terminator(buf, start);
    if first_terminator(buf, start) is Some {
        let end = first_terminator(buf, start)->0;
        lemma_valid_up_to_exists(buf.subrange(start, end));
    }
}

/// Fields whose text is no text are so at a place from their start on.
proof fn lemma_fields_failure_located(
    buf: Seq<u8>,
    pos: int,
    last: BrowserProtocolField,
    record: RecordView,
)
    requires
        0 <= pos,
        buf.len() <= usize::MAX,
        fields(buf, pos, last, record) is Err,
    ensures
        located_within(fields(buf, pos, last, record)->Err_0, pos, buf.len() as int),
    decreases buf.len() - pos,
{
    if pos < buf.len() && buf[pos] != END_OF_MESSAGE && buf[pos] != RECORD_SEPARATOR
        && field_of_identifier(buf[pos]) is Some {
        let field = field_of_identifier(buf[pos])->0;
        lemma_field_value_advances(buf, pos + 1, field);
        match field_value(buf, pos + 1, field) {
            Err(e) => {
                if !holds_number(field) {
                    lemma_text_failure_located(buf, pos + 1, field);
                }
            },
            Ok((value, next)) => {
                lemma_fields_failure_located(buf, next, field, record.insert(field, value));
            },
        }
    }
}

/// Records whose text is no text are so at a place from their start on.
proof fn lemma_records_failure_located(buf: Seq<u8>, pos: int, done: Seq<RecordView>)
    requires
        0 <= pos,
        buf.len() <= usize::MAX,
        records(buf, pos, done) is Err,
    ensures
        located_within(records(buf, pos, done)->Err_0, pos, buf.len() as int),
    decreases buf.len() - pos,
{
    let server = BrowserProtocolField::ServerName;
    lemma_record_advances(buf, pos);
    lemma_field_value_advances(buf, pos, server);
    match text_value(buf, pos, server) {
        Err(e) => {
            lemma_text_failure_located(buf, pos, server);
        },
        Ok((name, next)) => {
            let first = Map::<BrowserProtocolField, Value>::empty().insert(
                server,
                Value::Text(name),
            );
            match record_at(buf, pos) {
                Err(e) => {
                    lemma_fields_failure_located(buf, next, server, first);
                },
                Ok(end) => {
                    if end.more {
                        lemma_records_failure_located(buf, end.next, done.push(end.record));
                    }
                },
            }
        },
    }
}

/// Where a datagram is refused because bytes of it are no text, the
/// position that the error names lies in the body of the datagram.
pub proof fn lemma_text_failure_lies_in_body(buf: Seq<u8>)
    requires
        decoded(buf) is Err,
    ensures
        located_within(decoded(buf)->Err_0, HEADER_LEN as int, buf.len() as int),
{
    if buf.len() >= HEADER_LEN && buf[0] == RESPONSE_IDENTIFIER && declared_length(buf)
        == buf.len() - HEADER_LEN {
        lemma_records_failure_located(buf, HEADER_LEN as int, Seq::empty());
    }
}

/// A datagram that does not start with the identifier of a reply is
/// refused for that, whatever else it holds.
pub proof fn lemma_identifier_comes_first(buf: Seq<u8>)
    requires
        buf.len() >= 1,
        buf[0] != RESPONSE_IDENTIFIER,
    ensures
        decoded(buf) == Err::<Seq<RecordView>, ProtocolErrorView>(
            unexpected(
                TokenView::MessageIdentifier(RESPONSE_IDENTIFIER),
                TokenView::MessageIdentifier(buf[0]),
            ),
        ),
{
}

/// A datagram that starts with the identifier of a reply and whose header
/// declares another length than its body has is refused with
/// `LengthMismatch`, which holds the length of the body and the length that
/// the header declares.
pub proof fn lemma_length_mismatch(buf: Seq<u8>)
    requires
        buf.len() >= HEADER_LEN,
        buf[0] == RESPONSE_IDENTIFIER,
        declared_length(buf) != buf.len() - HEADER_LEN,
    ensures
        decoded(buf) == Err::<Seq<RecordView>, ProtocolErrorView>(
            ProtocolErrorView::LengthMismatch {
                datagram: (buf.len() - HEADER_LEN) as nat,
                header: declared_length(buf),
            },
        ),
{
}

/// A byte that is no identifier, where an identifier could stand, is
/// refused with `UnexpectedToken`: the byte is reported as found, and the
/// identifier as expected that would have been reported had the datagram
/// ended there.
///
/// `cut` is a datagram that ends where an identifier could stand: its body
/// decodes to the error that an identifier was expected at the end of the
/// message. `buf` holds the body of `cut`, then the byte, then any bytes,
/// under a header of its own.
pub proof fn lemma_unrecognized_identifier(
    cut: Seq<u8>,
    buf: Seq<u8>,
    expected: BrowserProtocolField,
)
    requires
        HEADER_LEN <= cut.len() < buf.len(),
        agrees_from(cut, buf, HEADER_LEN as int),
        records(cut, HEADER_LEN as int, Seq::empty()) == Err::<
            Seq<RecordView>,
            ProtocolErrorView,
        >(unexpected(TokenView::Identifier(expected), TokenView::EndOfMessage)),
        buf[0] == RESPONSE_IDENTIFIER,
        declared_length(buf) == buf.len() - HEADER_LEN,
        !recognized(buf[cut.len() as int]),
    ensures
        decoded(buf) == Err::<Seq<RecordView>, ProtocolErrorView>(
            unexpected(
                TokenView::Identifier(expected),
                TokenView::MessageIdentifier(buf[cut.len() as int]),
            ),
        ),
{
    lemma_records_cut(cut, buf, HEADER_LEN as int, HEADER_LEN as int, Seq::empty(), expected);
}

/// Bytes after a complete reply are refused with `ExtraneousData`, which
/// holds exactly those bytes.
///
/// `reply` is a datagram that decodes to records. `buf` holds the body of
/// `reply` and after it at least one more byte, under a header that
/// declares the length of all of it.
pub proof fn lemma_trailing_bytes(reply: Seq<u8>, buf: Seq<u8>)
    requires
        decoded(reply) is Ok,
        reply.len() < buf.len(),
        agrees_from(reply, buf, HEADER_LEN as int),
        buf[0] == RESPONSE_IDENTIFIER,
        declared_length(buf) == buf.len() - HEADER_LEN,
    ensures
        decoded(buf) == Err::<Seq<RecordView>, ProtocolErrorView>(
            ProtocolErrorView::ExtraneousData(buf.subrange(reply.len() as int, buf.len() as int)),
        ),
{
    lemma_records_stable(reply, buf, HEADER_LEN as int, HEADER_LEN as int, Seq::empty());
}

/// Decoding keeps nothing between calls: two results of decoding the same
/// bytes hold the same records, or the same error.
pub proof fn lemma_decoding_repeats(
    buf: Seq<u8>,
    first: Result<Vec<InstanceRecord>, BrowserProtocolError>,
    second: Result<Vec<InstanceRecord>, BrowserProtocolError>,
)
    requires
        outcome_view(first) == decoded(buf),
        outcome_view(second) == decoded(buf),
    ensures
        outcome_view(first) == outcome_view(second),
{
}

} // verus!
