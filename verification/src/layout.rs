//! How records are laid out in a reply, and that what is laid out so is
//! decoded to those records.

use crate::error::{BrowserProtocolField, ProtocolErrorView, TokenView};
use crate::record::{RecordView, Value};
use crate::wire::{
    at_end, decoded, declared_length, field_of_identifier, field_value, fields,
    first_terminator, holds_number, identifier_of, recognized, record_at, records, text_value,
    u16_le, unexpected, RecordEnd, END_OF_MESSAGE, HEADER_LEN, RECORD_SEPARATOR, RESPONSE_IDENTIFIER,
    VALUE_TERMINATOR,
};
use vstd::prelude::*;
use vstd::utf8::{decode_utf8, valid_utf8};

verus! {

/// Whether `raw` can stand as a text value: it is well-formed UTF-8 and
/// holds no terminator.
pub open spec fn plain_text(raw: Seq<u8>) -> bool {
    &&& valid_utf8(raw)
    &&& forall|i: int| 0 <= i < raw.len() ==> raw[i] != VALUE_TERMINATOR
}

/// One field as it stands in a reply: the field, and the bytes of its
/// value without a terminator.
pub ghost struct FieldLayout {
    pub field: BrowserProtocolField,
    pub raw: Seq<u8>,
}

impl FieldLayout {
    /// Whether the bytes are a value of the field: two bytes for a number,
    /// plain text for every other field.
    pub open spec fn well_formed(self) -> bool {
        if holds_number(self.field) {
            self.raw.len() == 2
        } else {
            plain_text(self.raw)
        }
    }

    /// The value that the bytes stand for.
    pub open spec fn value(self) -> Value {
        if holds_number(self.field) {
            Value::Number(u16_le(self.raw[0], self.raw[1]))
        } else {
            Value::Text(decode_utf8(self.raw))
        }
    }

    /// The bytes of the field in a reply: its identifier, its value and,
    /// after text, the terminator.
    pub open spec fn bytes(self) -> Seq<u8> {
        if holds_number(self.field) {
            seq![identifier_of(self.field)] + self.raw
        } else {
            seq![identifier_of(self.field)] + self.raw + seq![VALUE_TERMINATOR]
        }
    }
}

/// The bytes of fields that stand one after the other.
pub open spec fn fields_bytes(layout: Seq<FieldLayout>) -> Seq<u8>
    decreases layout.len(),
{
    if layout.len() == 0 {
        Seq::empty()
    } else {
        layout[0].bytes() + fields_bytes(layout.drop_first())
    }
}

/// The record `record` after the fields were given their values, first
/// field first.
pub open spec fn fields_into(layout: Seq<FieldLayout>, record: RecordView) -> RecordView
    decreases layout.len(),
{
    if layout.len() == 0 {
        record
    } else {
        fields_into(layout.drop_first(), record.insert(layout[0].field, layout[0].value()))
    }
}

/// One record as it stands in a reply: the bytes of the server's name, and
/// the fields after it.
pub ghost struct RecordLayout {
    pub server: Seq<u8>,
    pub fields: Seq<FieldLayout>,
}

impl RecordLayout {
    /// Whether the name is plain text and every field is well-formed.
    pub open spec fn well_formed(self) -> bool {
        &&& plain_text(self.server)
        &&& forall|i: int| 0 <= i < self.fields.len() ==> (#[trigger] self.fields[i]).well_formed()
    }

    /// The bytes of the record in a reply, without the byte that ends it.
    pub open spec fn bytes(self) -> Seq<u8> {
        self.server + seq![VALUE_TERMINATOR] + fields_bytes(self.fields)
    }

    /// The record that the bytes stand for.
    pub open spec fn record(self) -> RecordView {
        fields_into(
            self.fields,
            Map::empty().insert(
                BrowserProtocolField::ServerName,
                Value::Text(decode_utf8(self.server)),
            ),
        )
    }
}

/// The field that was read last when the fields of `layout` have been
/// read after `last`.
pub open spec fn last_field(
    layout: Seq<FieldLayout>,
    last: BrowserProtocolField,
) -> BrowserProtocolField {
    if layout.len() == 0 {
        last
    } else {
        layout.last().field
    }
}

/// The bytes of the given records with separators between them, and the
/// byte `closing` after the last.
pub open spec fn records_bytes(layout: Seq<RecordLayout>, closing: u8) -> Seq<u8>
    decreases layout.len(),
{
    if layout.len() == 0 {
        Seq::empty()
    } else if layout.len() == 1 {
        layout[0].bytes() + seq![closing]
    } else {
        layout[0].bytes() + seq![RECORD_SEPARATOR] + records_bytes(layout.drop_first(), closing)
    }
}

/// The body of a reply that holds the given records: separators between
/// them and the end marker after the last.
pub open spec fn body_bytes(layout: Seq<RecordLayout>) -> Seq<u8> {
    records_bytes(layout, END_OF_MESSAGE)
}

/// A datagram with the header of a reply in front of `body`.
pub open spec fn with_header(body: Seq<u8>) -> Seq<u8> {
    header_bytes(body.len()) + body
}

/// How the fields of a record end at the byte `closing`, which stands
/// where an identifier could stand and is none: `record` is what the
/// record holds, `next` the position after the byte, and `last` the field
/// that was read last.
pub open spec fn closed_by(
    closing: u8,
    record: RecordView,
    next: int,
    last: BrowserProtocolField,
) -> Result<RecordEnd, ProtocolErrorView> {
    if closing == END_OF_MESSAGE {
        Ok(RecordEnd { record, next, more: false })
    } else if closing == RECORD_SEPARATOR {
        Ok(RecordEnd { record, next, more: true })
    } else {
        Err(
            unexpected(
                TokenView::Identifier(last.following()),
                TokenView::MessageIdentifier(closing),
            ),
        )
    }
}

/// The header of a reply whose body has `len` bytes.
pub open spec fn header_bytes(len: nat) -> Seq<u8> {
    seq![RESPONSE_IDENTIFIER, (len % 256) as u8, (len / 256) as u8]
}

/// The reply that holds the given records.
pub open spec fn reply_bytes(layout: Seq<RecordLayout>) -> Seq<u8> {
    with_header(body_bytes(layout))
}

/// The records that the layouts stand for.
pub open spec fn records_of(layout: Seq<RecordLayout>) -> Seq<RecordView> {
    layout.map_values(|r: RecordLayout| r.record())
}

/// Whether the bytes `part` stand in `buf` from `pos` on.
pub open spec fn stands_at(buf: Seq<u8>, pos: int, part: Seq<u8>) -> bool {
    &&& 0 <= pos
    &&& pos + part.len() <= buf.len()
    &&& forall|i: int| 0 <= i < part.len() ==> buf[pos + i] == #[trigger] part[i]
}

/// Where two parts stand one after the other, each of them stands.
proof fn lemma_stands_split(buf: Seq<u8>, pos: int, head: Seq<u8>, tail: Seq<u8>)
    requires
        stands_at(buf, pos, head + tail),
    ensures
        stands_at(buf, pos, head),
        stands_at(buf, pos + head.len(), tail),
{
    let whole = head + tail;
    assert forall|i: int| 0 <= i < head.len() implies buf[pos + i] == #[trigger] head[i] by {
        assert(whole[i] == head[i]);
    }
    assert forall|i: int| 0 <= i < tail.len() implies buf[pos + head.len() + i]
        == #[trigger] tail[i] by {
        assert(whole[head.len() + i] == tail[i]);
    }
}

/// The first terminator is the one before which no terminator stands.
proof fn lemma_scan_to_terminator(buf: Seq<u8>, from: int, end: int)
    requires
        0 <= from <= end < buf.len(),
        buf[end] == VALUE_TERMINATOR,
        forall|i: int| from <= i < end ==> buf[i] != VALUE_TERMINATOR,
    ensures
        first_terminator(buf, from) == Some(end),
    decreases end - from,
{
    if from < end {
        lemma_scan_to_terminator(buf, from + 1, end);
    }
}

/// Plain text and its terminator are read as the text value that they are.
proof fn lemma_text_stands(buf: Seq<u8>, pos: int, raw: Seq<u8>, field: BrowserProtocolField)
    requires
        stands_at(buf, pos, raw + seq![VALUE_TERMINATOR]),
        plain_text(raw),
    ensures
        text_value(buf, pos, field) == Ok::<(Seq<char>, int), ProtocolErrorView>(
            (decode_utf8(raw), pos + raw.len() + 1),
        ),
{
    lemma_stands_split(buf, pos, raw, seq![VALUE_TERMINATOR]);
    let end = pos + raw.len();
    assert(buf[end] == seq![VALUE_TERMINATOR][0]);
    assert forall|i: int| pos <= i < end implies buf[i] != VALUE_TERMINATOR by {
        assert(buf[pos + (i - pos)] == raw[i - pos]);
    }
    lemma_scan_to_terminator(buf, pos, end);
    assert(buf.subrange(pos, end) =~= raw) by {
        assert forall|i: int| 0 <= i < raw.len() implies buf.subrange(pos, end)[i] == raw[i] by {
            assert(buf[pos + i] == raw[i]);
        }
    }
}

/// The bytes of a well-formed field are read as its identifier and value.
proof fn lemma_field_stands(buf: Seq<u8>, pos: int, layout: FieldLayout)
    requires
        stands_at(buf, pos, layout.bytes()),
        layout.well_formed(),
    ensures
        pos < buf.len(),
        buf[pos] == identifier_of(layout.field),
        buf[pos] != END_OF_MESSAGE,
        buf[pos] != RECORD_SEPARATOR,
        field_of_identifier(buf[pos]) == Some(layout.field),
        field_value(buf, pos + 1, layout.field) == Ok::<(Value, int), ProtocolErrorView>(
            (layout.value(), pos + layout.bytes().len()),
        ),
{
    crate::record::lemma_field_at_ordinal(layout.field);
    let id = seq![identifier_of(layout.field)];
    if holds_number(layout.field) {
        lemma_stands_split(buf, pos, id, layout.raw);
        assert(buf[pos + 0] == id[0]);
        assert(buf[pos + 1 + 0] == layout.raw[0]);
        assert(buf[pos + 1 + 1] == layout.raw[1]);
    } else {
        let rest = layout.raw + seq![VALUE_TERMINATOR];
        assert(layout.bytes() =~= id + rest);
        lemma_stands_split(buf, pos, id, rest);
        assert(buf[pos + 0] == id[0]);
        lemma_text_stands(buf, pos + 1, layout.raw, layout.field);
    }
}

/// The bytes of well-formed fields are read as those fields, up to the
/// byte that closes them.
proof fn lemma_fields_stand(
    buf: Seq<u8>,
    pos: int,
    layout: Seq<FieldLayout>,
    closing: u8,
    last: BrowserProtocolField,
    record: RecordView,
)
    requires
        stands_at(buf, pos, fields_bytes(layout) + seq![closing]),
        field_of_identifier(closing) is None,
        forall|i: int| 0 <= i < layout.len() ==> (#[trigger] layout[i]).well_formed(),
    ensures
        fields(buf, pos, last, record) == closed_by(
            closing,
            fields_into(layout, record),
            pos + fields_bytes(layout).len() + 1,
            last_field(layout, last),
        ),
    decreases layout.len(),
{
    if layout.len() == 0 {
        assert(buf[pos + 0] == (fields_bytes(layout) + seq![closing])[0]);
    } else {
        let first = layout[0];
        let rest = layout.drop_first();
        assert(first.well_formed());
        assert(fields_bytes(layout) + seq![closing] =~= first.bytes() + (fields_bytes(rest)
            + seq![closing]));
        lemma_stands_split(buf, pos, first.bytes(), fields_bytes(rest) + seq![closing]);
        lemma_field_stands(buf, pos, first);
        assert forall|i: int| 0 <= i < rest.len() implies (#[trigger] rest[i]).well_formed() by {
            assert(rest[i] == layout[i + 1]);
        }
        lemma_fields_stand(
            buf,
            pos + first.bytes().len(),
            rest,
            closing,
            first.field,
            record.insert(first.field, first.value()),
        );
        if rest.len() > 0 {
            assert(rest.last() == layout.last());
        }
    }
}

/// The bytes of a well-formed record are read as that record, up to the
/// byte that closes it.
proof fn lemma_record_stands(buf: Seq<u8>, pos: int, layout: RecordLayout, closing: u8)
    requires
        stands_at(buf, pos, layout.bytes() + seq![closing]),
        field_of_identifier(closing) is None,
        layout.well_formed(),
    ensures
        record_at(buf, pos) == closed_by(
            closing,
            layout.record(),
            pos + layout.bytes().len() + 1,
            last_field(layout.fields, BrowserProtocolField::ServerName),
        ),
{
    let name = layout.server + seq![VALUE_TERMINATOR];
    let rest = fields_bytes(layout.fields) + seq![closing];
    assert(layout.bytes() + seq![closing] =~= name + rest);
    lemma_stands_split(buf, pos, name, rest);
    lemma_text_stands(buf, pos, layout.server, BrowserProtocolField::ServerName);
    lemma_fields_stand(
        buf,
        pos + name.len(),
        layout.fields,
        closing,
        BrowserProtocolField::ServerName,
        Map::empty().insert(
            BrowserProtocolField::ServerName,
            Value::Text(decode_utf8(layout.server)),
        ),
    );
}

/// What the records of `layout`, closed by `closing`, decode to where they
/// stand at `pos`, after the records `done`.
pub open spec fn records_closed_by(
    buf: Seq<u8>,
    pos: int,
    layout: Seq<RecordLayout>,
    closing: u8,
    done: Seq<RecordView>,
) -> Result<Seq<RecordView>, ProtocolErrorView> {
    if closing == END_OF_MESSAGE {
        at_end(buf, pos + records_bytes(layout, closing).len(), done + records_of(layout))
    } else {
        Err(
            unexpected(
                TokenView::Identifier(
                    last_field(layout.last().fields, BrowserProtocolField::ServerName).following(),
                ),
                TokenView::MessageIdentifier(closing),
            ),
        )
    }
}

/// The bytes of well-formed records are read as those records, up to the
/// byte that closes the last.
proof fn lemma_records_stand(
    buf: Seq<u8>,
    pos: int,
    layout: Seq<RecordLayout>,
    closing: u8,
    done: Seq<RecordView>,
)
    requires
        layout.len() >= 1,
        stands_at(buf, pos, records_bytes(layout, closing)),
        field_of_identifier(closing) is None,
        closing != RECORD_SEPARATOR,
        forall|i: int| 0 <= i < layout.len() ==> (#[trigger] layout[i]).well_formed(),
    ensures
        records(buf, pos, done) == records_closed_by(buf, pos, layout, closing, done),
    decreases layout.len(),
{
    let first = layout[0];
    assert(first.well_formed());
    if layout.len() == 1 {
        lemma_record_stands(buf, pos, first, closing);
        assert(done.push(first.record()) =~= done + records_of(layout));
        assert(layout.last() == first);
    } else {
        let rest = layout.drop_first();
        let head = first.bytes() + seq![RECORD_SEPARATOR];
        lemma_stands_split(buf, pos, head, records_bytes(rest, closing));
        lemma_record_stands(buf, pos, first, RECORD_SEPARATOR);
        assert forall|i: int| 0 <= i < rest.len() implies (#[trigger] rest[i]).well_formed() by {
            assert(rest[i] == layout[i + 1]);
        }
        lemma_records_stand(buf, pos + head.len(), rest, closing, done.push(first.record()));
        assert(done.push(first.record()) + records_of(rest) =~= done + records_of(layout));
        assert(rest.last() == layout.last());
    }
}

/// Under its header a body is read from the first byte after the header,
/// and what stands in the body stands three bytes further in the datagram.
proof fn lemma_header_stands(body: Seq<u8>)
    requires
        body.len() <= 65535,
    ensures
        with_header(body).len() == HEADER_LEN + body.len(),
        with_header(body)[0] == RESPONSE_IDENTIFIER,
        declared_length(with_header(body)) == body.len(),
        decoded(with_header(body)) == records(with_header(body), HEADER_LEN as int, Seq::empty()),
        forall|part: Seq<u8>, at: int|
            stands_at(body, at, part) ==> stands_at(with_header(body), HEADER_LEN + at, part),
{
    let header = header_bytes(body.len());
    let buf = with_header(body);
    assert(buf[0] == header[0]);
    assert(buf[1] == header[1]);
    assert(buf[2] == header[2]);
    assert forall|part: Seq<u8>, at: int| stands_at(body, at, part) implies stands_at(
        buf,
        HEADER_LEN + at,
        part,
    ) by {
        assert forall|i: int| 0 <= i < part.len() implies buf[HEADER_LEN + at + i]
            == #[trigger] part[i] by {
            assert(buf[HEADER_LEN + (at + i)] == body[at + i]);
        }
    }
}

/// The first part of a sequence stands at its start.
proof fn lemma_stands_at_start(whole: Seq<u8>, head: Seq<u8>, tail: Seq<u8>)
    requires
        whole == head + tail,
    ensures
        stands_at(whole, 0, head),
{
    assert forall|i: int| 0 <= i < head.len() implies whole[0 + i] == #[trigger] head[i] by {}
}

/// A reply that holds well-formed records decodes to exactly those
/// records, in their order: the name of the server as the value of
/// `ServerName`, and each field with the value that stands last for it.
pub proof fn lemma_reply_decodes(layout: Seq<RecordLayout>)
    requires
        layout.len() >= 1,
        forall|i: int| 0 <= i < layout.len() ==> (#[trigger] layout[i]).well_formed(),
        body_bytes(layout).len() <= 65535,
    ensures
        decoded(reply_bytes(layout)) == Ok::<Seq<RecordView>, ProtocolErrorView>(
            records_of(layout),
        ),
{
    let body = body_bytes(layout);
    lemma_header_stands(body);
    lemma_stands_at_start(body, body, Seq::empty());
    lemma_records_stand(
        with_header(body),
        HEADER_LEN as int,
        layout,
        END_OF_MESSAGE,
        Seq::empty(),
    );
    assert(Seq::<RecordView>::empty() + records_of(layout) =~= records_of(layout));
}

/// Bytes that stand after the end marker of well-formed records, under a
/// header that declares the length of all of it, are refused with
/// `ExtraneousData`, which holds exactly those bytes.
pub proof fn lemma_reply_with_trailing_bytes(layout: Seq<RecordLayout>, trailing: Seq<u8>)
    requires
        layout.len() >= 1,
        forall|i: int| 0 <= i < layout.len() ==> (#[trigger] layout[i]).well_formed(),
        trailing.len() >= 1,
        body_bytes(layout).len() + trailing.len() <= 65535,
    ensures
        decoded(with_header(body_bytes(layout) + trailing)) == Err::<
            Seq<RecordView>,
            ProtocolErrorView,
        >(ProtocolErrorView::ExtraneousData(trailing)),
{
    let body = body_bytes(layout) + trailing;
    let buf = with_header(body);
    lemma_header_stands(body);
    lemma_stands_at_start(body, body_bytes(layout), trailing);
    lemma_records_stand(buf, HEADER_LEN as int, layout, END_OF_MESSAGE, Seq::empty());
    let from = HEADER_LEN + body_bytes(layout).len();
    assert(buf.subrange(from, buf.len() as int) =~= trailing);
}

/// A byte that is no identifier, no separator and no end marker, where it
/// stands after the fields of a well-formed record, is refused with
/// `UnexpectedToken`, whatever follows it: the byte is reported as found,
/// and the identifier as expected is that of the field which follows the
/// last field of the record, or the server's name where the record has no
/// field.
pub proof fn lemma_reply_with_unknown_identifier(
    layout: Seq<RecordLayout>,
    byte: u8,
    rest: Seq<u8>,
)
    requires
        layout.len() >= 1,
        forall|i: int| 0 <= i < layout.len() ==> (#[trigger] layout[i]).well_formed(),
        !recognized(byte),
        records_bytes(layout, byte).len() + rest.len() <= 65535,
    ensures
        decoded(with_header(records_bytes(layout, byte) + rest)) == Err::<
            Seq<RecordView>,
            ProtocolErrorView,
        >(
            unexpected(
                TokenView::Identifier(
                    last_field(layout.last().fields, BrowserProtocolField::ServerName).following(),
                ),
                TokenView::MessageIdentifier(byte),
            ),
        ),
{
    let body = records_bytes(layout, byte) + rest;
    lemma_header_stands(body);
    lemma_stands_at_start(body, records_bytes(layout, byte), rest);
    lemma_records_stand(with_header(body), HEADER_LEN as int, layout, byte, Seq::empty());
}

} // verus!
