//! The decoder: from the bytes of one reply datagram to instance records.
//!
//! The decoder is a small machine. Its state says which token it expects
//! next; each step reads that token at the current position and either
//! fails with the error of that place or moves on. Nothing is kept between
//! two calls of `decode`.

use crate::error::{
    BrowserProtocolError, BrowserProtocolField, BrowserProtocolToken, ProtocolErrorView,
    FIELD_COUNT,
};
use crate::record::{records_view, FieldValue, InstanceRecord, RecordView};
use crate::utf8::{lemma_valid_up_to_unique, str_from_utf8, text_at};
use crate::wire::{
    at_end, decoded, field_of_identifier, field_value, fields, first_terminator, holds_number,
    lemma_first_terminator, records, text_value, u16_le, RecordEnd, END_OF_MESSAGE, HEADER_LEN,
    RECORD_SEPARATOR, RESPONSE_IDENTIFIER, VALUE_TERMINATOR,
};
use vstd::prelude::*;
use vstd::slice::{slice_subrange, slice_to_vec};

verus! {

/// The token that the decoder expects next.
#[derive(Debug, Clone, Copy)]
enum Expecting {
    /// The name of the server, which opens a record
    ServerName,
    /// An identifier, a record separator or the end marker, after the value
    /// of the given field
    Identifier(BrowserProtocolField),
    /// The value of the given field
    Value(BrowserProtocolField),
    /// The end of the datagram
    End,
}

/// What the end of a record's fields leads to: the next record, or the end
/// of the datagram.
spec fn after_record(
    buf: Seq<u8>,
    done: Seq<RecordView>,
    end: Result<RecordEnd, ProtocolErrorView>,
) -> Result<Seq<RecordView>, ProtocolErrorView> {
    match end {
        Err(e) => Err(e),
        Ok(end) => if end.more {
            records(buf, end.next, done.push(end.record))
        } else {
            at_end(buf, end.next, done.push(end.record))
        },
    }
}

/// What the machine is heading for when it stands at `pos` in `state`, with
/// the unfinished record `current` and the finished records `done`.
spec fn heading_for(
    buf: Seq<u8>,
    state: Expecting,
    pos: int,
    current: RecordView,
    done: Seq<RecordView>,
) -> Result<Seq<RecordView>, ProtocolErrorView> {
    match state {
        Expecting::ServerName => records(buf, pos, done),
        Expecting::Identifier(last) => after_record(buf, done, fields(buf, pos, last, current)),
        Expecting::Value(field) => match field_value(buf, pos, field) {
            Err(e) => Err(e),
            Ok((value, next)) => after_record(
                buf,
                done,
                fields(buf, next, field, current.insert(field, value)),
            ),
        },
        Expecting::End => at_end(buf, pos, done),
    }
}

/// What the result of `decode` is, its records and its error taken by
/// their views.
pub open spec fn outcome_view(r: Result<Vec<InstanceRecord>, BrowserProtocolError>) -> Result<
    Seq<RecordView>,
    ProtocolErrorView,
> {
    match r {
        Ok(found) => Ok(records_view(found@)),
        Err(e) => Err(e@),
    }
}

/// The number that two bytes hold, low byte first.
fn read_u16_le(low: u8, high: u8) -> (n: u16)
    ensures
        n == u16_le(low, high),
{
    low as u16 + 256 * (high as u16)
}

/// The field that an identifier byte introduces.
fn field_for(byte: u8) -> (r: Option<BrowserProtocolField>)
    ensures
        r == field_of_identifier(byte),
{
    if 1 <= byte && byte as usize <= FIELD_COUNT {
        BrowserProtocolField::from_index((byte - 1) as usize)
    } else {
        None
    }
}

/// Whether the value of `field` is a number.
fn is_number(field: BrowserProtocolField) -> (b: bool)
    ensures
        b == holds_number(field),
{
    match field {
        BrowserProtocolField::TcpPort => true,
        _ => false,
    }
}

/// The error of a token that is not the expected one.
fn unexpected_token(expected: BrowserProtocolToken, found: BrowserProtocolToken) -> (e:
    BrowserProtocolError)
    ensures
        e@ == crate::wire::unexpected(expected@, found@),
{
    BrowserProtocolError::UnexpectedToken { expected, found }
}

/// The position of the first terminator at or after `from`.
fn find_terminator(buf: &[u8], from: usize) -> (r: Option<usize>)
    requires
        from <= buf.len(),
    ensures
        match r {
            Some(end) => first_terminator(buf@, from as int) == Some(end as int),
            None => first_terminator(buf@, from as int) is None,
        },
{
    let mut i: usize = from;
    while i < buf.len()
        invariant
            from <= i <= buf.len(),
            first_terminator(buf@, from as int) == first_terminator(buf@, i as int),
        decreases buf.len() - i,
    {
        if buf[i] == VALUE_TERMINATOR {
            return Some(i);
        }
        i += 1;
    }
    None
}

/// Reads the text value of `field` that starts at `start`.
fn read_text(buf: &[u8], start: usize, field: BrowserProtocolField) -> (r: Result<
    (String, usize),
    BrowserProtocolError,
>)
    requires
        start <= buf.len(),
    ensures
        match r {
            Ok((text, next)) => text_value(buf@, start as int, field) == Ok::<
                (Seq<char>, int),
                ProtocolErrorView,
            >((text@, next as int)) && start < next <= buf.len(),
            Err(e) => text_value(buf@, start as int, field) == Err::<
                (Seq<char>, int),
                ProtocolErrorView,
            >(e@),
        },
{
    proof {
        lemma_first_terminator(buf@, start as int);
    }
    match find_terminator(buf, start) {
        None => Err(
            unexpected_token(BrowserProtocolToken::ValueOf(field), BrowserProtocolToken::EndOfMessage),
        ),
        Some(end) => {
            let raw = slice_subrange(buf, start, end);
            let outcome = str_from_utf8(raw);
            proof {
                if outcome is Err {
                    lemma_valid_up_to_unique(raw@, outcome->Err_0.offset as int);
                }
            }
            match text_at(outcome, start) {
                Ok(text) => Ok((text, end + 1)),
                Err(e) => Err(e),
            }
        },
    }
}

/// Reads the value of `field` that starts at `start`.
fn read_value(buf: &[u8], start: usize, field: BrowserProtocolField) -> (r: Result<
    (FieldValue, usize),
    BrowserProtocolError,
>)
    requires
        start <= buf.len(),
    ensures
        match r {
            Ok((value, next)) => field_value(buf@, start as int, field) == Ok::<
                (crate::record::Value, int),
                ProtocolErrorView,
            >((value@, next as int)) && start < next <= buf.len(),
            Err(e) => field_value(buf@, start as int, field) == Err::<
                (crate::record::Value, int),
                ProtocolErrorView,
            >(e@),
        },
{
    if is_number(field) {
        if buf.len() - start >= 2 {
            let n: u16 = read_u16_le(buf[start], buf[start + 1]);
            Ok((FieldValue::Number(n), start + 2))
        } else {
            Err(
                unexpected_token(
                    BrowserProtocolToken::ValueOf(field),
                    BrowserProtocolToken::EndOfMessage,
                ),
            )
        }
    } else {
        match read_text(buf, start, field) {
            Ok((text, next)) => Ok((FieldValue::Text(text), next)),
            Err(e) => Err(e),
        }
    }
}

/// Decodes one reply datagram.
///
/// The result is the records of the datagram in the order in which they
/// stand in it, or the error of the first place at which the datagram is
/// not a reply: `decoded` says which, for every sequence of bytes.
pub fn decode(buf: &[u8]) -> (r: Result<Vec<InstanceRecord>, BrowserProtocolError>)
    ensures
        outcome_view(r) == decoded(buf@),
{
    if buf.len() == 0 {
        return Err(
            unexpected_token(
                BrowserProtocolToken::MessageIdentifier(RESPONSE_IDENTIFIER),
                BrowserProtocolToken::EndOfMessage,
            ),
        );
    }
    if buf[0] != RESPONSE_IDENTIFIER {
        return Err(
            unexpected_token(
                BrowserProtocolToken::MessageIdentifier(RESPONSE_IDENTIFIER),
                BrowserProtocolToken::MessageIdentifier(buf[0]),
            ),
        );
    }
    if buf.len() < HEADER_LEN {
        return Err(
            unexpected_token(BrowserProtocolToken::MessageLength, BrowserProtocolToken::EndOfMessage),
        );
    }
    let declared: u16 = read_u16_le(buf[1], buf[2]);
    if declared as usize != buf.len() - HEADER_LEN {
        return Err(
            BrowserProtocolError::LengthMismatch {
                datagram: buf.len() - HEADER_LEN,
                header: declared as usize,
            },
        );
    }
    let mut state = Expecting::ServerName;
    let mut pos: usize = HEADER_LEN;
    let mut current = InstanceRecord::new();
    let mut found: Vec<InstanceRecord> = Vec::new();
    assert(records_view(found@) =~= Seq::<RecordView>::empty());
    loop
        invariant
            pos <= buf.len(),
            heading_for(buf@, state, pos as int, current@, records_view(found@)) == decoded(buf@),
        decreases buf.len() - pos,
    {
        match state {
            Expecting::ServerName => {
                match read_text(buf, pos, BrowserProtocolField::ServerName) {
                    Err(e) => {
                        return Err(e);
                    },
                    Ok((name, next)) => {
                        current = InstanceRecord::new();
                        current.insert(BrowserProtocolField::ServerName, FieldValue::Text(name));
                        pos = next;
                        state = Expecting::Identifier(BrowserProtocolField::ServerName);
                    },
                }
            },
            Expecting::Identifier(last) => {
                if pos >= buf.len() {
                    return Err(
                        unexpected_token(
                            BrowserProtocolToken::Identifier(last.next()),
                            BrowserProtocolToken::EndOfMessage,
                        ),
                    );
                }
                let byte: u8 = buf[pos];
                if byte == END_OF_MESSAGE {
                    proof {
                        assert(records_view(found@.push(current)) =~= records_view(found@).push(
                            current@,
                        ));
                    }
                    found.push(current);
                    current = InstanceRecord::new();
                    pos = pos + 1;
                    state = Expecting::End;
                } else if byte == RECORD_SEPARATOR {
                    proof {
                        assert(records_view(found@.push(current)) =~= records_view(found@).push(
                            current@,
                        ));
                    }
                    found.push(current);
                    current = InstanceRecord::new();
                    pos = pos + 1;
                    state = Expecting::ServerName;
                } else {
                    match field_for(byte) {
                        None => {
                            return Err(
                                unexpected_token(
                                    BrowserProtocolToken::Identifier(last.next()),
                                    BrowserProtocolToken::MessageIdentifier(byte),
                                ),
                            );
                        },
                        Some(field) => {
                            pos = pos + 1;
                            state = Expecting::Value(field);
                        },
                    }
                }
            },
            Expecting::Value(field) => {
                match read_value(buf, pos, field) {
                    Err(e) => {
                        return Err(e);
                    },
                    Ok((value, next)) => {
                        current.insert(field, value);
                        pos = next;
                        state = Expecting::Identifier(field);
                    },
                }
            },
            Expecting::End => {
                if pos < buf.len() {
                    let rest = slice_to_vec(slice_subrange(buf, pos, buf.len()));
                    return Err(BrowserProtocolError::ExtraneousData(rest));
                }
                return Ok(found);
            },
        }
    }
}

} // verus!
