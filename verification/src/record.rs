//! Instance records: what one reply says of one server instance.

use crate::error::{BrowserProtocolField, FIELD_COUNT};
use vstd::prelude::*;

verus! {

/// The decoded value of one field.
#[derive(Debug, Clone, PartialEq, Eq)]
pub enum FieldValue {
    /// The value of a field that holds text
    Text(String),
    /// The value of a field that holds a number
    Number(u16),
}

/// What a field value is, its text taken as a sequence of characters.
pub ghost enum Value {
    Text(Seq<char>),
    Number(u16),
}

impl View for FieldValue {
    type V = Value;

    open spec fn view(&self) -> Value {
        match self {
            FieldValue::Text(s) => Value::Text(s@),
            FieldValue::Number(n) => Value::Number(*n),
        }
    }
}

/// What a record is: a map from the fields that it carries to their values.
pub type RecordView = Map<BrowserProtocolField, Value>;

/// One advertised server instance: its fields and their values.
#[derive(Debug, Clone, PartialEq, Eq)]
pub struct InstanceRecord {
    slots: [Option<FieldValue>; FIELD_COUNT],
}

/// Every field is the one that stands at its own position.
pub proof fn lemma_field_at_ordinal(field: BrowserProtocolField)
    ensures
        field.ordinal() < 13,
        BrowserProtocolField::at(field.ordinal()) == Some(field),
{
}

impl View for InstanceRecord {
    type V = RecordView;

    closed spec fn view(&self) -> RecordView {
        Map::new(
            |f: BrowserProtocolField| self.slots@[f.ordinal() as int] is Some,
            |f: BrowserProtocolField| self.slots@[f.ordinal() as int]->0@,
        )
    }
}

impl InstanceRecord {
    /// A record that carries no field.
    pub fn new() -> (r: InstanceRecord)
        ensures
            r@ == Map::<BrowserProtocolField, Value>::empty(),
    {
        let r = InstanceRecord {
            slots: [
                None,
                None,
                None,
                None,
                None,
                None,
                None,
                None,
                None,
                None,
                None,
                None,
                None,
            ],
        };
        assert(r@ =~= Map::<BrowserProtocolField, Value>::empty());
        r
    }

    /// Gives `field` the value `value`; a value that the record held for the
    /// field before is replaced.
    pub fn insert(&mut self, field: BrowserProtocolField, value: FieldValue)
        ensures
            final(self)@ == old(self)@.insert(field, value@),
    {
        let i: usize = field.index();
        let ghost v = value@;
        self.slots[i] = Some(value);
        proof {
            assert forall|f: BrowserProtocolField| f.ordinal() == field.ordinal() implies f
                == field by {
                lemma_field_at_ordinal(f);
                lemma_field_at_ordinal(field);
            }
            assert(final(self)@ =~= old(self)@.insert(field, v));
        }
    }

    /// The value of `field`, if the record carries the field.
    pub fn get(&self, field: BrowserProtocolField) -> (r: Option<&FieldValue>)
        ensures
            r is Some <==> self@.contains_key(field),
            r is Some ==> r->0@ == self@[field],
    {
        let i: usize = field.index();
        self.slots[i].as_ref()
    }

    /// Whether the record carries `field`.
    pub fn contains(&self, field: BrowserProtocolField) -> (b: bool)
        ensures
            b == self@.contains_key(field),
    {
        let i: usize = field.index();
        self.slots[i].is_some()
    }

    /// The fields that the record carries, in the order of the vocabulary.
    pub fn fields(&self) -> (r: Vec<BrowserProtocolField>)
        ensures
            forall|f: BrowserProtocolField| r@.contains(f) <==> self@.contains_key(f),
            forall|i: int, j: int|
                0 <= i < j < r.len() ==> (#[trigger] r@[i]).ordinal() < (#[trigger] r@[j]).ordinal(),
    {
        let mut carried: Vec<BrowserProtocolField> = Vec::new();
        let mut i: usize = 0;
        while i < FIELD_COUNT
            invariant
                i <= FIELD_COUNT,
                forall|f: BrowserProtocolField|
                    carried@.contains(f) <==> (self@.contains_key(f) && f.ordinal() < i),
                forall|k: int| 0 <= k < carried.len() ==> (#[trigger] carried@[k]).ordinal() < i,
                forall|k: int, l: int|
                    0 <= k < l < carried.len() ==> (#[trigger] carried@[k]).ordinal() < (
                    #[trigger] carried@[l]).ordinal(),
            decreases FIELD_COUNT - i,
        {
            let ghost before = carried@;
            match BrowserProtocolField::from_index(i) {
                Some(field) => {
                    if self.slots[i].is_some() {
                        carried.push(field);
                        proof {
                            assert(carried@[before.len() as int] == field);
                            assert forall|f: BrowserProtocolField|
                                carried@.contains(f) <==> (self@.contains_key(f) && f.ordinal()
                                    < i + 1) by {
                                lemma_field_at_ordinal(f);
                                if before.contains(f) {
                                    let k = choose|k: int| 0 <= k < before.len() && before[k] == f;
                                    assert(carried@[k] == f);
                                }
                                if carried@.contains(f) && !before.contains(f) {
                                    let k = choose|k: int|
                                        0 <= k < carried@.len() && carried@[k] == f;
                                    assert(k == before.len());
                                }
                            }
                        }
                    } else {
                        proof {
                            assert forall|f: BrowserProtocolField|
                                carried@.contains(f) <==> (self@.contains_key(f) && f.ordinal()
                                    < i + 1) by {
                                lemma_field_at_ordinal(f);
                            }
                        }
                    }
                },
                None => {},
            }
            i += 1;
        }
        carried
    }

    /// The text of `field`, if the record carries the field with a text value.
    pub fn text(&self, field: BrowserProtocolField) -> (r: Option<&str>)
        ensures
            match r {
                Some(s) => self@.contains_key(field) && self@[field] == Value::Text(s@),
                None => !(self@.contains_key(field) && self@[field] is Text),
            },
    {
        match self.get(field) {
            Some(FieldValue::Text(s)) => Some(s.as_str()),
            _ => None,
        }
    }

    /// The number of `field`, if the record carries the field with a number.
    pub fn number(&self, field: BrowserProtocolField) -> (r: Option<u16>)
        ensures
            match r {
                Some(n) => self@.contains_key(field) && self@[field] == Value::Number(n),
                None => !(self@.contains_key(field) && self@[field] is Number),
            },
    {
        match self.get(field) {
            Some(FieldValue::Number(n)) => Some(*n),
            _ => None,
        }
    }
}

/// What a sequence of records is: the sequence of their maps.
pub open spec fn records_view(records: Seq<InstanceRecord>) -> Seq<RecordView> {
    records.map_values(|r: InstanceRecord| r@)
}

} // verus!
