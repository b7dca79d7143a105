//! The record builder: drives a keyed or positional input stream into the
//! fields of a record.

use vstd::prelude::*;
use crate::bucket::UnknownBucket;
use crate::merge::DeserializeBestEffortTypes;
use crate::schema::{slot_of, FieldSlot, FieldSpec, MergeKind, Schema};

verus! {

/// The current value of one field.
#[derive(Debug)]
pub enum FieldValue {
    Scalar(String),
    List(Vec<String>),
    Maybe(Option<String>),
    MaybeList(Option<Vec<String>>),
}

/// The mathematical value of one field.
pub enum FieldModel {
    Scalar(Seq<char>),
    List(Seq<Seq<char>>),
    Maybe(Option<Seq<char>>),
    MaybeList(Option<Seq<Seq<char>>>),
}

pub open spec fn texts(v: Seq<String>) -> Seq<Seq<char>> {
    v.map_values(|s: String| s@)
}

impl View for FieldValue {
    type V = FieldModel;

    open spec fn view(&self) -> FieldModel {
        match self {
            FieldValue::Scalar(s) => FieldModel::Scalar(s@),
            FieldValue::List(l) => FieldModel::List(texts(l@)),
            FieldValue::Maybe(o) => FieldModel::Maybe(
                match o {
                    Some(s) => Some(s@),
                    None => None,
                },
            ),
            FieldValue::MaybeList(o) => FieldModel::MaybeList(
                match o {
                    Some(l) => Some(texts(l@)),
                    None => None,
                },
            ),
        }
    }
}

/// The empty value of a field of the given kind.
pub open spec fn zero_model(kind: MergeKind) -> FieldModel {
    match kind {
        MergeKind::Overwrite => FieldModel::Scalar(Seq::empty()),
        MergeKind::Append => FieldModel::List(Seq::empty()),
        MergeKind::SetOnce => FieldModel::Maybe(None),
        MergeKind::SetOnceAppend => FieldModel::MaybeList(None),
    }
}

/// A field's value after one more value `v` arrives for it.
pub open spec fn merge_model(m: FieldModel, v: Seq<char>) -> FieldModel {
    match m {
        FieldModel::Scalar(_) => FieldModel::Scalar(v),
        FieldModel::List(l) => FieldModel::List(l.push(v)),
        FieldModel::Maybe(_) => FieldModel::Maybe(Some(v)),
        FieldModel::MaybeList(o) => FieldModel::MaybeList(
            Some(
                match o {
                    Some(l) => l.push(v),
                    None => Seq::empty().push(v),
                },
            ),
        ),
    }
}

/// The mathematical value of a record: one value per declared field, and the
/// keys that no field claimed.
pub struct RecordModel {
    pub slots: Seq<FieldModel>,
    pub unknown: Map<Seq<char>, Seq<char>>,
}

/// A record before any input: every field empty, no unknown key.
pub open spec fn initial(fields: Seq<FieldSpec>) -> RecordModel {
    RecordModel {
        slots: Seq::new(fields.len(), |i: int| zero_model(fields[i].kind)),
        unknown: Map::empty(),
    }
}

/// What one value that arrived under `key` does to a record. A value that
/// failed to decode arrives as the empty text.
pub open spec fn step(fields: Seq<FieldSpec>, r: RecordModel, key: Seq<char>, v: Seq<char>) -> RecordModel {
    match slot_of(fields, key) {
        Some(i) => RecordModel { slots: r.slots.update(i, merge_model(r.slots[i], v)), ..r },
        None => RecordModel { unknown: r.unknown.insert(key, v), ..r },
    }
}

/// One keyed input: a key and its value, `None` where the value failed to decode.
#[derive(Debug)]
pub struct Entry {
    pub key: String,
    pub value: Option<String>,
}

/// The text a decoded value stands for; the empty text where decoding failed.
pub open spec fn decoded(v: Option<String>) -> Seq<char> {
    match v {
        Some(s) => s@,
        None => Seq::empty(),
    }
}

/// A record after the keyed inputs `entries`, in order, starting from `r`.
pub open spec fn run(fields: Seq<FieldSpec>, r: RecordModel, entries: Seq<Entry>) -> RecordModel
    decreases entries.len(),
{
    if entries.len() == 0 {
        r
    } else {
        let e = entries.last();
        step(fields, run(fields, r, entries.drop_last()), e.key@, decoded(e.value))
    }
}

/// A decoded record.
#[derive(Debug)]
pub struct Record {
    pub slots: Vec<FieldValue>,
    pub unknown: UnknownBucket,
}

impl View for Record {
    type V = RecordModel;

    open spec fn view(&self) -> RecordModel {
        RecordModel { slots: self.slots@.map_values(|f: FieldValue| f@), unknown: self.unknown@ }
    }
}

/// A decode that could not produce a record.
#[derive(Debug, PartialEq, Eq)]
pub enum DecodeError {
    /// Positional input held fewer values than the record has fields.
    Truncated { expected: usize, found: usize },
    /// The input stream itself is malformed.
    Malformed(String),
}

/// The empty value of a field of the given kind.
pub fn zero_value(kind: MergeKind) -> (r: FieldValue)
    ensures
        r@ == zero_model(kind),
{
    match kind {
        MergeKind::Overwrite => FieldValue::Scalar(String::new()),
        MergeKind::Append => {
            let l: Vec<String> = Vec::new();
            proof { assert(texts(l@) =~= Seq::empty()); }
            FieldValue::List(l)
        },
        MergeKind::SetOnce => FieldValue::Maybe(None),
        MergeKind::SetOnceAppend => FieldValue::MaybeList(None),
    }
}

/// Merges one more value into a field, by the strategy of the field's type.
pub fn merge_value(cur: FieldValue, key: &str, v: String) -> (r: FieldValue)
    ensures
        r@ == merge_model(cur@, v@),
{
    match cur {
        FieldValue::Scalar(mut s) => {
            s.add_data(key, v);
            FieldValue::Scalar(s)
        },
        FieldValue::List(mut l) => {
            let ghost prev = l@;
            let ghost t = v@;
            l.add_data(key, v);
            proof { assert(texts(l@) =~= texts(prev).push(t)); }
            FieldValue::List(l)
        },
        FieldValue::Maybe(mut o) => {
            o.add_data(key, v);
            FieldValue::Maybe(o)
        },
        FieldValue::MaybeList(mut o) => {
            let ghost prev = o;
            let ghost t = v@;
            o.add_data(key, v);
            proof {
                let l = o.unwrap();
                match prev {
                    Some(p) => assert(texts(l@) =~= texts(p@).push(t)),
                    None => assert(texts(l@) =~= Seq::<Seq<char>>::empty().push(t)),
                }
            }
            FieldValue::MaybeList(o)
        },
    }
}

/// A record under construction.
#[derive(Debug)]
pub struct RecordBuilder {
    record: Record,
}

impl View for RecordBuilder {
    type V = RecordModel;

    closed spec fn view(&self) -> RecordModel {
        self.record@
    }
}

impl RecordBuilder {
    /// A record with every field at its empty value and no unknown key.
    pub fn new(schema: &Schema) -> (r: RecordBuilder)
        ensures
            r@ == initial(schema@),
    {
        let n = schema.len();
        let mut slots: Vec<FieldValue> = Vec::new();
        let mut i: usize = 0;
        while i < n
            invariant
                i <= n,
                n == schema@.len(),
                slots@.len() == i,
                forall|j: int| 0 <= j < i ==> (#[trigger] slots@[j])@ == zero_model(schema@[j].kind),
            decreases n - i,
        {
            slots.push(zero_value(schema.field(i).kind));
            i = i + 1;
        }
        let record = Record { slots, unknown: UnknownBucket::new() };
        proof { assert(record@.slots =~= initial(schema@).slots); }
        RecordBuilder { record }
    }

    /// Applies one keyed input: a key that a field claims merges the value into
    /// that field; any other key is captured with its value. A value that
    /// failed to decode (`None`) counts as the empty text.
    pub fn feed(&mut self, schema: &Schema, key: &String, value: Option<String>)
        requires
            old(self)@.slots.len() == schema@.len(),
        ensures
            final(self)@ == step(schema@, old(self)@, key@, decoded(value)),
    {
        let ghost t = decoded(value);
        let v = match value {
            Some(s) => s,
            None => String::new(),
        };
        match schema.resolve(key) {
            FieldSlot::Known(i) => {
                let ghost before = self.record.slots@;
                let cur = self.record.slots.remove(i);
                let next = merge_value(cur, key.as_str(), v);
                self.record.slots.insert(i, next);
                proof {
                    assert(self.record.slots@ =~= before.update(i as int, next));
                    assert(self@.slots =~= old(self)@.slots.update(i as int, merge_model(old(self)@.slots[i as int], t)));
                }
            },
            FieldSlot::Unknown(k) => {
                self.record.unknown.insert(k, v);
                proof { assert(self@.slots =~= old(self)@.slots); }
            },
        }
    }

    /// The finished record.
    pub fn finish(self) -> (r: Record)
        ensures
            r@ == self@,
    {
        self.record
    }
}

/// Decodes a record from keyed inputs, in order. Unknown keys are captured,
/// values that failed to decode count as empty, and fields that received no
/// value keep their empty value.
pub fn decode_keyed(schema: &Schema, entries: &Vec<Entry>) -> (r: Record)
    ensures
        r@ == run(schema@, initial(schema@), entries@),
{
    let mut b = RecordBuilder::new(schema);
    let mut i: usize = 0;
    while i < entries.len()
        invariant
            i <= entries@.len(),
            b@ == run(schema@, initial(schema@), entries@.take(i as int)),
            b@.slots.len() == schema@.len(),
        decreases entries@.len() - i,
    {
        let e = &entries[i];
        let value = match &e.value {
            Some(s) => Some(s.clone()),
            None => None,
        };
        b.feed(schema, &e.key, value);
        proof {
            assert(entries@.take(i + 1).drop_last() =~= entries@.take(i as int));
        }
        i = i + 1;
    }
    proof { assert(entries@.take(i as int) =~= entries@); }
    b.finish()
}

/// The entries carried by a stream in which every event is well formed.
pub open spec fn entries_of(events: Seq<Result<Entry, String>>) -> Seq<Entry> {
    events.map_values(|ev: Result<Entry, String>| ev->Ok_0)
}

/// Decodes a record from a stream of keyed inputs in which an event may
/// report malformed framing. The first such event aborts the decode with its
/// cause; otherwise the record is the one `decode_keyed` builds.
pub fn decode_stream(schema: &Schema, events: &Vec<Result<Entry, String>>) -> (r: Result<Record, DecodeError>)
    ensures
        r is Ok <==> forall|i: int| 0 <= i < events@.len() ==> events@[i] is Ok,
        r matches Ok(rec) ==> rec@ == run(schema@, initial(schema@), entries_of(events@)),
        r matches Err(e) ==> exists|i: int|
            0 <= i < events@.len() && (forall|j: int| 0 <= j < i ==> events@[j] is Ok) && events@[i] is Err
                && e == DecodeError::Malformed(events@[i]->Err_0),
{
    let mut b = RecordBuilder::new(schema);
    let mut i: usize = 0;
    while i < events.len()
        invariant
            i <= events@.len(),
            forall|j: int| 0 <= j < i ==> events@[j] is Ok,
            b@ == run(schema@, initial(schema@), entries_of(events@.take(i as int))),
            b@.slots.len() == schema@.len(),
        decreases events@.len() - i,
    {
        match &events[i] {
            Ok(e) => {
                let value = match &e.value {
                    Some(s) => Some(s.clone()),
                    None => None,
                };
                b.feed(schema, &e.key, value);
                proof {
                    assert(entries_of(events@.take(i + 1)).drop_last() =~= entries_of(events@.take(i as int)));
                }
            },
            Err(c) => {
                return Err(DecodeError::Malformed(c.clone()));
            },
        }
        i = i + 1;
    }
    proof { assert(events@.take(i as int) =~= events@); }
    Ok(b.finish())
}

/// Decodes a record from values given in field order, with no keys. The
/// value at position `i` becomes field `i`'s value; values past the last
/// field are ignored. Fewer values than fields is a `Truncated` failure.
pub fn decode_positional(schema: &Schema, values: Vec<FieldValue>) -> (r: Result<Record, DecodeError>)
    ensures
        r is Err <==> values@.len() < schema@.len(),
        r matches Err(e) ==> e == (DecodeError::Truncated { expected: schema@.len() as usize, found: values@.len() as usize }),
        r matches Ok(rec) ==> rec@.slots == values@.take(schema@.len() as int).map_values(|f: FieldValue| f@)
            && rec@.unknown == Map::<Seq<char>, Seq<char>>::empty(),
{
    let n = schema.len();
    if values.len() < n {
        return Err(DecodeError::Truncated { expected: n, found: values.len() });
    }
    let mut slots = values;
    slots.truncate(n);
    let rec = Record { slots, unknown: UnknownBucket::new() };
    proof {
        assert(rec@.slots =~= values@.take(n as int).map_values(|f: FieldValue| f@));
    }
    Ok(rec)
}

/// The kind of field that holds a value of this shape.
pub open spec fn kind_of(m: FieldModel) -> MergeKind {
    match m {
        FieldModel::Scalar(_) => MergeKind::Overwrite,
        FieldModel::List(_) => MergeKind::Append,
        FieldModel::Maybe(_) => MergeKind::SetOnce,
        FieldModel::MaybeList(_) => MergeKind::SetOnceAppend,
    }
}

/// Keyed decoding keeps one value per field, each of the shape its
/// declaration gives.
pub proof fn lemma_run_keeps_kinds(fields: Seq<FieldSpec>, entries: Seq<Entry>)
    ensures
        run(fields, initial(fields), entries).slots.len() == fields.len(),
        forall|i: int| 0 <= i < fields.len()
            ==> kind_of(#[trigger] run(fields, initial(fields), entries).slots[i]) == fields[i].kind,
    decreases entries.len(),
{
    if entries.len() > 0 {
        lemma_run_keeps_kinds(fields, entries.drop_last());
    } else {
        assert forall|i: int| 0 <= i < fields.len() implies
            kind_of(#[trigger] initial(fields).slots[i]) == fields[i].kind by {
            match fields[i].kind {
                MergeKind::Overwrite => {},
                MergeKind::Append => {},
                MergeKind::SetOnce => {},
                MergeKind::SetOnceAppend => {},
            }
        }
    }
}

} // verus!
