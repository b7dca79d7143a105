//! The demonstration records: two sequences of text that may each repeat in
//! the input, with unknown keys captured.

use vstd::prelude::*;
use crate::bucket::UnknownBucket;
use crate::merge::{DeserializeBestEffort, DeserializeBestEffortTypes};
use crate::record::{
    decode_keyed, decoded, initial, kind_of, lemma_run_keeps_kinds, run, texts, Entry, FieldModel,
    FieldValue, RecordModel,
};
use crate::schema::{answers_to, slot_of, unambiguous, FieldDescriptor, FieldSpec, MergeKind, Schema};

verus! {

/// The declarations of the demonstration records: `field1` and `field2`, both
/// appending, without aliases.
pub open spec fn root_fields() -> Seq<FieldSpec> {
    seq![
        FieldSpec { name: "field1"@, aliases: Seq::empty(), kind: MergeKind::Append },
        FieldSpec { name: "field2"@, aliases: Seq::empty(), kind: MergeKind::Append },
    ]
}

/// `field1` and `field2` are the only keys the demonstration records claim.
proof fn lemma_root_slots(key: Seq<char>)
    ensures
        unambiguous(root_fields()),
        slot_of(root_fields(), key) == if key == "field1"@ {
            Some(0int)
        } else if key == "field2"@ {
            Some(1int)
        } else {
            None::<int>
        },
{
    reveal_strlit("field1");
    reveal_strlit("field2");
    let f = root_fields();
    assert("field1"@[5] != "field2"@[5]);
    assert(forall|i: int, k: Seq<char>| 0 <= i < 2 && #[trigger] answers_to(f[i], k) ==> k == f[i].name);
    if key == "field1"@ {
        assert(answers_to(f[0], key));
    } else if key == "field2"@ {
        assert(answers_to(f[1], key));
    }
}

/// The schema of the demonstration records.
pub fn root_schema() -> (r: Schema)
    ensures
        r@ == root_fields(),
{
    let f1 = FieldDescriptor { name: "field1".to_owned(), aliases: Vec::new(), kind: MergeKind::Append };
    let f2 = FieldDescriptor { name: "field2".to_owned(), aliases: Vec::new(), kind: MergeKind::Append };
    let fields = vec![f1, f2];
    proof {
        lemma_root_slots(Seq::empty());
        assert(fields@[0]@.aliases =~= Seq::<Seq<char>>::empty());
        assert(fields@[1]@.aliases =~= Seq::<Seq<char>>::empty());
        assert(crate::schema::specs_of(fields@) =~= root_fields());
    }
    match Schema::new(fields) {
        Ok(s) => s,
        Err(_) => vstd::pervasive::unreached(),
    }
}

/// The texts held by an appending field's value.
pub open spec fn list_of(m: FieldModel) -> Seq<Seq<char>> {
    match m {
        FieldModel::List(l) => l,
        _ => Seq::empty(),
    }
}

/// The record decoded in best-effort mode, with its fields generated from
/// the declarations.
#[derive(Debug)]
pub struct RootWorking {
    pub field1: Vec<String>,
    pub field2: Vec<String>,
    pub unknown: UnknownBucket,
}

impl DeserializeBestEffort for RootWorking {
}

/// The same record, decoded by a resolver written out by hand.
#[derive(Debug)]
pub struct RootWorkingManualImpl {
    pub field1: Vec<String>,
    pub field2: Vec<String>,
    pub unknown: UnknownBucket,
}

impl DeserializeBestEffort for RootWorkingManualImpl {
}

/// What keyed decoding of the demonstration records yields for `entries`.
pub open spec fn root_model(entries: Seq<Entry>) -> RecordModel {
    run(root_fields(), initial(root_fields()), entries)
}

/// Decodes the best-effort record from keyed inputs.
pub fn parse_file_working(entries: &Vec<Entry>) -> (r: RootWorking)
    ensures
        texts(r.field1@) == list_of(root_model(entries@).slots[0]),
        texts(r.field2@) == list_of(root_model(entries@).slots[1]),
        r.unknown@ == root_model(entries@).unknown,
{
    let schema = root_schema();
    let rec = decode_keyed(&schema, entries);
    proof { lemma_run_keeps_kinds(root_fields(), entries@); }
    let mut slots = rec.slots;
    let ghost all = slots@;
    proof {
        let m = root_model(entries@);
        assert(kind_of(m.slots[0]) == root_fields()[0].kind);
        assert(kind_of(m.slots[1]) == root_fields()[1].kind);
        assert(m.slots[0] == all[0]@);
        assert(m.slots[1] == all[1]@);
    }
    let second = slots.pop().unwrap();
    let first = slots.pop().unwrap();
    let field1 = match first {
        FieldValue::List(l) => l,
        _ => vstd::pervasive::unreached(),
    };
    let field2 = match second {
        FieldValue::List(l) => l,
        _ => vstd::pervasive::unreached(),
    };
    RootWorking { field1, field2, unknown: rec.unknown }
}

/// Decodes the record whose resolver matches `field1` and `field2` by hand.
pub fn parse_file_working_manual_impl(entries: &Vec<Entry>) -> (r: RootWorkingManualImpl)
    ensures
        texts(r.field1@) == list_of(root_model(entries@).slots[0]),
        texts(r.field2@) == list_of(root_model(entries@).slots[1]),
        r.unknown@ == root_model(entries@).unknown,
{
    let name1 = "field1".to_owned();
    let name2 = "field2".to_owned();
    let mut field1: Vec<String> = Vec::new();
    let mut field2: Vec<String> = Vec::new();
    let mut unknown = UnknownBucket::new();
    proof {
        lemma_run_keeps_kinds(root_fields(), Seq::empty());
        assert(root_model(Seq::empty()).slots[0] == FieldModel::List(Seq::empty()));
        assert(texts(field1@) =~= Seq::empty());
        assert(texts(field2@) =~= Seq::empty());
    }
    let mut i: usize = 0;
    while i < entries.len()
        invariant
            i <= entries@.len(),
            name1@ == "field1"@,
            name2@ == "field2"@,
            root_model(entries@.take(i as int)).slots.len() == 2,
            root_model(entries@.take(i as int)).slots[0] == FieldModel::List(texts(field1@)),
            root_model(entries@.take(i as int)).slots[1] == FieldModel::List(texts(field2@)),
            unknown@ == root_model(entries@.take(i as int)).unknown,
        decreases entries@.len() - i,
    {
        let e = &entries[i];
        let value = match &e.value {
            Some(s) => s.clone(),
            None => String::new(),
        };
        let ghost prev1 = field1@;
        let ghost prev2 = field2@;
        let ghost t = value@;
        proof {
            lemma_root_slots(e.key@);
            assert(entries@.take(i + 1).drop_last() =~= entries@.take(i as int));
            assert(t == decoded(e.value));
        }
        if e.key.eq(&name1) {
            field1.add_data("field1", value);
            proof { assert(texts(field1@) =~= texts(prev1).push(t)); }
        } else if e.key.eq(&name2) {
            field2.add_data("field2", value);
            proof { assert(texts(field2@) =~= texts(prev2).push(t)); }
        } else {
            unknown.add_data(e.key.as_str(), value);
        }
        i = i + 1;
    }
    proof {
        assert(entries@.take(i as int) =~= entries@);
    }
    RootWorkingManualImpl { field1, field2, unknown }
}

} // verus!
