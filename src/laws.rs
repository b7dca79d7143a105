//! Properties of keyed decoding, stated over the record model.

use vstd::prelude::*;
use crate::record::{
    decoded, initial, merge_model, run, step, zero_model, Entry, FieldModel, RecordModel,
};
use crate::schema::{answers_to, slot_of, unambiguous, FieldSpec, MergeKind};

verus! {

/// A repeated key accumulates in an appending field: after `v1` then `v2`
/// the field holds `[v1, v2]`, in arrival order. In an overwriting field the
/// same two inputs leave `v2` only.
pub proof fn lemma_duplicate_key_accumulation(fields: Seq<FieldSpec>, key: Seq<char>, v1: Seq<char>, v2: Seq<char>)
    requires
        slot_of(fields, key) is Some,
    ensures
        ({
            let i = slot_of(fields, key)->Some_0;
            let r = step(fields, step(fields, initial(fields), key, v1), key, v2);
            &&& fields[i].kind == MergeKind::Append ==> r.slots[i] == FieldModel::List(seq![v1, v2])
            &&& fields[i].kind == MergeKind::Overwrite ==> r.slots[i] == FieldModel::Scalar(v2)
        }),
{
    let i = slot_of(fields, key)->Some_0;
    assert(0 <= i < fields.len() && answers_to(fields[i], key));
    let s0 = initial(fields);
    let s1 = step(fields, s0, key, v1);
    let s2 = step(fields, s1, key, v2);
    assert(s1.slots[i] == merge_model(zero_model(fields[i].kind), v1));
    assert(s2.slots[i] == merge_model(s1.slots[i], v2));
    if fields[i].kind == MergeKind::Append {
        assert(Seq::<Seq<char>>::empty().push(v1).push(v2) =~= seq![v1, v2]);
    }
}

/// A key given as one of a field's aliases has the same effect as the
/// field's name.
pub proof fn lemma_alias_equivalence(fields: Seq<FieldSpec>, i: int, a: int, r: RecordModel, v: Seq<char>)
    requires
        unambiguous(fields),
        0 <= i < fields.len(),
        0 <= a < fields[i].aliases.len(),
    ensures
        step(fields, r, fields[i].aliases[a], v) == step(fields, r, fields[i].name, v),
{
    lemma_slot_is(fields, i, fields[i].aliases[a]);
    lemma_slot_is(fields, i, fields[i].name);
}

/// A key that the field at `i` answers to resolves to `i`.
proof fn lemma_slot_is(fields: Seq<FieldSpec>, i: int, key: Seq<char>)
    requires
        unambiguous(fields),
        0 <= i < fields.len(),
        answers_to(fields[i], key),
    ensures
        slot_of(fields, key) == Some(i),
{
    let c = choose|c: int| 0 <= c < fields.len() && #[trigger] answers_to(fields[c], key);
    if c != i {
        assert(!answers_to(fields[c], key));
    }
}

/// A key that no field answers to is captured with its value, and leaves
/// every field as it was.
pub proof fn lemma_unknown_key_capture(fields: Seq<FieldSpec>, r: RecordModel, key: Seq<char>, v: Seq<char>)
    requires
        forall|i: int| 0 <= i < fields.len() ==> !#[trigger] answers_to(fields[i], key),
    ensures
        step(fields, r, key, v).unknown.contains_key(key),
        step(fields, r, key, v).unknown[key] == v,
        step(fields, r, key, v).unknown == r.unknown.insert(key, v),
        step(fields, r, key, v).slots == r.slots,
{
}

/// An empty input yields every field at its empty value and no unknown key.
pub proof fn lemma_zero_value_default(fields: Seq<FieldSpec>)
    ensures
        run(fields, initial(fields), Seq::empty()).slots.len() == fields.len(),
        forall|i: int| 0 <= i < fields.len()
            ==> #[trigger] run(fields, initial(fields), Seq::empty()).slots[i] == zero_model(fields[i].kind),
        run(fields, initial(fields), Seq::empty()).unknown == Map::<Seq<char>, Seq<char>>::empty(),
{
}

/// A value that failed to decode counts as the empty text for that
/// occurrence; a later occurrence of the same key still accumulates.
pub proof fn lemma_malformed_value_resilience(fields: Seq<FieldSpec>, bad: Entry, good: Entry)
    requires
        slot_of(fields, bad.key@) is Some,
        fields[slot_of(fields, bad.key@)->Some_0].kind == MergeKind::Append,
        bad.value is None,
        good.key@ == bad.key@,
        good.value is Some,
    ensures
        run(fields, initial(fields), seq![bad, good]).slots[slot_of(fields, bad.key@)->Some_0]
            == FieldModel::List(seq![Seq::<char>::empty(), good.value->Some_0@]),
{
    let i = slot_of(fields, bad.key@)->Some_0;
    assert(0 <= i < fields.len() && answers_to(fields[i], bad.key@));
    let es = seq![bad, good];
    assert(es.drop_last() =~= seq![bad]);
    assert(seq![bad].drop_last() =~= Seq::<Entry>::empty());
    assert(decoded(bad.value) == Seq::<char>::empty());
    let s0 = initial(fields);
    assert(run(fields, s0, Seq::<Entry>::empty()) == s0);
    let s1 = run(fields, s0, seq![bad]);
    assert(s1 == step(fields, s0, bad.key@, Seq::<char>::empty()));
    assert(s1.slots[i] == FieldModel::List(Seq::<Seq<char>>::empty().push(Seq::<char>::empty())));
    let s2 = run(fields, s0, es);
    assert(es.last() == good);
    assert(s2 == step(fields, s1, good.key@, good.value->Some_0@));
    assert(Seq::<Seq<char>>::empty().push(Seq::<char>::empty()).push(good.value->Some_0@)
        =~= seq![Seq::<char>::empty(), good.value->Some_0@]);
}

} // verus!
