//! Field declarations of a record type and the resolution of keys to fields.

use vstd::prelude::*;

verus! {

/// How a field combines a value that arrives for it with what it holds.
#[derive(Clone, Copy, Debug, PartialEq, Eq, Structural)]
pub enum MergeKind {
    /// A single value; a later one replaces it.
    Overwrite,
    /// A sequence; every value is pushed onto it.
    Append,
    /// An optional value; absent until a value arrives, then replaced.
    SetOnce,
    /// An optional sequence; created by the first value, then appended to.
    SetOnceAppend,
}

/// One declared field: its name, the other names it answers to, and how it
/// merges repeated values. Its ordinal is its place in the schema.
pub struct FieldDescriptor {
    pub name: String,
    pub aliases: Vec<String>,
    pub kind: MergeKind,
}

/// The mathematical value of a field declaration.
pub struct FieldSpec {
    pub name: Seq<char>,
    pub aliases: Seq<Seq<char>>,
    pub kind: MergeKind,
}

impl View for FieldDescriptor {
    type V = FieldSpec;

    open spec fn view(&self) -> FieldSpec {
        FieldSpec { name: self.name@, aliases: self.aliases@.map_values(|a: String| a@), kind: self.kind }
    }
}

/// The declarations' values, in order.
pub open spec fn specs_of(fields: Seq<FieldDescriptor>) -> Seq<FieldSpec> {
    fields.map_values(|f: FieldDescriptor| f@)
}

/// Whether `key` is the field's name or one of its aliases (exact match).
pub open spec fn answers_to(f: FieldSpec, key: Seq<char>) -> bool {
    f.name == key || exists|a: int| 0 <= a < f.aliases.len() && f.aliases[a] == key
}

/// No key is claimed by two distinct fields.
pub open spec fn unambiguous(fields: Seq<FieldSpec>) -> bool {
    forall|i: int, j: int, key: Seq<char>|
        0 <= i < fields.len() && 0 <= j < fields.len() && i != j && #[trigger] answers_to(fields[i], key)
            ==> !#[trigger] answers_to(fields[j], key)
}

/// Whether no field other than the one at `owner` claims `key`.
pub open spec fn free_for(fields: Seq<FieldSpec>, owner: int, key: Seq<char>) -> bool {
    forall|j: int| 0 <= j < fields.len() && j != owner ==> !#[trigger] answers_to(fields[j], key)
}

/// Whether two distinct fields claim `key`.
pub open spec fn claimed_twice(fields: Seq<FieldSpec>, key: Seq<char>) -> bool {
    exists|i: int| 0 <= i < fields.len() && #[trigger] answers_to(fields[i], key) && !free_for(fields, i, key)
}

/// The ordinal of the field that claims `key`, if one does.
pub open spec fn slot_of(fields: Seq<FieldSpec>, key: Seq<char>) -> Option<int> {
    if exists|i: int| 0 <= i < fields.len() && #[trigger] answers_to(fields[i], key) {
        Some(choose|i: int| 0 <= i < fields.len() && #[trigger] answers_to(fields[i], key))
    } else {
        None
    }
}

/// A key resolved against a schema.
#[derive(Debug)]
pub enum FieldSlot {
    /// The key names the field with this ordinal.
    Known(usize),
    /// No field claims the key.
    Unknown(String),
}

/// A schema that cannot be built.
#[derive(Debug)]
pub enum BindingError {
    /// This key is claimed by two distinct fields.
    AmbiguousKey(String),
}

/// Whether the field answers to `key`.
pub fn field_answers(f: &FieldDescriptor, key: &String) -> (r: bool)
    ensures
        r == answers_to(f@, key@),
{
    if f.name.eq(key) {
        return true;
    }
    let mut a: usize = 0;
    while a < f.aliases.len()
        invariant
            a <= f.aliases@.len(),
            f@.name != key@,
            forall|b: int| 0 <= b < a ==> f@.aliases[b] != key@,
        decreases f.aliases@.len() - a,
    {
        if f.aliases[a].eq(key) {
            proof { assert(f@.aliases[a as int] == key@); }
            return true;
        }
        a = a + 1;
    }
    false
}

/// Whether no field but the one at `owner` claims `key`.
fn key_is_free(fields: &Vec<FieldDescriptor>, owner: usize, key: &String) -> (r: bool)
    ensures
        r == free_for(specs_of(fields@), owner as int, key@),
{
    let mut j: usize = 0;
    while j < fields.len()
        invariant
            j <= fields@.len(),
            forall|k: int| 0 <= k < j && k != owner ==> !#[trigger] answers_to(specs_of(fields@)[k], key@),
        decreases fields@.len() - j,
    {
        if j != owner && field_answers(&fields[j], key) {
            proof { assert(answers_to(specs_of(fields@)[j as int], key@)); }
            return false;
        }
        j = j + 1;
    }
    true
}

/// A key claimed by the field at `i` and by another makes the fields ambiguous.
proof fn lemma_not_free(fields: Seq<FieldSpec>, i: int, key: Seq<char>)
    requires
        0 <= i < fields.len(),
        answers_to(fields[i], key),
        !free_for(fields, i, key),
    ensures
        !unambiguous(fields),
{
    let j = choose|j: int| 0 <= j < fields.len() && j != i && #[trigger] answers_to(fields[j], key);
    assert(answers_to(fields[j], key));
}

/// The declared fields of one record type, with no key claimed twice.
pub struct Schema {
    fields: Vec<FieldDescriptor>,
}

impl View for Schema {
    type V = Seq<FieldSpec>;

    closed spec fn view(&self) -> Seq<FieldSpec> {
        specs_of(self.fields@)
    }
}

impl Schema {
    #[verifier::type_invariant]
    spec fn inv(&self) -> bool {
        unambiguous(specs_of(self.fields@))
    }

    /// Builds the resolver table from the declared fields, in declaration order.
    /// Fails when a name or alias is claimed by two fields.
    pub fn new(fields: Vec<FieldDescriptor>) -> (r: Result<Schema, BindingError>)
        ensures
            r is Ok <==> unambiguous(specs_of(fields@)),
            r is Ok ==> r->Ok_0@ == specs_of(fields@),
            r matches Err(BindingError::AmbiguousKey(k)) ==> claimed_twice(specs_of(fields@), k@),
    {
        let n = fields.len();
        let mut i: usize = 0;
        while i < n
            invariant
                i <= n,
                n == fields@.len(),
                forall|p: int, key: Seq<char>|
                    0 <= p < i && #[trigger] answers_to(specs_of(fields@)[p], key) ==> free_for(specs_of(fields@), p, key),
            decreases n - i,
        {
            let f = &fields[i];
            if !key_is_free(&fields, i, &f.name) {
                let k = f.name.clone();
                proof {
                    lemma_not_free(specs_of(fields@), i as int, k@);
                    assert(answers_to(specs_of(fields@)[i as int], k@));
                }
                return Err(BindingError::AmbiguousKey(k));
            }
            let mut a: usize = 0;
            while a < f.aliases.len()
                invariant
                    i < n,
                    n == fields@.len(),
                    *f == fields@[i as int],
                    a <= f@.aliases.len(),
                    free_for(specs_of(fields@), i as int, f@.name),
                    forall|b: int| 0 <= b < a ==> free_for(specs_of(fields@), i as int, #[trigger] f@.aliases[b]),
                    forall|p: int, key: Seq<char>|
                        0 <= p < i && #[trigger] answers_to(specs_of(fields@)[p], key) ==> free_for(specs_of(fields@), p, key),
                decreases f@.aliases.len() - a,
            {
                if !key_is_free(&fields, i, &f.aliases[a]) {
                    let k = f.aliases[a].clone();
                    proof {
                        assert(f@.aliases[a as int] == k@);
                        assert(answers_to(specs_of(fields@)[i as int], k@));
                        lemma_not_free(specs_of(fields@), i as int, k@);
                    }
                    return Err(BindingError::AmbiguousKey(k));
                }
                a = a + 1;
            }
            assert forall|p: int, key: Seq<char>|
                0 <= p < i + 1 && #[trigger] answers_to(specs_of(fields@)[p], key) implies free_for(specs_of(fields@), p, key) by {
                if p == i as int && f@.name != key {
                    let b = choose|b: int| 0 <= b < f@.aliases.len() && f@.aliases[b] == key;
                    assert(free_for(specs_of(fields@), i as int, f@.aliases[b]));
                }
            }
            i = i + 1;
        }
        assert(unambiguous(specs_of(fields@))) by {
            assert forall|p: int, q: int, key: Seq<char>|
                0 <= p < fields@.len() && 0 <= q < fields@.len() && p != q
                    && #[trigger] answers_to(specs_of(fields@)[p], key) implies !#[trigger] answers_to(specs_of(fields@)[q], key) by {
                assert(free_for(specs_of(fields@), p, key));
            }
        }
        let s = Schema { fields };
        Ok(s)
    }

    /// The number of declared fields.
    pub fn len(&self) -> (r: usize)
        ensures
            r == self@.len(),
    {
        self.fields.len()
    }

    /// The declared field with ordinal `i`.
    pub fn field(&self, i: usize) -> (r: &FieldDescriptor)
        requires
            i < self@.len(),
        ensures
            r@ == self@[i as int],
    {
        &self.fields[i]
    }

    /// Resolves a key by exact, case-sensitive match against each field's
    /// name and aliases. A key that no field claims is returned as unknown.
    pub fn resolve(&self, key: &String) -> (r: FieldSlot)
        ensures
            match r {
                FieldSlot::Known(i) => slot_of(self@, key@) == Some(i as int),
                FieldSlot::Unknown(k) => slot_of(self@, key@) is None && k@ == key@,
            },
    {
        proof { use_type_invariant(self); }
        let mut i: usize = 0;
        while i < self.fields.len()
            invariant
                i <= self.fields@.len(),
                unambiguous(specs_of(self.fields@)),
                forall|p: int| 0 <= p < i ==> !#[trigger] answers_to(specs_of(self.fields@)[p], key@),
            decreases self.fields@.len() - i,
        {
            if field_answers(&self.fields[i], key) {
                proof {
                    assert(answers_to(specs_of(self.fields@)[i as int], key@));
                    let c = choose|c: int| 0 <= c < self.fields@.len() && #[trigger] answers_to(specs_of(self.fields@)[c], key@);
                    if c != i as int {
                        assert(!answers_to(specs_of(self.fields@)[c], key@));
                    }
                }
                return FieldSlot::Known(i);
            }
            i = i + 1;
        }
        FieldSlot::Unknown(key.clone())
    }
}

} // verus!
