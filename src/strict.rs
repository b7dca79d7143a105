//! Strict decoding of the demonstration record: a repeated field is an error,
//! as a standard structured decoder treats it.

use vstd::prelude::*;
use crate::record::{texts, Entry};

verus! {

/// A record whose fields may each occur once.
#[derive(Debug)]
pub struct RootNotWorking {
    pub field1: Vec<String>,
    pub field2: Vec<String>,
}

/// Why strict decoding failed.
#[derive(Debug, PartialEq, Eq)]
pub enum StrictError {
    /// The field occurred a second time.
    DuplicateField(String),
    /// The field's value failed to decode.
    InvalidValue(String),
    /// The field never occurred.
    MissingField(String),
}

/// The mathematical value of a strict decoding failure.
pub enum StrictFault {
    Duplicate(Seq<char>),
    Invalid(Seq<char>),
    Missing(Seq<char>),
}

impl View for StrictError {
    type V = StrictFault;

    open spec fn view(&self) -> StrictFault {
        match self {
            StrictError::DuplicateField(n) => StrictFault::Duplicate(n@),
            StrictError::InvalidValue(n) => StrictFault::Invalid(n@),
            StrictError::MissingField(n) => StrictFault::Missing(n@),
        }
    }
}

/// Progress of a strict decode: the value of each field seen so far, and
/// the failure that stopped it, if any.
pub struct StrictState {
    pub field1: Option<Seq<char>>,
    pub field2: Option<Seq<char>>,
    pub fault: Option<StrictFault>,
}

/// One field's part in a strict step: a second occurrence or an undecodable
/// value fails; otherwise the value is taken.
pub open spec fn strict_take(seen: Option<Seq<char>>, name: Seq<char>, value: Option<String>)
    -> Result<Seq<char>, StrictFault>
{
    if seen is Some {
        Err(StrictFault::Duplicate(name))
    } else {
        match value {
            Some(v) => Ok(v@),
            None => Err(StrictFault::Invalid(name)),
        }
    }
}

/// What one keyed input does to a strict decode. Keys other than the two
/// field names are skipped.
pub open spec fn strict_step(s: StrictState, e: Entry) -> StrictState {
    if s.fault is Some {
        s
    } else if e.key@ == "field1"@ {
        match strict_take(s.field1, "field1"@, e.value) {
            Ok(v) => StrictState { field1: Some(v), ..s },
            Err(f) => StrictState { fault: Some(f), ..s },
        }
    } else if e.key@ == "field2"@ {
        match strict_take(s.field2, "field2"@, e.value) {
            Ok(v) => StrictState { field2: Some(v), ..s },
            Err(f) => StrictState { fault: Some(f), ..s },
        }
    } else {
        s
    }
}

/// A strict decode after the keyed inputs `entries`, in order.
pub open spec fn strict_run(entries: Seq<Entry>) -> StrictState
    decreases entries.len(),
{
    if entries.len() == 0 {
        StrictState { field1: None, field2: None, fault: None }
    } else {
        strict_step(strict_run(entries.drop_last()), entries.last())
    }
}

/// The outcome of a strict decode: the two fields' values, or the first
/// failure; a field that never occurred is missing.
pub open spec fn strict_outcome(entries: Seq<Entry>) -> Result<(Seq<char>, Seq<char>), StrictFault> {
    let s = strict_run(entries);
    match s.fault {
        Some(f) => Err(f),
        None => match (s.field1, s.field2) {
            (Some(a), Some(b)) => Ok((a, b)),
            (None, _) => Err(StrictFault::Missing("field1"@)),
            (_, None) => Err(StrictFault::Missing("field2"@)),
        },
    }
}

/// One field's part in a strict step, on values.
fn strict_take_exec(seen: &Option<String>, name: &str, value: &Option<String>) -> (r: Result<String, StrictError>)
    ensures
        match r {
            Ok(v) => strict_take(match seen { Some(s) => Some(s@), None => None }, name@, *value) == Ok::<Seq<char>, StrictFault>(v@),
            Err(e) => strict_take(match seen { Some(s) => Some(s@), None => None }, name@, *value) == Err::<Seq<char>, StrictFault>(e@),
        },
{
    if seen.is_some() {
        return Err(StrictError::DuplicateField(name.to_owned()));
    }
    match value {
        Some(v) => Ok(v.clone()),
        None => Err(StrictError::InvalidValue(name.to_owned())),
    }
}

/// The text of an optional value.
pub open spec fn opt_text(o: Option<String>) -> Option<Seq<char>> {
    match o {
        Some(s) => Some(s@),
        None => None,
    }
}

/// Decodes the strict record from keyed inputs. Each field must occur exactly
/// once with a value that decodes; unknown keys are skipped. The first
/// failure in input order is returned.
pub fn parse_file_now_working(entries: &Vec<Entry>) -> (r: Result<RootNotWorking, StrictError>)
    ensures
        r is Ok <==> strict_outcome(entries@) is Ok,
        r matches Ok(v) ==> texts(v.field1@) == seq![strict_outcome(entries@)->Ok_0.0]
            && texts(v.field2@) == seq![strict_outcome(entries@)->Ok_0.1],
        r matches Err(e) ==> strict_outcome(entries@) == Err::<(Seq<char>, Seq<char>), StrictFault>(e@),
{
    let name1 = "field1".to_owned();
    let name2 = "field2".to_owned();
    let mut f1: Option<String> = None;
    let mut f2: Option<String> = None;
    let mut i: usize = 0;
    while i < entries.len()
        invariant
            i <= entries@.len(),
            name1@ == "field1"@,
            name2@ == "field2"@,
            strict_run(entries@.take(i as int)).fault is None,
            strict_run(entries@.take(i as int)).field1 == opt_text(f1),
            strict_run(entries@.take(i as int)).field2 == opt_text(f2),
        decreases entries@.len() - i,
    {
        let e = &entries[i];
        proof {
            assert(entries@.take(i + 1).drop_last() =~= entries@.take(i as int));
            assert(entries@.take(i + 1).last() == *e);
        }
        if e.key.eq(&name1) {
            match strict_take_exec(&f1, "field1", &e.value) {
                Ok(v) => { f1 = Some(v); },
                Err(err) => {
                    proof { lemma_strict_fault_stays(entries@, i as int + 1); }
                    return Err(err);
                },
            }
        } else if e.key.eq(&name2) {
            match strict_take_exec(&f2, "field2", &e.value) {
                Ok(v) => { f2 = Some(v); },
                Err(err) => {
                    proof { lemma_strict_fault_stays(entries@, i as int + 1); }
                    return Err(err);
                },
            }
        }
        i = i + 1;
    }
    proof { assert(entries@.take(i as int) =~= entries@); }
    match (f1, f2) {
        (Some(a), Some(b)) => {
            let field1 = vec![a];
            let field2 = vec![b];
            proof {
                assert(texts(field1@) =~= seq![strict_outcome(entries@)->Ok_0.0]);
                assert(texts(field2@) =~= seq![strict_outcome(entries@)->Ok_0.1]);
            }
            Ok(RootNotWorking { field1, field2 })
        },
        (None, _) => Err(StrictError::MissingField(name1)),
        (_, None) => Err(StrictError::MissingField(name2)),
    }
}

/// Once a strict decode has failed, later inputs leave the failure as it is.
proof fn lemma_strict_fault_stays(entries: Seq<Entry>, i: int)
    requires
        0 <= i <= entries.len(),
        strict_run(entries.take(i)).fault is Some,
    ensures
        strict_run(entries) == strict_run(entries.take(i)),
    decreases entries.len() - i,
{
    if i < entries.len() {
        assert(entries.take(i + 1).drop_last() =~= entries.take(i));
        lemma_strict_fault_stays(entries, i + 1);
    } else {
        assert(entries.take(i) =~= entries);
    }
}

} // verus!
