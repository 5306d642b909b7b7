//! Structs for representing data from the /admin/listmounts endpoint

use vstd::prelude::*;

verus! {

/// One mount of the media server, as the status document lists it.
#[derive(Debug, Clone, PartialEq, Eq)]
pub struct Source {
    pub mount: Option<String>,
    pub fallback: Option<String>,
    pub listeners: i64,
    pub content_type: String,
}

/// The whole status document: the mounts in document order.
#[derive(Debug, Clone, PartialEq, Eq)]
pub struct Icestats {
    pub sources: Vec<Source>,
}

/// A mount record as a mathematical value.
pub struct SourceView {
    pub mount: Option<Seq<char>>,
    pub fallback: Option<Seq<char>>,
    pub listeners: int,
    pub content_type: Seq<char>,
}

impl View for Source {
    type V = SourceView;

    open spec fn view(&self) -> SourceView {
        SourceView {
            mount: match self.mount {
                Some(m) => Some(m@),
                None => None,
            },
            fallback: match self.fallback {
                Some(f) => Some(f@),
                None => None,
            },
            listeners: self.listeners as int,
            content_type: self.content_type@,
        }
    }
}

impl View for Icestats {
    type V = Seq<SourceView>;

    open spec fn view(&self) -> Seq<SourceView> {
        Seq::new(self.sources@.len(), |i: int| self.sources@[i]@)
    }
}

/// Why a status document gave no snapshot.
#[derive(Debug, Clone, Copy, PartialEq, Eq)]
pub enum ParseError {
    /// The text is no status document: it is broken, or a record lacks a
    /// listener count or a content type, or a count is no integer.
    Malformed,
    /// The record at this index has a listener count below zero.
    NegativeListeners(usize),
}

/// No record has a listener count below zero.
pub open spec fn counts_valid(sources: Seq<SourceView>) -> bool {
    forall|i: int| 0 <= i < sources.len() ==> (#[trigger] sources[i]).listeners >= 0
}

/// The record at `index` is the first one with a listener count below zero.
pub open spec fn first_negative(sources: Seq<SourceView>, index: int) -> bool {
    &&& 0 <= index < sources.len()
    &&& sources[index].listeners < 0
    &&& forall|j: int| 0 <= j < index ==> (#[trigger] sources[j]).listeners >= 0
}

/// What checking a snapshot gives: nothing to object to, or the first record
/// with a listener count below zero.
pub open spec fn validation_outcome(sources: Seq<SourceView>) -> Result<(), ParseError> {
    if exists|i: int| first_negative(sources, i) {
        Err(ParseError::NegativeListeners((choose|i: int| first_negative(sources, i)) as usize))
    } else {
        Ok(())
    }
}

/// A snapshot has at most one first record with a listener count below zero.
pub proof fn lemma_first_negative_unique(sources: Seq<SourceView>, i: int, j: int)
    requires
        first_negative(sources, i),
        first_negative(sources, j),
    ensures
        i == j,
{
    if i < j {
        assert(sources[i].listeners >= 0);
    } else if j < i {
        assert(sources[j].listeners >= 0);
    }
}

impl Icestats {
    /// A snapshot is well formed when it counts no listeners below zero.
    pub open spec fn well_formed(&self) -> bool {
        counts_valid(self@)
    }

    /// Checks what decoding alone does not: that every listener count is at
    /// least zero. The error names the first record that fails.
    pub fn validate(&self) -> (result: Result<(), ParseError>)
        ensures
            match result {
                Ok(_) => self.well_formed(),
                Err(ParseError::NegativeListeners(index)) => first_negative(self@, index as int),
                Err(ParseError::Malformed) => false,
            },
            result == validation_outcome(self@),
    {
        let mut i: usize = 0;
        while i < self.sources.len()
            invariant
                0 <= i <= self.sources.len(),
                forall|j: int| 0 <= j < i ==> (#[trigger] self@[j]).listeners >= 0,
            decreases self.sources.len() - i,
        {
            if self.sources[i].listeners < 0 {
                proof {
                    assert(first_negative(self@, i as int));
                    lemma_first_negative_unique(
                        self@,
                        i as int,
                        choose|k: int| first_negative(self@, k),
                    );
                }
                return Err(ParseError::NegativeListeners(i));
            }
            i += 1;
        }
        Ok(())
    }
}

/// A snapshot passes the check exactly when no listener count is below
/// zero. Otherwise the error names the first record whose count is.
pub proof fn lemma_validation_outcome_cases(sources: Seq<SourceView>)
    requires
        sources.len() <= usize::MAX,
    ensures
        validation_outcome(sources) is Ok <==> counts_valid(sources),
        !counts_valid(sources) <==> (validation_outcome(sources) matches Err(
            ParseError::NegativeListeners(index),
        ) && first_negative(sources, index as int)),
{
    if !counts_valid(sources) {
        lemma_first_negative_exists(sources);
    }
    if exists|i: int| first_negative(sources, i) {
        let index = choose|i: int| first_negative(sources, i);
        assert(sources[index].listeners < 0);
    }
}

/// A snapshot has a first record with a listener count below zero as soon as
/// it has any such record.
pub proof fn lemma_first_negative_exists(sources: Seq<SourceView>)
    requires
        !counts_valid(sources),
    ensures
        exists|i: int| first_negative(sources, i),
    decreases sources.len(),
{
    let front = sources.drop_last();
    if counts_valid(front) {
        let last = sources.len() - 1;
        assert forall|j: int| 0 <= j < last implies (#[trigger] sources[j]).listeners >= 0 by {
            assert(front[j] == sources[j]);
        }
        assert(first_negative(sources, last));
    } else {
        lemma_first_negative_exists(front);
        let index = choose|i: int| first_negative(front, i);
        assert(sources[index] == front[index]);
        assert forall|j: int| 0 <= j < index implies (#[trigger] sources[j]).listeners >= 0 by {
            assert(front[j] == sources[j]);
        }
        assert(first_negative(sources, index));
    }
}

/// The sum of the listener counts of all records.
pub open spec fn total_listeners(sources: Seq<SourceView>) -> int
    decreases sources.len(),
{
    if sources.len() == 0 {
        0
    } else {
        total_listeners(sources.drop_last()) + sources.last().listeners
    }
}

} // verus!
