//! The closed set of record kinds, and the structural checks a record passes
//! before the store admits it.
use vstd::prelude::*;
use crate::chunks::DnaChunkEntry;
use crate::dna::{DnaEntry, DnaVersionEntry};
use crate::entity::{Address, RecordKind};
use crate::happ::{HappEntry, HappReleaseEntry};
use crate::reviews::ReviewEntry;

verus! {

/// One record, of any kind the store holds.
#[derive(Debug, Clone)]
pub enum Record {
    Dna(DnaEntry),
    DnaVersion(DnaVersionEntry),
    DnaChunk(DnaChunkEntry),
    Happ(HappEntry),
    HappRelease(HappReleaseEntry),
    Review(ReviewEntry),
}

/// Why a record was refused.
#[derive(Debug, Clone, Copy, PartialEq, Eq, Structural)]
pub enum ValidationError {
    /// A required list has no item.
    MissingField,
    /// A reference field names an address that holds no record.
    UnknownReference,
    /// A chunk declares another length than it holds.
    LengthMismatch,
    /// An update would change the kind of an entity, or a record of another
    /// kind was asked for.
    WrongKind,
    /// A map names one key twice.
    DuplicateKey,
}

pub open spec fn kind_of(r: Record) -> RecordKind {
    match r {
        Record::Dna(_) => RecordKind::Dna,
        Record::DnaVersion(_) => RecordKind::DnaVersion,
        Record::DnaChunk(_) => RecordKind::DnaChunk,
        Record::Happ(_) => RecordKind::Happ,
        Record::HappRelease(_) => RecordKind::HappRelease,
        Record::Review(_) => RecordKind::Review,
    }
}

/// `a` names one of the first `n` records.
pub open spec fn resolves(a: Address, n: nat) -> bool {
    a.slot < n
}

pub open spec fn all_resolve(s: Seq<Address>, n: nat) -> bool {
    forall|i: int| 0 <= i < s.len() ==> resolves(#[trigger] s[i], n)
}

/// No key stands twice among the pairs of `m`, as in a map.
pub open spec fn keys_unique(m: Seq<(String, String)>) -> bool {
    forall|i: int, j: int| 0 <= i < j < m.len() ==> (#[trigger] m[i]).0@ != (#[trigger] m[j]).0@
}

/// The verdict on `r` in a store of `n` records.
pub open spec fn validation(r: Record, n: nat) -> Result<(), ValidationError> {
    match r {
        Record::Dna(_) => Ok(()),
        Record::DnaVersion(v) => if !resolves(v.for_dna, n) || !all_resolve(v.chunk_addresses@, n) {
            Err(ValidationError::UnknownReference)
        } else {
            Ok(())
        },
        Record::DnaChunk(c) => if c.sequence.length != c.bytes@.len() {
            Err(ValidationError::LengthMismatch)
        } else {
            Ok(())
        },
        Record::Happ(_) => Ok(()),
        Record::HappRelease(h) => if !resolves(h.for_happ, n) {
            Err(ValidationError::UnknownReference)
        } else {
            Ok(())
        },
        Record::Review(rv) => if rv.subject_ids@.len() == 0 {
            Err(ValidationError::MissingField)
        } else if !all_resolve(rv.subject_ids@, n) {
            Err(ValidationError::UnknownReference)
        } else if !keys_unique(rv.metadata@) {
            Err(ValidationError::DuplicateKey)
        } else {
            Ok(())
        },
    }
}

/// Whether every key of `m` stands once.
pub fn metadata_keys_unique(m: &Vec<(String, String)>) -> (r: bool)
    ensures
        r == keys_unique(m@),
{
    let n = m.len();
    let mut j: usize = 0;
    while j < n
        invariant
            n == m@.len(),
            j <= n,
            forall|a: int, b: int| 0 <= a < b < j ==> (#[trigger] m@[a]).0@ != (#[trigger] m@[b]).0@,
        decreases n - j,
    {
        let mut i: usize = 0;
        while i < j
            invariant
                n == m@.len(),
                i <= j < n,
                forall|a: int, b: int| 0 <= a < b < j ==> (#[trigger] m@[a]).0@ != (#[trigger] m@[b]).0@,
                forall|a: int| 0 <= a < i ==> (#[trigger] m@[a]).0@ != m@[j as int].0@,
            decreases j - i,
        {
            if m[i].0 == m[j].0 {
                return false;
            }
            i = i + 1;
        }
        j = j + 1;
    }
    true
}

fn all_addresses_resolve(s: &Vec<Address>, n: usize) -> (r: bool)
    ensures
        r == all_resolve(s@, n as nat),
{
    let mut i: usize = 0;
    while i < s.len()
        invariant
            i <= s@.len(),
            forall|j: int| 0 <= j < i ==> resolves(#[trigger] s@[j], n as nat),
        decreases s@.len() - i,
    {
        if s[i].slot >= n {
            return false;
        }
        i = i + 1;
    }
    true
}

impl Record {
    pub fn kind(&self) -> (r: RecordKind)
        ensures
            r == kind_of(*self),
    {
        match self {
            Record::Dna(_) => RecordKind::Dna,
            Record::DnaVersion(_) => RecordKind::DnaVersion,
            Record::DnaChunk(_) => RecordKind::DnaChunk,
            Record::Happ(_) => RecordKind::Happ,
            Record::HappRelease(_) => RecordKind::HappRelease,
            Record::Review(_) => RecordKind::Review,
        }
    }

    /// Structural checks of a record about to enter a store that holds
    /// `known` records: required fields, declared lengths, and references
    /// that must name records already there.
    pub fn validate(&self, known: usize) -> (r: Result<(), ValidationError>)
        ensures
            r == validation(*self, known as nat),
    {
        match self {
            Record::Dna(_) => Ok(()),
            Record::DnaVersion(v) => if v.for_dna.slot >= known || !all_addresses_resolve(
                &v.chunk_addresses,
                known,
            ) {
                Err(ValidationError::UnknownReference)
            } else {
                Ok(())
            },
            Record::DnaChunk(c) => if c.sequence.length != c.bytes.len() as u64 {
                Err(ValidationError::LengthMismatch)
            } else {
                Ok(())
            },
            Record::Happ(_) => Ok(()),
            Record::HappRelease(h) => if h.for_happ.slot >= known {
                Err(ValidationError::UnknownReference)
            } else {
                Ok(())
            },
            Record::Review(rv) => if rv.subject_ids.len() == 0 {
                Err(ValidationError::MissingField)
            } else if !all_addresses_resolve(&rv.subject_ids, known) {
                Err(ValidationError::UnknownReference)
            } else if !metadata_keys_unique(&rv.metadata) {
                Err(ValidationError::DuplicateKey)
            } else {
                Ok(())
            },
        }
    }
}

} // verus!
