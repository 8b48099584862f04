//! DNA records: the module entry, its versions, and their projections.
use vstd::prelude::*;
use crate::entity::Address;
use crate::record::Record;
use crate::store::Store;

verus! {

/// Who stands behind a record.
#[derive(Debug, Clone)]
pub struct EntityInfo {
    pub name: String,
    pub website: Option<String>,
}

/// A notice that a record should no longer be used.
#[derive(Debug, Clone)]
pub struct DeprecationNotice {
    pub message: String,
    pub recommended_alternatives: Option<Vec<Address>>,
}

impl DeprecationNotice {
    pub fn new(message: String) -> (r: DeprecationNotice)
        ensures
            r.message == message,
            r.recommended_alternatives is None,
    {
        DeprecationNotice { message, recommended_alternatives: None }
    }
}

/// A DNA module, as stored.
#[derive(Debug, Clone)]
pub struct DnaEntry {
    pub name: String,
    pub description: String,
    pub published_at: u64,
    pub developer: Option<EntityInfo>,
    pub deprecation: Option<DeprecationNotice>,
}

/// A DNA module without its heavy fields: the developer collapsed to a name,
/// the deprecation notice to a flag.
#[derive(Debug, Clone)]
pub struct DnaSummary {
    pub name: String,
    pub description: String,
    pub published_at: u64,
    pub developer: Option<String>,
    pub deprecation: Option<bool>,
}

/// A DNA module in full.
#[derive(Debug, Clone)]
pub struct DnaInfo {
    pub name: String,
    pub description: String,
    pub published_at: u64,
    pub developer: Option<EntityInfo>,
    pub deprecation: Option<DeprecationNotice>,
}

/// The developer's name, where there is a developer.
pub open spec fn developer_name(d: Option<EntityInfo>) -> Option<String> {
    match d {
        Some(dev) => Some(dev.name),
        None => None,
    }
}

/// `Some(true)` where a deprecation notice is present, else `None`.
pub open spec fn deprecation_flag(d: Option<DeprecationNotice>) -> Option<bool> {
    match d {
        Some(_) => Some(true),
        None => None,
    }
}

/// `s` is the summary of `d`.
pub open spec fn summarizes(s: DnaSummary, d: DnaEntry) -> bool {
    &&& s.name == d.name
    &&& s.description == d.description
    &&& s.published_at == d.published_at
    &&& s.developer == developer_name(d.developer)
    &&& s.deprecation == deprecation_flag(d.deprecation)
}

impl DnaEntry {
    pub fn to_info(self) -> (r: DnaInfo)
        ensures
            r.name == self.name,
            r.description == self.description,
            r.published_at == self.published_at,
            r.developer == self.developer,
            r.deprecation == self.deprecation,
    {
        DnaInfo {
            name: self.name,
            description: self.description,
            published_at: self.published_at,
            developer: self.developer,
            deprecation: self.deprecation,
        }
    }

    pub fn to_summary(self) -> (r: DnaSummary)
        ensures
            summarizes(r, self),
    {
        DnaSummary {
            name: self.name,
            description: self.description,
            published_at: self.published_at,
            developer: match self.developer {
                Some(dev) => Some(dev.name),
                None => None,
            },
            deprecation: match self.deprecation {
                Some(_) => Some(true),
                None => None,
            },
        }
    }

    /// The summary of a record that stays where it is.
    pub fn summary(&self) -> (r: DnaSummary)
        ensures
            summarizes(r, *self),
    {
        DnaSummary {
            name: self.name.clone(),
            description: self.description.clone(),
            published_at: self.published_at,
            developer: match &self.developer {
                Some(dev) => Some(dev.name.clone()),
                None => None,
            },
            deprecation: match &self.deprecation {
                Some(_) => Some(true),
                None => None,
            },
        }
    }
}

/// One published version of a DNA module; its bytes stand in the chunks at
/// `chunk_addresses`, in that order.
#[derive(Debug, Clone)]
pub struct DnaVersionEntry {
    pub for_dna: Address,
    pub version: u64,
    pub published_at: u64,
    pub file_size: u64,
    pub contributors: Vec<String>,
    pub changelog: String,
    pub chunk_addresses: Vec<Address>,
}

#[derive(Debug, Clone, Copy, PartialEq, Eq, Structural)]
pub struct DnaVersionSummary {
    pub version: u64,
    pub published_at: u64,
    pub file_size: u64,
}

/// A version with its DNA module dereferenced to a summary; `for_dna` is
/// `None` where the module could not be read.
#[derive(Debug, Clone)]
pub struct DnaVersionInfo {
    pub for_dna: Option<DnaSummary>,
    pub version: u64,
    pub published_at: u64,
    pub file_size: u64,
    pub contributors: Vec<String>,
    pub changelog: String,
    pub chunk_addresses: Vec<Address>,
}

/// A version together with its DNA module's summary and its bytes.
#[derive(Debug, Clone)]
pub struct DnaPackage {
    pub for_dna: DnaSummary,
    pub version: u64,
    pub published_at: u64,
    pub file_size: u64,
    pub bytes: Vec<u8>,
    pub contributors: Vec<String>,
    pub changelog: String,
}

impl DnaVersionEntry {
    pub fn to_summary(self) -> (r: DnaVersionSummary)
        ensures
            r == (DnaVersionSummary {
                version: self.version,
                published_at: self.published_at,
                file_size: self.file_size,
            }),
    {
        DnaVersionSummary {
            version: self.version,
            published_at: self.published_at,
            file_size: self.file_size,
        }
    }
}

impl DnaVersionEntry {
    /// The version with its DNA module dereferenced, at the module's current
    /// head, to a summary; `None` where the address does not lead to a DNA
    /// module.
    pub fn to_info(self, store: &Store) -> (r: DnaVersionInfo)
        requires
            store.wf(),
        ensures
            match store.history().head_record(self.for_dna) {
                Some(Record::Dna(d)) => r.for_dna is Some && summarizes(r.for_dna->Some_0, d),
                _ => r.for_dna is None,
            },
            r.version == self.version,
            r.published_at == self.published_at,
            r.file_size == self.file_size,
            r.contributors == self.contributors,
            r.changelog == self.changelog,
            r.chunk_addresses == self.chunk_addresses,
    {
        let for_dna = match store.get_with_content(self.for_dna) {
            Ok((_, Record::Dna(d))) => Some(d.summary()),
            _ => None,
        };
        DnaVersionInfo {
            for_dna,
            version: self.version,
            published_at: self.published_at,
            file_size: self.file_size,
            contributors: self.contributors,
            changelog: self.changelog,
            chunk_addresses: self.chunk_addresses,
        }
    }
}

} // verus!
