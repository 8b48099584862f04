//! hApp records: the application entry, its releases, and their projections.
use vstd::prelude::*;
use crate::dna::DeprecationNotice;
use crate::entity::{Address, AgentKey, Entity, EntityType, Model, RecordKind, copy_vec};
use crate::record::Record;
use crate::store::Store;

verus! {

#[derive(Debug, Clone, Copy, PartialEq, Eq, Structural)]
pub struct HoloGUIConfig {
    pub uses_web_sdk: bool,
}

#[derive(Debug, Clone, Copy, PartialEq, Eq, Structural)]
pub struct HappGUIConfig {
    pub asset_group_id: Address,
    pub holo_hosting_settings: HoloGUIConfig,
}

impl HappGUIConfig {
    pub fn new(asset_group_id: Address, uses_web_sdk: bool) -> (r: HappGUIConfig)
        ensures
            r.asset_group_id == asset_group_id,
            r.holo_hosting_settings.uses_web_sdk == uses_web_sdk,
    {
        HappGUIConfig { asset_group_id, holo_hosting_settings: HoloGUIConfig { uses_web_sdk } }
    }
}

/// An application, as stored.
#[derive(Debug, Clone)]
pub struct HappEntry {
    pub title: String,
    pub subtitle: String,
    pub description: String,
    pub designer: AgentKey,
    pub published_at: u64,
    pub last_updated: u64,
    pub icon: Option<Vec<u8>>,
    pub deprecation: Option<DeprecationNotice>,
    pub gui: Option<HappGUIConfig>,
}

/// An application without its GUI settings, the deprecation notice collapsed
/// to a flag.
#[derive(Debug, Clone)]
pub struct HappSummary {
    pub title: String,
    pub subtitle: String,
    pub description: String,
    pub designer: AgentKey,
    pub published_at: u64,
    pub last_updated: u64,
    pub deprecation: bool,
    pub icon: Option<Vec<u8>>,
}

#[derive(Debug, Clone)]
pub struct HappInfo {
    pub title: String,
    pub subtitle: String,
    pub description: String,
    pub designer: AgentKey,
    pub published_at: u64,
    pub last_updated: u64,
    pub icon: Option<Vec<u8>>,
    pub deprecation: Option<DeprecationNotice>,
    pub gui: Option<HappGUIConfig>,
}

/// The bytes of an optional blob.
pub open spec fn blob_view(b: Option<Vec<u8>>) -> Option<Seq<u8>> {
    match b {
        Some(v) => Some(v@),
        None => None,
    }
}

/// `s` is the summary of `h`.
pub open spec fn summarizes_happ(s: HappSummary, h: HappEntry) -> bool {
    &&& s.title == h.title
    &&& s.subtitle == h.subtitle
    &&& s.description == h.description
    &&& s.designer == h.designer
    &&& s.published_at == h.published_at
    &&& s.last_updated == h.last_updated
    &&& blob_view(s.icon) == blob_view(h.icon)
    &&& s.deprecation == h.deprecation is Some
}

impl HappEntry {
    pub fn to_info(self) -> (r: HappInfo)
        ensures
            r.title == self.title,
            r.subtitle == self.subtitle,
            r.description == self.description,
            r.designer == self.designer,
            r.published_at == self.published_at,
            r.last_updated == self.last_updated,
            r.icon == self.icon,
            r.deprecation == self.deprecation,
            r.gui == self.gui,
    {
        HappInfo {
            title: self.title,
            subtitle: self.subtitle,
            description: self.description,
            designer: self.designer,
            published_at: self.published_at,
            last_updated: self.last_updated,
            icon: self.icon,
            deprecation: self.deprecation,
            gui: self.gui,
        }
    }

    pub fn to_summary(&self) -> (r: HappSummary)
        ensures
            summarizes_happ(r, *self),
    {
        HappSummary {
            title: self.title.clone(),
            subtitle: self.subtitle.clone(),
            description: self.description.clone(),
            designer: self.designer,
            published_at: self.published_at,
            last_updated: self.last_updated,
            deprecation: self.deprecation.is_some(),
            icon: match &self.icon {
                Some(b) => Some(copy_vec(b)),
                None => None,
            },
        }
    }
}

#[derive(Debug, Clone)]
pub struct SlotProvisioning {
    pub strategy: String,
    pub deferred: bool,
}

/// The DNA of a slot; `properties` is a YAML document, kept as its text.
#[derive(Debug, Clone)]
pub struct SlotDnaInfo {
    pub bundled: String,
    pub clone_limit: u32,
    pub uid: Option<String>,
    pub version: Option<String>,
    pub properties: Option<String>,
}

#[derive(Debug, Clone)]
pub struct SlotInfo {
    pub id: String,
    pub dna: SlotDnaInfo,
    pub provisioning: Option<SlotProvisioning>,
}

#[derive(Debug, Clone)]
pub struct HappManifest {
    pub manifest_version: String,
    pub slots: Vec<SlotInfo>,
    pub name: Option<String>,
    pub description: Option<String>,
}

#[derive(Debug, Clone)]
pub struct DnaReference {
    pub role_id: String,
    pub dna: Address,
    pub version: Address,
    pub wasm_hash: String,
}

/// One release of an application.
#[derive(Debug, Clone)]
pub struct HappReleaseEntry {
    pub name: String,
    pub description: String,
    pub for_happ: Address,
    pub published_at: u64,
    pub last_updated: u64,
    pub manifest: HappManifest,
    pub dna_hash: String,
    pub dnas: Vec<DnaReference>,
}

#[derive(Debug, Clone)]
pub struct HappReleaseSummary {
    pub name: String,
    pub description: String,
    pub for_happ: Address,
    pub published_at: u64,
    pub last_updated: u64,
    pub dna_hash: String,
}

/// A release with its application dereferenced to a summary; `for_happ` is
/// `None` where the application could not be read.
#[derive(Debug, Clone)]
pub struct HappReleaseInfo {
    pub name: String,
    pub description: String,
    pub for_happ: Option<(Entity, HappSummary)>,
    pub published_at: u64,
    pub last_updated: u64,
    pub manifest: HappManifest,
    pub dna_hash: String,
    pub dnas: Vec<DnaReference>,
}

impl HappReleaseEntry {
    pub fn to_summary(&self) -> (r: HappReleaseSummary)
        ensures
            r.name == self.name,
            r.description == self.description,
            r.for_happ == self.for_happ,
            r.published_at == self.published_at,
            r.last_updated == self.last_updated,
            r.dna_hash == self.dna_hash,
    {
        HappReleaseSummary {
            name: self.name.clone(),
            description: self.description.clone(),
            for_happ: self.for_happ,
            published_at: self.published_at,
            last_updated: self.last_updated,
            dna_hash: self.dna_hash.clone(),
        }
    }
}

impl HappReleaseEntry {
    /// The release with its application dereferenced, at the application's
    /// current head, to a summary; `None` where the address does not lead to
    /// an application.
    pub fn to_info(self, store: &Store) -> (r: HappReleaseInfo)
        requires
            store.wf(),
        ensures
            match store.history().head_record(self.for_happ) {
                Some(Record::Happ(h)) => r.for_happ is Some && {
                    let (e, s) = r.for_happ->Some_0;
                    &&& summarizes_happ(s, h)
                    &&& e.id == store.history().get(self.for_happ)->Ok_0.id
                    &&& e.address == store.history().get(self.for_happ)->Ok_0.address
                    &&& e.ctype == (EntityType { kind: RecordKind::Happ, model: Model::Summary })
                },
                _ => r.for_happ is None,
            },
            r.name == self.name,
            r.description == self.description,
            r.published_at == self.published_at,
            r.last_updated == self.last_updated,
            r.manifest == self.manifest,
            r.dna_hash == self.dna_hash,
            r.dnas == self.dnas,
    {
        let for_happ = match store.get_with_content(self.for_happ) {
            Ok((e, Record::Happ(h))) => Some(
                (
                    Entity {
                        id: e.id,
                        address: e.address,
                        ctype: EntityType::new(RecordKind::Happ, Model::Summary),
                    },
                    h.to_summary(),
                ),
            ),
            _ => None,
        };
        HappReleaseInfo {
            name: self.name,
            description: self.description,
            for_happ,
            published_at: self.published_at,
            last_updated: self.last_updated,
            manifest: self.manifest,
            dna_hash: self.dna_hash,
            dnas: self.dnas,
        }
    }
}

} // verus!
