use devhub::dna::{DeprecationNotice, DnaEntry, DnaVersionEntry, EntityInfo};
use devhub::entity::{Address, AgentKey, Model, RecordKind};
use devhub::happ::{HappEntry, HappGUIConfig, HappManifest, HappReleaseEntry};
use devhub::record::Record;
use devhub::store::Store;

fn create_dnaentry() -> DnaEntry {
    DnaEntry {
        name: String::from("Game Turns"),
        description: String::from("A tool for turn-based games to track the order of player actions"),
        published_at: 1618855430,
        developer: Some(EntityInfo {
            name: String::from("Open Games Collective"),
            website: Some(String::from("https://github.com/open-games-collective/")),
        }),
        deprecation: None,
    }
}

fn happ_entry(title: &str) -> HappEntry {
    HappEntry {
        title: String::from(title),
        subtitle: String::from("Sub"),
        description: String::from("An app"),
        designer: AgentKey { key: 9 },
        published_at: 10,
        last_updated: 20,
        icon: Some(vec![1, 2, 3]),
        deprecation: None,
        gui: Some(HappGUIConfig::new(Address { slot: 0 }, true)),
    }
}

#[test]
fn dna_to_summary_test() {
    let dna1 = create_dnaentry();
    let dna2 = create_dnaentry();

    assert_eq!(dna1.name, "Game Turns");

    let dna_info = dna1.to_info();

    assert_eq!(dna_info.name, "Game Turns");

    let dna_summary = dna2.to_summary();

    assert_eq!(dna_summary.name, "Game Turns");
}

#[test]
fn dna_summary_collapses_optional_fields() {
    let s = create_dnaentry().to_summary();
    assert_eq!(s.developer, Some(String::from("Open Games Collective")));
    assert_eq!(s.deprecation, None);
    assert_eq!(s.published_at, 1618855430);
}

#[test]
fn deprecation_shows_in_summary_after_update() {
    let mut store = Store::new();
    let author = AgentKey { key: 1 };
    let e = store.create(Record::Dna(create_dnaentry()), author, 100).unwrap();
    let summary = match store.record(e.address) {
        Some(Record::Dna(d)) => d.summary(),
        _ => panic!("not a dna"),
    };
    assert_eq!(summary.name, "Game Turns");
    assert_eq!(summary.deprecation, None);

    let mut next = create_dnaentry();
    next.deprecation = Some(DeprecationNotice::new(String::from("use something else")));
    let u = store.update(e.address, Record::Dna(next), author, 200).unwrap();
    assert_eq!(u.id, e.id);
    let head = store.get(e.id).unwrap();
    assert_eq!(head.address, u.address);
    match store.record(head.address) {
        Some(Record::Dna(d)) => {
            let s = d.summary();
            assert_eq!(s.name, "Game Turns");
            assert_eq!(s.deprecation, Some(true));
        }
        _ => panic!("not a dna"),
    }
}

#[test]
fn version_info_dereferences_current_dna() {
    let mut store = Store::new();
    let author = AgentKey { key: 1 };
    let dna = store.create(Record::Dna(create_dnaentry()), author, 1).unwrap();
    let mut renamed = create_dnaentry();
    renamed.name = String::from("Game Turns 2");
    store.update(dna.id, Record::Dna(renamed), author, 2).unwrap();
    let version = DnaVersionEntry {
        for_dna: dna.id,
        version: 1,
        published_at: 3,
        file_size: 0,
        contributors: vec![String::from("alice")],
        changelog: String::from("first"),
        chunk_addresses: vec![],
    };
    let info = version.to_info(&store);
    assert_eq!(info.for_dna.unwrap().name, "Game Turns 2");
    assert_eq!(info.contributors, vec![String::from("alice")]);
}

#[test]
fn version_info_degrades_missing_dna() {
    let store = Store::new();
    let version = DnaVersionEntry {
        for_dna: Address { slot: 42 },
        version: 7,
        published_at: 3,
        file_size: 0,
        contributors: vec![],
        changelog: String::from("x"),
        chunk_addresses: vec![],
    };
    let info = version.to_info(&store);
    assert!(info.for_dna.is_none());
    assert_eq!(info.version, 7);
    let summary = DnaVersionEntry {
        for_dna: Address { slot: 42 },
        version: 7,
        published_at: 3,
        file_size: 12,
        contributors: vec![],
        changelog: String::from("x"),
        chunk_addresses: vec![],
    }
    .to_summary();
    assert_eq!(summary.file_size, 12);
}

#[test]
fn happ_summary_and_release_info() {
    let mut store = Store::new();
    let author = AgentKey { key: 1 };
    let happ = happ_entry("DevHub");
    let s = happ.to_summary();
    assert_eq!(s.title, "DevHub");
    assert!(!s.deprecation);
    assert_eq!(s.icon, Some(vec![1, 2, 3]));
    let info = happ_entry("DevHub").to_info();
    assert_eq!(info.gui.unwrap().holo_hosting_settings.uses_web_sdk, true);

    let h = store.create(Record::Happ(happ), author, 5).unwrap();
    let release = HappReleaseEntry {
        name: String::from("v1"),
        description: String::from("first"),
        for_happ: h.id,
        published_at: 6,
        last_updated: 6,
        manifest: HappManifest {
            manifest_version: String::from("1"),
            slots: vec![],
            name: Some(String::from("devhub")),
            description: None,
        },
        dna_hash: String::from("abc"),
        dnas: vec![],
    };
    let rs = release.to_summary();
    assert_eq!(rs.for_happ, h.id);
    let ri = release.to_info(&store);
    let (e, summary) = ri.for_happ.unwrap();
    assert_eq!(e.id, h.id);
    assert_eq!(e.ctype.kind, RecordKind::Happ);
    assert_eq!(e.ctype.model, Model::Summary);
    assert_eq!(summary.title, "DevHub");
}

#[test]
fn release_info_degrades_when_target_is_not_an_app() {
    let mut store = Store::new();
    let author = AgentKey { key: 1 };
    let d = store.create(Record::Dna(create_dnaentry()), author, 1).unwrap();
    let release = HappReleaseEntry {
        name: String::from("v1"),
        description: String::from("first"),
        for_happ: d.id,
        published_at: 6,
        last_updated: 6,
        manifest: HappManifest {
            manifest_version: String::from("1"),
            slots: vec![],
            name: None,
            description: None,
        },
        dna_hash: String::from("abc"),
        dnas: vec![],
    };
    assert!(release.to_info(&store).for_happ.is_none());
}
