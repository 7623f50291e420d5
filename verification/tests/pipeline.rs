use rdb::entry::{ModEntry, Verification};
use rdb::error::ErrorKind;
use rdb::normalize::Submission;
use rdb::pipeline::{submit, SubmitOutcome};
use rdb::store::RegistryStore;

fn sub(owner: &str, name: &str, secret: &str, version: &str) -> Submission {
    Submission {
        name: name.to_string(),
        owner: owner.to_string(),
        secret: secret.to_string(),
        description: "A plugin for Rain World".to_string(),
        homepage: String::new(),
        version: version.to_string(),
        icon: "https://example.com/icon.png".to_string(),
        binaries: vec!["https://drive.google.com/file/d/ABC123/view?usp=sharing".to_string()],
    }
}

fn rejected_kind(outcome: &SubmitOutcome) -> Option<(ErrorKind, &'static str)> {
    match outcome {
        SubmitOutcome::Rejected(e) => Some((e.kind, e.message)),
        _ => None,
    }
}

#[test]
fn identical_resubmission_is_created_then_stale() {
    let mut store = RegistryStore::new();
    let first = submit(&mut store, sub("alice", "foo", "s3cret", "1.0.0"), 100);
    assert!(matches!(first, SubmitOutcome::Created));
    let second = submit(&mut store, sub("alice", "foo", "s3cret", "1.0.0"), 200);
    let (kind, message) = rejected_kind(&second).expect("second submission must be rejected");
    assert_eq!(kind, ErrorKind::StaleVersion);
    assert_eq!(message, "The version was outdated.");
    assert_eq!(store.len(), 1);
}

#[test]
fn version_gate_is_monotonic_even_for_unseen_versions() {
    let mut store = RegistryStore::new();
    assert!(matches!(
        submit(&mut store, sub("alice", "foo", "s3cret", "1.2.0"), 100),
        SubmitOutcome::Created
    ));
    // 1.0.0 was never submitted, but it is below 1.2.0 and must be stale.
    let outcome = submit(&mut store, sub("alice", "foo", "s3cret", "1.0.0"), 200);
    let (kind, _) = rejected_kind(&outcome).expect("older version must be rejected");
    assert_eq!(kind, ErrorKind::StaleVersion);
    let entry = store.lookup("alice/foo").expect("entry must exist");
    assert_eq!(entry.info.version, "1.2.0");
}

#[test]
fn version_order_is_numeric_not_lexical() {
    let mut store = RegistryStore::new();
    assert!(matches!(
        submit(&mut store, sub("alice", "foo", "s3cret", "1.9.0"), 100),
        SubmitOutcome::Updated | SubmitOutcome::Created
    ));
    // Lexically "1.10.0" < "1.9.0"; numerically it is newer and must pass.
    assert!(matches!(
        submit(&mut store, sub("alice", "foo", "s3cret", "1.10.0"), 200),
        SubmitOutcome::Updated
    ));
}

#[test]
fn prerelease_orders_below_release_and_numerically() {
    let mut store = RegistryStore::new();
    assert!(matches!(
        submit(&mut store, sub("alice", "foo", "s3cret", "1.0.0-alpha.2"), 100),
        SubmitOutcome::Created
    ));
    // Numeric pre-release identifiers compare numerically: 10 > 2.
    assert!(matches!(
        submit(&mut store, sub("alice", "foo", "s3cret", "1.0.0-alpha.10"), 200),
        SubmitOutcome::Updated
    ));
    // The full release is above any of its pre-releases.
    assert!(matches!(
        submit(&mut store, sub("alice", "foo", "s3cret", "1.0.0"), 300),
        SubmitOutcome::Updated
    ));
    // A pre-release of the stored release is stale.
    let outcome = submit(&mut store, sub("alice", "foo", "s3cret", "1.0.0-beta"), 400);
    let (kind, _) = rejected_kind(&outcome).expect("pre-release must be stale");
    assert_eq!(kind, ErrorKind::StaleVersion);
}

#[test]
fn build_metadata_is_ignored_for_ordering() {
    let mut store = RegistryStore::new();
    assert!(matches!(
        submit(&mut store, sub("alice", "foo", "s3cret", "1.0.0+b1"), 100),
        SubmitOutcome::Created
    ));
    let outcome = submit(&mut store, sub("alice", "foo", "s3cret", "1.0.0+b2"), 200);
    let (kind, _) = rejected_kind(&outcome).expect("build metadata must not order versions");
    assert_eq!(kind, ErrorKind::StaleVersion);
}

#[test]
fn wrong_secret_is_always_rejected_regardless_of_version() {
    let mut store = RegistryStore::new();
    assert!(matches!(
        submit(&mut store, sub("alice", "foo", "S1", "1.0.0"), 100),
        SubmitOutcome::Created
    ));
    for version in ["0.1.0", "1.0.0", "9.9.9"] {
        let outcome = submit(&mut store, sub("alice", "foo", "S2", version), 200);
        let (kind, message) = rejected_kind(&outcome).expect("wrong secret must be rejected");
        assert_eq!(kind, ErrorKind::Authorization);
        assert_eq!(message, "The secret was incorrect.");
    }
    let entry = store.lookup("alice/foo").expect("entry must survive");
    assert_eq!(entry.secret, "S1");
    assert_eq!(entry.info.version, "1.0.0");
}

#[test]
fn racing_new_identity_creates_exactly_one_row() {
    let mut store = RegistryStore::new();
    let mut created = 0;
    // Five submissions for the same fresh identity, distinct secrets: the
    // store decides inside one atomic operation, so exactly one creates.
    for (i, secret) in ["k1", "k2", "k3", "k4", "k5"].iter().enumerate() {
        match submit(&mut store, sub("alice", "foo", secret, "1.0.0"), 100 + i as i64) {
            SubmitOutcome::Created => created += 1,
            SubmitOutcome::Updated => panic!("same version can never update"),
            SubmitOutcome::Rejected(e) => {
                assert!(matches!(
                    e.kind,
                    ErrorKind::Authorization | ErrorKind::StaleVersion
                ));
            }
            SubmitOutcome::InternalError => panic!("no backend in this store"),
        }
    }
    assert_eq!(created, 1);
    assert_eq!(store.len(), 1);
    assert_eq!(store.lookup("alice/foo").unwrap().secret, "k1");
}

#[test]
fn update_replaces_payload_and_keeps_creation_fields() {
    let mut store = RegistryStore::new();
    assert!(matches!(
        submit(&mut store, sub("alice", "foo", "s3cret", "1.0.0"), 100),
        SubmitOutcome::Created
    ));
    let mut newer = sub("alice", "foo", "s3cret", "2.0.0");
    newer.description = "A better plugin".to_string();
    assert!(matches!(submit(&mut store, newer, 250), SubmitOutcome::Updated));
    let entry = store.lookup("alice/foo").expect("entry must exist");
    assert_eq!(entry.published, 100, "creation timestamp is immutable");
    assert_eq!(entry.updated, 250, "update timestamp moves");
    assert_eq!(entry.secret, "s3cret");
    assert_eq!(entry.info.version, "2.0.0");
    assert_eq!(entry.info.description, "A better plugin");
    assert!(entry.downloads.is_none(), "the counter belongs to an external component");
}

#[test]
fn distinct_identities_do_not_interfere() {
    let mut store = RegistryStore::new();
    assert!(matches!(
        submit(&mut store, sub("alice", "foo", "sa", "1.0.0"), 100),
        SubmitOutcome::Created
    ));
    assert!(matches!(
        submit(&mut store, sub("bob", "foo", "sb", "1.0.0"), 101),
        SubmitOutcome::Created
    ));
    assert!(matches!(
        submit(&mut store, sub("alice", "bar", "sa", "1.0.0"), 102),
        SubmitOutcome::Created
    ));
    assert_eq!(store.len(), 3);
    assert!(store.lookup("alice/foo").is_some());
    assert!(store.lookup("bob/foo").is_some());
    assert!(store.lookup("alice/bar").is_some());
    assert!(store.lookup("alice/baz").is_none());
}

#[test]
fn arbiter_decides_each_outcome() {
    let cand = ModEntry::from_submission(sub("alice", "foo", "s3cret", "2.0.0"), 100)
        .expect("valid submission");
    assert!(matches!(cand.verify(None), Verification::NotFound));
    let stored = ModEntry::from_submission(sub("alice", "foo", "s3cret", "1.0.0"), 50)
        .expect("valid submission");
    assert!(matches!(cand.verify(Some(&stored)), Verification::Success));
    let old = ModEntry::from_submission(sub("alice", "foo", "s3cret", "3.0.0"), 50)
        .expect("valid submission");
    assert!(matches!(cand.verify(Some(&old)), Verification::Old));
    let other = ModEntry::from_submission(sub("alice", "foo", "other", "1.0.0"), 50)
        .expect("valid submission");
    assert!(matches!(cand.verify(Some(&other)), Verification::Failure));
}

#[test]
fn id_splits_into_owner_and_name_for_exposure() {
    let entry = ModEntry::from_submission(sub("alice", "foo", "s3cret", "1.0.0"), 1)
        .expect("valid submission");
    assert_eq!(entry.id_parts(), ("alice".to_string(), "foo".to_string()));
    let mut odd = ModEntry::from_submission(sub("alice", "foo", "s3cret", "1.0.0"), 1)
        .expect("valid submission");
    odd.id = "noslash".to_string();
    assert_eq!(odd.id_parts(), ("no-name".to_string(), "noslash".to_string()));
}

#[test]
fn candidate_entry_is_built_from_the_submission() {
    let entry = ModEntry::from_submission(sub("alice", "foo", "s3cret", "v1.0.0"), 42)
        .expect("valid submission");
    assert_eq!(entry.id, "alice/foo");
    assert_eq!(entry.secret, "s3cret");
    assert_eq!(entry.published, 42);
    assert_eq!(entry.updated, 42);
    assert!(entry.downloads.is_none());
    assert_eq!(entry.info.version, "1.0.0", "the leading v is stripped");
    assert_eq!(
        entry.info.binaries,
        vec!["https://drive.google.com/uc?export=download&id=ABC123".to_string()]
    );
    assert_eq!(entry.search, rdb::search::tokenize("alice/foo"));
}
