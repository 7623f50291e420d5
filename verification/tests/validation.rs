use rdb::error::ErrorKind;
use rdb::normalize::Submission;
use rdb::pipeline::{submit, SubmitOutcome};
use rdb::store::RegistryStore;

fn sub(owner: &str, name: &str, secret: &str, version: &str) -> Submission {
    Submission {
        name: name.to_string(),
        owner: owner.to_string(),
        secret: secret.to_string(),
        description: "A plugin for Rain World".to_string(),
        homepage: String::new(),
        version: version.to_string(),
        icon: "https://example.com/icon.png".to_string(),
        binaries: vec!["https://drive.google.com/file/d/ABC123/view?usp=sharing".to_string()],
    }
}

fn rejection_message(raw: Submission) -> Option<&'static str> {
    let mut store = RegistryStore::new();
    match submit(&mut store, raw, 100) {
        SubmitOutcome::Rejected(e) => {
            assert_eq!(e.kind, ErrorKind::Validation);
            assert_eq!(store.len(), 0, "a rejected submission must leave no trace");
            Some(e.message)
        }
        SubmitOutcome::Created => None,
        other => panic!("unexpected outcome: {:?}", std::mem::discriminant(&other)),
    }
}

#[test]
fn bounds_owner_40_rejected_39_accepted() {
    let owner40 = "a".repeat(40);
    assert_eq!(
        rejection_message(sub(&owner40, "foo", "s", "1.0.0")),
        Some("Owner must be 1-39 characters.")
    );
    let owner39 = "a".repeat(39);
    assert_eq!(rejection_message(sub(&owner39, "foo", "s", "1.0.0")), None);
}

#[test]
fn bounds_description_501_rejected_500_accepted() {
    let mut raw = sub("alice", "foo", "s", "1.0.0");
    raw.description = "d".repeat(501);
    assert_eq!(
        rejection_message(raw),
        Some("Description must be 500 bytes or less.")
    );
    let mut raw = sub("alice", "foo", "s", "1.0.0");
    raw.description = "d".repeat(500);
    assert_eq!(rejection_message(raw), None);
}

#[test]
fn empty_binaries_rejected() {
    let mut raw = sub("alice", "foo", "s", "1.0.0");
    raw.binaries = vec![];
    assert_eq!(
        rejection_message(raw),
        Some("At least one binary URL is required.")
    );
}

#[test]
fn non_https_icon_rejected() {
    let mut raw = sub("alice", "foo", "s", "1.0.0");
    raw.icon = "http://example.com/icon.png".to_string();
    assert_eq!(
        rejection_message(raw),
        Some("Icon must be a URL using the HTTPS scheme.")
    );
    let mut raw = sub("alice", "foo", "s", "1.0.0");
    raw.icon = "not a url".to_string();
    assert_eq!(
        rejection_message(raw),
        Some("Icon must be a URL using the HTTPS scheme.")
    );
}

#[test]
fn each_bound_violation_reports_its_message() {
    let cases: Vec<(Submission, &'static str)> = vec![
        (sub("alice", "", "s", "1.0.0"), "Name must be 1-39 characters."),
        (
            sub("alice", &"n".repeat(40), "s", "1.0.0"),
            "Name must be 1-39 characters.",
        ),
        (sub("", "foo", "s", "1.0.0"), "Owner must be 1-39 characters."),
        (sub("alice", "foo", "", "1.0.0"), "Secret must be 1-500 bytes."),
        (
            sub("alice", "foo", &"s".repeat(501), "1.0.0"),
            "Secret must be 1-500 bytes.",
        ),
        (sub("alice", "foo", "s", ""), "Version must be 1-50 bytes."),
        (
            sub("alice", "foo", "s", &"1".repeat(51)),
            "Version must be 1-50 bytes.",
        ),
        (
            sub("alice", "foo", "s", "not-semantic"),
            "Version must comply with https://semver.org.",
        ),
        (
            sub("alice", "foo", "s", "1.0"),
            "Version must comply with https://semver.org.",
        ),
        (
            sub("al!ce", "foo", "s", "1.0.0"),
            "Owner must match [a-zA-Z0-9_-.].",
        ),
        (
            sub("alice", "f oo", "s", "1.0.0"),
            "Name must match [a-zA-Z0-9_-.].",
        ),
    ];
    for (raw, expected) in cases {
        assert_eq!(rejection_message(raw), Some(expected));
    }
}

#[test]
fn long_homepage_icon_and_binary_report_their_messages() {
    let mut raw = sub("alice", "foo", "s", "1.0.0");
    raw.homepage = format!("https://example.com/{}", "p".repeat(500));
    assert_eq!(
        rejection_message(raw),
        Some("Homepage URL must be 500 bytes or less.")
    );
    let mut raw = sub("alice", "foo", "s", "1.0.0");
    raw.icon = format!("https://example.com/{}", "p".repeat(500));
    assert_eq!(
        rejection_message(raw),
        Some("Icon URL must be 500 bytes or less.")
    );
    let mut raw = sub("alice", "foo", "s", "1.0.0");
    raw.binaries = vec![format!("https://example.com/{}", "p".repeat(500))];
    assert_eq!(
        rejection_message(raw),
        Some("Binary URL must be 500 bytes or less.")
    );
}

#[test]
fn homepage_is_optional_but_must_be_https_when_present() {
    let mut raw = sub("alice", "foo", "s", "1.0.0");
    raw.homepage = "https://alice.example.com".to_string();
    assert_eq!(rejection_message(raw), None);
    let mut raw = sub("alice", "foo", "s", "1.0.0");
    raw.homepage = "ftp://alice.example.com".to_string();
    assert_eq!(
        rejection_message(raw),
        Some("Homepage must be a URL using the HTTPS scheme.")
    );
}

#[test]
fn disallowed_binary_host_rejects_the_whole_submission() {
    let mut raw = sub("alice", "foo", "s", "1.0.0");
    raw.binaries = vec![
        "https://drive.google.com/file/d/GOOD/view".to_string(),
        "https://example.com/file.zip".to_string(),
    ];
    assert_eq!(
        rejection_message(raw),
        Some(
            "Each binary URL must be a Google Drive file, GitHub release asset, or Discord attachment."
        )
    );
}

#[test]
fn first_violation_wins_when_several_are_present() {
    // Both the name and the icon are bad; the name check comes first.
    let mut raw = sub("alice", "", "s", "1.0.0");
    raw.icon = "http://example.com/icon.png".to_string();
    assert_eq!(
        rejection_message(raw),
        Some("Name must be 1-39 characters.")
    );
}

#[test]
fn fields_are_trimmed_before_checking() {
    let mut store = RegistryStore::new();
    let raw = Submission {
        name: "  foo  ".to_string(),
        owner: "\talice\n".to_string(),
        secret: " s3cret ".to_string(),
        description: "  desc  ".to_string(),
        homepage: String::new(),
        version: "  v1.0.0  ".to_string(),
        icon: " https://example.com/icon.png ".to_string(),
        binaries: vec![" https://drive.google.com/file/d/ABC123/view ".to_string()],
    };
    assert!(matches!(submit(&mut store, raw, 100), SubmitOutcome::Created));
    let entry = store.lookup("alice/foo").expect("trimmed identity");
    assert_eq!(entry.info.version, "1.0.0");
    assert_eq!(entry.info.description, "desc");
    assert_eq!(entry.secret, "s3cret");
}

#[test]
fn unicode_names_are_accepted_and_counted_in_characters() {
    // Unicode letters are alphanumeric, and the bound counts characters.
    let owner = "caf\u{e9}".to_string();
    assert_eq!(rejection_message(sub(&owner, "foo", "s", "1.0.0")), None);
    // 39 two-byte characters are 78 bytes but within the 39-character bound.
    let owner39 = "\u{e9}".repeat(39);
    assert_eq!(rejection_message(sub(&owner39, "foo", "s", "1.0.0")), None);
    let owner40 = "\u{e9}".repeat(40);
    assert_eq!(
        rejection_message(sub(&owner40, "foo", "s", "1.0.0")),
        Some("Owner must be 1-39 characters.")
    );
}

#[test]
fn semver_oddities_are_rejected() {
    // Leading zeroes and partial versions are not semantic versions.
    for bad in ["01.0.0", "1.0.01", "1.0.0-", "1.0.0+", "1.0.0-alpha_1"] {
        assert_eq!(
            rejection_message(sub("alice", "foo", "s", bad)),
            Some("Version must comply with https://semver.org.")
        );
    }
}

#[test]
fn only_one_version_prefix_is_stripped() {
    assert_eq!(rejection_message(sub("alice", "foo", "s", "v1.0.0")), None);
    assert_eq!(rejection_message(sub("alice", "foo", "s", "V1.0.0")), None);
    // A second prefix letter leaves an invalid version behind.
    assert_eq!(
        rejection_message(sub("alice", "foo", "s", "vv1.0.0")),
        Some("Version must comply with https://semver.org.")
    );
}

#[test]
fn uppercase_https_scheme_is_accepted() {
    // url::Url::parse lowercases the scheme.
    let mut raw = sub("alice", "foo", "s", "1.0.0");
    raw.icon = "HTTPS://example.com/icon.png".to_string();
    assert_eq!(rejection_message(raw), None);
}
