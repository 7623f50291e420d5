use rdb::hook::{extract_submission, ReleasePayload};
use rdb::search::tokenize;
use rdb::urls::resolve_binary;

#[test]
fn drive_file_view_is_rewritten_to_direct_download() {
    assert_eq!(
        resolve_binary("https://drive.google.com/file/d/ABC123/view?usp=sharing"),
        Some("https://drive.google.com/uc?export=download&id=ABC123".to_string())
    );
}

#[test]
fn canonical_drive_link_passes_through() {
    let url = "https://drive.google.com/uc?export=download&id=ABC123";
    assert_eq!(resolve_binary(url), Some(url.to_string()));
}

#[test]
fn github_release_asset_passes_through() {
    let url = "https://github.com/Dual-Iron/centipede-shields/releases/download/0.3.0/CentiShields.dll";
    assert_eq!(resolve_binary(url), Some(url.to_string()));
}

#[test]
fn discord_attachment_passes_through() {
    let url = "https://cdn.discordapp.com/attachments/123456789/987654321/mod.zip";
    assert_eq!(resolve_binary(url), Some(url.to_string()));
}

#[test]
fn unlisted_host_is_rejected() {
    assert_eq!(resolve_binary("https://example.com/file.zip"), None);
    assert_eq!(resolve_binary(""), None);
    assert_eq!(resolve_binary("https://github.com/someone-else/x/releases/download/1.0/a.dll"), None);
}

#[test]
fn matched_substring_is_extracted() {
    // Text around the URL is dropped: only the matched part is stored.
    assert_eq!(
        resolve_binary("see https://drive.google.com/file/d/XYZ/view for the file"),
        Some("https://drive.google.com/uc?export=download&id=XYZ".to_string())
    );
    // The file segment runs to the next slash, so a trailing path is cut.
    assert_eq!(
        resolve_binary("<https://cdn.discordapp.com/attachments/1/2/mod.zip/trailing"),
        Some("https://cdn.discordapp.com/attachments/1/2/mod.zip".to_string())
    );
}

#[test]
fn drive_patterns_take_precedence_in_fixed_order() {
    // Both a Drive file link and a Discord link are present: the Drive
    // pattern is checked first.
    let url = "https://cdn.discordapp.com/attachments/1/2/x https://drive.google.com/file/d/ID1/v";
    assert_eq!(
        resolve_binary(url),
        Some("https://drive.google.com/uc?export=download&id=ID1".to_string())
    );
}

#[test]
fn discord_segments_must_be_numeric() {
    assert_eq!(
        resolve_binary("https://cdn.discordapp.com/attachments/abc/123/mod.zip"),
        None
    );
    assert_eq!(
        resolve_binary("https://cdn.discordapp.com/attachments/123//mod.zip"),
        None
    );
}

#[test]
fn tokenizer_matches_the_fixed_algorithm() {
    assert_eq!(
        tokenize("Dual-Iron/centipede-shields"),
        "Dua Dual Iro Iron cen cent centi centip centipe centiped centipede \
         shi shie shiel shield shields "
    );
}

#[test]
fn tokenizer_is_deterministic() {
    let a = tokenize("Dual-Iron/centipede-shields");
    let b = tokenize("Dual-Iron/centipede-shields");
    assert_eq!(a, b);
    assert!(a.contains("centipede "));
    assert!(a.contains("shields "));
    assert!(a.contains("shield "));
}

#[test]
fn tokenizer_keeps_short_words_whole() {
    assert_eq!(tokenize("ab/c_d"), "ab c d ");
    assert_eq!(tokenize("abc"), "abc ");
    assert_eq!(tokenize(""), " ");
}

#[test]
fn tokenizer_respects_character_boundaries() {
    // Multi-byte characters count as single user-perceived characters.
    assert_eq!(tokenize("caf\u{e9}s"), "caf caf\u{e9} caf\u{e9}s ");
}

fn payload(full_name: &str, tag: &str, assets: Vec<&str>) -> ReleasePayload {
    ReleasePayload {
        action: "released".to_string(),
        full_name: full_name.to_string(),
        description: Some("A plugin for Rain World".to_string()),
        homepage: None,
        tag_name: tag.to_string(),
        assets: assets.into_iter().map(|a| a.to_string()).collect(),
    }
}

#[test]
fn release_payload_becomes_a_submission() {
    let rel = payload(
        "Dual-Iron/centipede-shields",
        "v0.3.0",
        vec![
            "https://github.com/Dual-Iron/centipede-shields/releases/download/0.3.0/A.dll",
            "https://github.com/Dual-Iron/centipede-shields/releases/download/0.3.0/B.dll",
        ],
    );
    let sub = extract_submission(rel, "s3cret".to_string()).expect("well-shaped payload");
    assert_eq!(sub.owner, "Dual-Iron");
    assert_eq!(sub.name, "centipede-shields");
    assert_eq!(sub.secret, "s3cret");
    assert_eq!(sub.version, "v0.3.0", "the v prefix is left to normalization");
    assert_eq!(
        sub.icon,
        "https://raw.githubusercontent.com/Dual-Iron/centipede-shields/v0.3.0/icon.png"
    );
    assert_eq!(
        sub.homepage,
        "https://github.com/Dual-Iron/centipede-shields#readme"
    );
    assert_eq!(
        sub.binaries,
        vec![
            "https://github.com/Dual-Iron/centipede-shields/releases/download/0.3.0/A.dll"
                .to_string(),
            "https://github.com/Dual-Iron/centipede-shields/releases/download/0.3.0/B.dll"
                .to_string(),
        ],
        "every enumerated asset is a binary, in order"
    );
}

#[test]
fn release_payload_keeps_a_set_homepage() {
    let mut rel = payload("Dual-Iron/centipede-shields", "v0.3.0", vec!["https://x/a.dll"]);
    rel.homepage = Some("https://mods.example.com".to_string());
    let sub = extract_submission(rel, "s".to_string()).expect("well-shaped payload");
    assert_eq!(sub.homepage, "https://mods.example.com");
}

#[test]
fn malformed_release_payloads_are_refused() {
    let rel = payload("no-slash-here", "v1.0.0", vec!["https://x/a.dll"]);
    assert!(extract_submission(rel, "s".to_string()).is_none());
    let rel = payload("Dual-Iron/centipede-shields", "v1.0.0", vec![]);
    assert!(extract_submission(rel, "s".to_string()).is_none());
}
