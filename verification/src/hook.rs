use vstd::prelude::*;
use vstd::string::{StrSliceExecFns, StringExecFns};
use crate::normalize::{Submission, SubmissionV};
use crate::text::{char_pos_from, char_pos_from_exec, lemma_char_pos_bounds};

verus! {

// ---------------------------------------------------------------------------
// Shaping a repository release into a submission: the repository's full name
// becomes owner and name, the release tag becomes the version, the
// enumerated release assets become the binaries, in order, and the icon and
// fallback homepage are derived from the repository path.
// ---------------------------------------------------------------------------

/// What a release event carries, as plain values.
pub struct ReleasePayload {
    pub action: String,
    pub full_name: String,
    pub description: Option<String>,
    pub homepage: Option<String>,
    pub tag_name: String,
    pub assets: Vec<String>,
}

/// The ghost value of a release payload.
#[verifier::ext_equal]
pub struct ReleasePayloadV {
    pub action: Seq<char>,
    pub full_name: Seq<char>,
    pub description: Option<Seq<char>>,
    pub homepage: Option<Seq<char>>,
    pub tag_name: Seq<char>,
    pub assets: Seq<Seq<char>>,
}

impl View for ReleasePayload {
    type V = ReleasePayloadV;

    open spec fn view(&self) -> ReleasePayloadV {
        ReleasePayloadV {
            action: self.action@,
            full_name: self.full_name@,
            description: self.description.deep_view(),
            homepage: self.homepage.deep_view(),
            tag_name: self.tag_name@,
            assets: self.assets.deep_view(),
        }
    }
}

/// The readme page of the repository, used when no homepage is set.
pub open spec fn default_homepage(full: Seq<char>) -> Seq<char> {
    "https://github.com/"@ + full + "#readme"@
}

/// The `icon.png` file at the repository root, at the release tag.
pub open spec fn icon_url(full: Seq<char>, tag: Seq<char>) -> Seq<char> {
    "https://raw.githubusercontent.com/"@ + full + "/"@ + tag + "/icon.png"@
}

/// The submission a release payload produces: none when the repository name
/// has no `owner/name` shape or the release carries no asset.
pub open spec fn extract_spec(rel: ReleasePayloadV, secret: Seq<char>) -> Option<SubmissionV> {
    let p = char_pos_from(rel.full_name, '/', 0);
    if p >= rel.full_name.len() || rel.assets.len() == 0 {
        None
    } else {
        Some(
            SubmissionV {
                owner: rel.full_name.subrange(0, p),
                name: rel.full_name.skip(p + 1),
                secret: secret,
                description: match rel.description {
                    Some(d) => d,
                    None => Seq::empty(),
                },
                homepage: match rel.homepage {
                    Some(h) => if h.len() > 0 {
                        h
                    } else {
                        default_homepage(rel.full_name)
                    },
                    None => default_homepage(rel.full_name),
                },
                version: rel.tag_name,
                icon: icon_url(rel.full_name, rel.tag_name),
                binaries: rel.assets,
            },
        )
    }
}

fn default_homepage_exec(full: &str) -> (r: String)
    ensures
        r@ == default_homepage(full@),
{
    let mut r = "https://github.com/".to_owned();
    r.append(full);
    r.append("#readme");
    r
}

fn icon_url_exec(full: &str, tag: &str) -> (r: String)
    ensures
        r@ == icon_url(full@, tag@),
{
    let mut r = "https://raw.githubusercontent.com/".to_owned();
    r.append(full);
    r.append("/");
    r.append(tag);
    r.append("/icon.png");
    r
}

/// Shapes a release payload into a raw submission, or nothing when the
/// repository name is not `owner/name` or the release has no asset. The
/// submission still goes through the full validation of the pipeline.
pub fn extract_submission(rel: ReleasePayload, secret: String) -> (r: Option<Submission>)
    ensures
        r.deep_view() == extract_spec(rel@, secret@),
{
    let ghost rv = rel@;
    let ReleasePayload { action: _action, full_name, description, homepage, tag_name, assets } =
        rel;
    let fn_len: usize = full_name.as_str().unicode_len();
    let p = char_pos_from_exec(full_name.as_str(), '/', 0);
    proof {
        lemma_char_pos_bounds(full_name@, '/', 0);
    }
    if p >= fn_len {
        return None;
    }
    if assets.is_empty() {
        return None;
    }
    let owner = full_name.as_str().substring_char(0, p).to_owned();
    let name = full_name.as_str().substring_char(p + 1, fn_len).to_owned();
    proof {
        assert(name@ =~= full_name@.skip(p + 1));
    }
    let description = match description {
        Some(d) => d,
        None => String::new(),
    };
    let homepage = match homepage {
        Some(h) => {
            if h.as_str().is_empty() {
                default_homepage_exec(full_name.as_str())
            } else {
                h
            }
        },
        None => default_homepage_exec(full_name.as_str()),
    };
    let icon = icon_url_exec(full_name.as_str(), tag_name.as_str());
    let sub = Submission {
        name,
        owner,
        secret,
        description,
        homepage,
        version: tag_name,
        icon,
        binaries: assets,
    };
    proof {
        assert(sub@ =~= extract_spec(rv, secret@)->0);
    }
    Some(sub)
}

} // verus!
