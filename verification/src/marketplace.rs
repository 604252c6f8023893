//! Publishing to the marketplace: the checks on a manifest's
//! `[marketplace]` section and the summary of a prepared submission.

use vstd::prelude::*;
use crate::text::{push_lit, string_of, texts_of};

verus! {

/// The `[marketplace]` section as publishing reads it.
pub struct MarketplaceSection {
    pub publisher: Option<String>,
    /// Listed only to whoever has the link or id (`private`).
    pub private: bool,
}

pub open spec fn missing_section_message() -> Seq<char> {
    "error: no [marketplace] section in manifest.toml.\n  Add one to publish, e.g.:\n\n  [marketplace]\n  visibility = \"public\"\n  price = \"free\"\n  publisher = \"your-org\""@
}

pub open spec fn private_warning() -> Seq<char> {
    "warning: [marketplace].visibility is \"private\" — this app will be submitted but not publicly listed. Use \"public\" to list it, \"unlisted\" for install-by-id only."@
}

/// Publishing needs a `[marketplace]` section with a non-empty publisher;
/// a private listing is allowed with a warning (`Ok(Some(..))`).
pub fn check_marketplace_section(section: Option<&MarketplaceSection>) -> (r: Result<Option<String>, String>)
    ensures
        match section {
            None => r matches Err(e) && e@ == missing_section_message(),
            Some(m) => match m.publisher {
                Some(p) if p@.len() > 0 => if m.private {
                    r matches Ok(Some(w)) && w@ == private_warning()
                } else {
                    r matches Ok(None)
                },
                _ => r matches Err(e) && e@ == "error: [marketplace].publisher is required to publish"@,
            },
        },
{
    match section {
        None => Err(
            "error: no [marketplace] section in manifest.toml.\n  Add one to publish, e.g.:\n\n  [marketplace]\n  visibility = \"public\"\n  price = \"free\"\n  publisher = \"your-org\"".to_owned(),
        ),
        Some(m) => {
            let ok = match &m.publisher {
                Some(p) => p.unicode_len() > 0,
                None => false,
            };
            if !ok {
                return Err("error: [marketplace].publisher is required to publish".to_owned());
            }
            if m.private {
                Ok(Some(
                    "warning: [marketplace].visibility is \"private\" — this app will be submitted but not publicly listed. Use \"public\" to list it, \"unlisted\" for install-by-id only.".to_owned(),
                ))
            } else {
                Ok(None)
            }
        },
    }
}

/// A prepared submission as `plexi app publish` shows it.
pub struct SubmissionSummary {
    pub id: String,
    pub version: String,
    pub publisher: String,
    pub visibility: String,
    pub price: String,
    pub requires_min: Option<String>,
    pub requires_max: Option<String>,
    pub trust: String,
    pub artifact: String,
    pub checksum: String,
}

pub open spec fn or_any(v: Option<String>) -> Seq<char> {
    match v {
        Some(s) => s@,
        None => "any"@,
    }
}

/// The summary lines: the `requires` line only when either bound is set,
/// an unset bound shown as `any`.
pub open spec fn spec_submission_lines(s: SubmissionSummary) -> Seq<Seq<char>> {
    seq![
        "Prepared submission for '"@ + s.id@ + "' v"@ + s.version@ + ":"@,
        "  publisher:  "@ + s.publisher@,
        "  visibility: "@ + s.visibility@,
        "  price:      "@ + s.price@,
    ] + (if s.requires_min is Some || s.requires_max is Some {
        seq!["  requires:   Plexi "@ + or_any(s.requires_min) + " .. "@ + or_any(s.requires_max)]
    } else {
        seq![]
    }) + seq![
        "  trust:      "@ + s.trust@,
        "  artifact:   "@ + s.artifact@,
        "  checksum:   "@ + s.checksum@,
    ]
}

fn line(a: &str, b: &str) -> (r: String)
    ensures
        r@ == a@ + b@,
{
    let mut out: Vec<char> = Vec::new();
    push_lit(&mut out, a);
    push_lit(&mut out, b);
    string_of(&out)
}

pub fn submission_lines(s: &SubmissionSummary) -> (r: Vec<String>)
    ensures
        texts_of(r@) == spec_submission_lines(*s),
{
    let mut v: Vec<String> = Vec::new();
    let mut first: Vec<char> = Vec::new();
    push_lit(&mut first, "Prepared submission for '");
    push_lit(&mut first, s.id.as_str());
    push_lit(&mut first, "' v");
    push_lit(&mut first, s.version.as_str());
    push_lit(&mut first, ":");
    v.push(string_of(&first));
    v.push(line("  publisher:  ", s.publisher.as_str()));
    v.push(line("  visibility: ", s.visibility.as_str()));
    v.push(line("  price:      ", s.price.as_str()));
    let ghost head = texts_of(v@);
    if s.requires_min.is_some() || s.requires_max.is_some() {
        let mut req: Vec<char> = Vec::new();
        push_lit(&mut req, "  requires:   Plexi ");
        match &s.requires_min {
            Some(m) => push_lit(&mut req, m.as_str()),
            None => push_lit(&mut req, "any"),
        }
        push_lit(&mut req, " .. ");
        match &s.requires_max {
            Some(m) => push_lit(&mut req, m.as_str()),
            None => push_lit(&mut req, "any"),
        }
        v.push(string_of(&req));
    }
    v.push(line("  trust:      ", s.trust.as_str()));
    v.push(line("  artifact:   ", s.artifact.as_str()));
    v.push(line("  checksum:   ", s.checksum.as_str()));
    proof {
        assert(texts_of(v@) =~= spec_submission_lines(*s));
    }
    v
}

} // verus!
