//! Reviewing a package's build recipe before installation: where the recipe
//! is fetched from, how the fetched text compares with the last reviewed copy,
//! how the user's answer is read, and what is kept once the review is done.
use vstd::prelude::*;

use crate::index::PackageInfo;

verus! {

/// Where the recipe of package `pkg` of category `category` is fetched from.
pub open spec fn template_location(category: Seq<char>, pkg: Seq<char>) -> Seq<char> {
    "https://raw.githubusercontent.com/VUP-Linux/vup/main/vup/srcpkgs/"@ + category + "/"@ + pkg
        + "/template"@
}

/// The address of the recipe of package `pkg` of category `category`.
pub fn template_url(category: &str, pkg: &str) -> (r: String)
    ensures
        r@ == template_location(category@, pkg@),
{
    let mut r = String::from_str("https://raw.githubusercontent.com/VUP-Linux/vup/main/vup/srcpkgs/");
    r.append(category);
    r.append("/");
    r.append(pkg);
    r.append("/template");
    r
}

/// How a fetched recipe compares with the last reviewed copy.
#[derive(Debug, Clone, Copy, PartialEq, Eq, Structural)]
pub enum ReviewKind {
    /// No copy was reviewed before: the whole recipe is shown.
    FirstInstall,
    /// The recipe is the same as the reviewed copy.
    Unchanged,
    /// The recipe differs from the reviewed copy: a diff is shown.
    Changed,
}

/// The kind of review that `fetched` needs, given the last reviewed copy `previous`.
pub open spec fn kind_of(previous: Option<Seq<char>>, fetched: Seq<char>) -> ReviewKind {
    match previous {
        None => ReviewKind::FirstInstall,
        Some(p) => if p == fetched {
            ReviewKind::Unchanged
        } else {
            ReviewKind::Changed
        },
    }
}

/// Compares a fetched recipe with the last reviewed copy, if there is one.
pub fn review_kind(previous: Option<&str>, fetched: &str) -> (r: ReviewKind)
    ensures
        r == kind_of(
            match previous {
                Some(p) => Some(p@),
                None => None,
            },
            fetched@,
        ),
{
    match previous {
        None => ReviewKind::FirstInstall,
        Some(p) => {
            if String::from_str(p) == String::from_str(fetched) {
                ReviewKind::Unchanged
            } else {
                ReviewKind::Changed
            }
        },
    }
}

/// What `str::trim` leaves of `s`.
pub uninterp spec fn trimmed(s: Seq<char>) -> Seq<char>;

/// What `str::to_lowercase` makes of `s`.
pub uninterp spec fn lowered(s: Seq<char>) -> Seq<char>;

/// Relies on str::trim: removes leading and trailing white space; the result
/// depends on the characters alone.
#[verifier::external_body]
fn trim(s: &str) -> (r: &str)
    ensures
        r@ == trimmed(s@),
{
    s.trim()
}

/// Relies on str::to_lowercase: the lower-case form of each character; the
/// result depends on the characters alone.
#[verifier::external_body]
fn lowercase(s: &str) -> (r: String)
    ensures
        r@ == lowered(s@),
{
    s.to_lowercase()
}

/// An answer, once trimmed and lower-cased, that accepts: empty, `y` or `yes`.
pub open spec fn accepts(normalized: Seq<char>) -> bool {
    normalized == ""@ || normalized == "y"@ || normalized == "yes"@
}

/// Whether an answer that is already trimmed and lower-cased accepts.
pub fn answer_accepts(normalized: &str) -> (r: bool)
    ensures
        r == accepts(normalized@),
{
    let a = String::from_str(normalized);
    a == String::from_str("") || a == String::from_str("y") || a == String::from_str("yes")
}

/// Whether the user's answer to the confirmation prompt accepts: an empty answer
/// does, and so do `y` and `yes` in any case, with white space around them.
pub fn is_affirmative(answer: &str) -> (r: bool)
    ensures
        r == accepts(lowered(trimmed(answer@))),
{
    let t = trim(answer);
    let l = lowercase(t);
    answer_accepts(l.as_str())
}

/// Whether the answer read from the user accepts; `None` stands for no answer
/// at all (the input ended or could not be read), which declines.
pub fn confirms(answer: Option<&str>) -> (r: bool)
    ensures
        r == match answer {
            Some(a) => accepts(lowered(trimmed(a@))),
            None => false,
        },
{
    match answer {
        Some(a) => is_affirmative(a),
        None => false,
    }
}

/// What follows a review.
pub enum Decision {
    /// The user declined: nothing is kept and nothing is installed.
    Abort,
    /// The user accepted: `template` becomes the reviewed copy of `package`, which
    /// is then installed from `repo_url`.
    Install { package: String, template: String, repo_url: String },
}

/// What a `Decision` holds: for an install, the package, its recipe and its source.
pub open spec fn decision_view(d: Decision) -> Option<(Seq<char>, Seq<char>, Seq<char>)> {
    match d {
        Decision::Abort => None,
        Decision::Install { package, template, repo_url } => Some((package@, template@, repo_url@)),
    }
}

/// The reviewed recipes, by package name, once a decision is carried out.
pub open spec fn templates_after(
    store: Map<Seq<char>, Seq<char>>,
    d: Option<(Seq<char>, Seq<char>, Seq<char>)>,
) -> Map<Seq<char>, Seq<char>> {
    match d {
        Some((package, template, _)) => store.insert(package, template),
        None => store,
    }
}

/// The decision on the recipe `fetched` of `package`, to be installed from `repo_url`.
pub open spec fn decision_of(confirmed: bool, package: Seq<char>, fetched: Seq<char>, repo_url: Seq<char>) -> Option<(Seq<char>, Seq<char>, Seq<char>)> {
    if confirmed {
        Some((package, fetched, repo_url))
    } else {
        None
    }
}

/// Turns the user's answer on the recipe `fetched` of `package` into a decision.
pub fn decide(confirmed: bool, package: &str, fetched: String, info: &PackageInfo) -> (r: Decision)
    ensures
        decision_view(r) == decision_of(confirmed, package@, fetched@, info.repo_url@),
{
    if confirmed {
        Decision::Install {
            package: String::from_str(package),
            template: fetched,
            repo_url: info.repo_url.clone(),
        }
    } else {
        Decision::Abort
    }
}

/// When the user declines, the reviewed copy of every package stays as it was.
pub proof fn lemma_declined_review_keeps_templates(
    store: Map<Seq<char>, Seq<char>>,
    package: Seq<char>,
    fetched: Seq<char>,
    repo_url: Seq<char>,
)
    ensures
        templates_after(store, decision_of(false, package, fetched, repo_url)) == store,
{
}

/// When the user accepts, the fetched recipe becomes the package's reviewed copy,
/// and the copies of other packages stay as they were.
pub proof fn lemma_accepted_review_records_template(
    store: Map<Seq<char>, Seq<char>>,
    package: Seq<char>,
    fetched: Seq<char>,
    repo_url: Seq<char>,
)
    ensures
        templates_after(store, decision_of(true, package, fetched, repo_url))[package] == fetched,
        forall|other: Seq<char>|
            other != package && store.contains_key(other) ==> #[trigger] templates_after(
                store,
                decision_of(true, package, fetched, repo_url),
            )[other] == store[other],
{
}

} // verus!
