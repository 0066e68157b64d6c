//! Planning upgrades: reading the package manager's listing of installed
//! packages (`<state> <name>-<version> <description>` per line) and pairing each
//! installed package with its entry in the index.
use vstd::prelude::*;

use crate::index::{lookup, Index, IndexModel};
use crate::text::chars_of;

verus! {

/// What `str::split_whitespace` yields for `s`.
pub uninterp spec fn whitespace_fields(s: Seq<char>) -> Seq<Seq<char>>;

/// The position of the first line feed in `s`.
pub open spec fn first_newline(s: Seq<char>) -> Option<int>
    decreases s.len(),
{
    if s.len() == 0 {
        None
    } else if s[0] == '\n' {
        Some(0)
    } else {
        match first_newline(s.drop_first()) {
            Some(i) => Some(i + 1),
            None => None,
        }
    }
}

/// A line without the carriage return of a `\r\n` ending.
pub open spec fn without_cr(line: Seq<char>) -> Seq<char> {
    if line.len() > 0 && line.last() == '\r' {
        line.drop_last()
    } else {
        line
    }
}

/// The lines of `s`: split after each `\n`, with the ending (`\n` or `\r\n`) left
/// out; a final ending is optional and an empty text has no lines.
pub open spec fn lines_of(s: Seq<char>) -> Seq<Seq<char>>
    decreases s.len(),
{
    if s.len() == 0 {
        Seq::empty()
    } else {
        match first_newline(s) {
            Some(i) => if 0 <= i < s.len() {
                seq![without_cr(s.subrange(0, i))] + lines_of(s.subrange(i + 1, s.len() as int))
            } else {
                Seq::empty()
            },
            None => seq![s],
        }
    }
}

/// The characters of each string.
pub open spec fn strings_view(v: Vec<String>) -> Seq<Seq<char>> {
    v@.map_values(|s: String| s@)
}

/// Relies on str::split_whitespace: the words of `s`; the result depends on the
/// characters alone.
#[verifier::external_body]
fn split_fields(s: &str) -> (r: Vec<String>)
    ensures
        strings_view(r) == whitespace_fields(s@),
{
    s.split_whitespace().map(String::from).collect()
}

/// Relies on str::lines: lines end at `\n` or `\r\n`, the endings are left out,
/// and the final ending is optional (a bare `\r` at the very end stays).
#[verifier::external_body]
fn split_lines(s: &str) -> (r: Vec<String>)
    ensures
        strings_view(r) == lines_of(s@),
{
    s.lines().map(String::from).collect()
}

/// The position of the last `-` in `w`.
pub open spec fn last_dash(w: Seq<char>) -> Option<int>
    decreases w.len(),
{
    if w.len() == 0 {
        None
    } else if w.last() == '-' {
        Some(w.len() - 1)
    } else {
        last_dash(w.drop_last())
    }
}

/// The name and version of a listed package, `<name>-<version>`: split at the last `-`.
pub open spec fn name_and_version(w: Seq<char>) -> Option<(Seq<char>, Seq<char>)> {
    match last_dash(w) {
        Some(i) => Some((w.subrange(0, i), w.subrange(i + 1, w.len() as int))),
        None => None,
    }
}

/// The installed package that one line of the listing names, from its second word.
pub open spec fn installed_of(line: Seq<char>) -> Option<(Seq<char>, Seq<char>)> {
    let f = whitespace_fields(line);
    if f.len() < 2 {
        None
    } else {
        name_and_version(f[1])
    }
}

/// Splits `<name>-<version>` at its last `-`.
pub fn split_name_version(word: &str) -> (r: Option<(String, String)>)
    ensures
        match r {
            Some((n, v)) => name_and_version(word@) == Some((n@, v@)),
            None => name_and_version(word@) is None,
        },
{
    let w = chars_of(word);
    let mut i: usize = w.len();
    assert(word@.subrange(0, i as int) =~= word@);
    while i > 0
        invariant
            i <= w@.len(),
            w@ == word@,
            last_dash(word@) == last_dash(word@.subrange(0, i as int)),
        decreases i,
    {
        let ghost pre = word@.subrange(0, i as int);
        assert(pre.drop_last() =~= word@.subrange(0, i as int - 1));
        if w[i - 1] == '-' {
            let n = word.substring_char(0, i - 1);
            let v = word.substring_char(i, w.len());
            return Some((String::from_str(n), String::from_str(v)));
        }
        i = i - 1;
    }
    None
}

/// The name and version of the installed package on one line of the listing.
pub fn parse_installed_line(line: &str) -> (r: Option<(String, String)>)
    ensures
        match r {
            Some((n, v)) => installed_of(line@) == Some((n@, v@)),
            None => installed_of(line@) is None,
        },
{
    let f = split_fields(line);
    assert(strings_view(f).len() == f@.len());
    if f.len() < 2 {
        return None;
    }
    assert(strings_view(f)[1] == f@[1]@);
    split_name_version(f[1].as_str())
}

/// An installed package that the index also holds.
pub struct UpgradeCandidate {
    pub name: String,
    /// The version that is installed.
    pub installed: String,
    /// The version that the index holds.
    pub available: String,
    pub repo_url: String,
}

/// What an `UpgradeCandidate` holds: name, installed version, and index metadata.
pub open spec fn candidate_view(c: UpgradeCandidate) -> (Seq<char>, Seq<char>, Seq<char>, Seq<char>) {
    (c.name@, c.installed@, c.available@, c.repo_url@)
}

/// The installed packages that `lines` name and `index` holds, in listing order.
pub open spec fn candidates(index: IndexModel, lines: Seq<Seq<char>>) -> Seq<(Seq<char>, Seq<char>, Seq<char>, Seq<char>)>
    decreases lines.len(),
{
    if lines.len() == 0 {
        Seq::empty()
    } else {
        let rest = candidates(index, lines.drop_last());
        match installed_of(lines.last()) {
            Some((name, version)) => match lookup(index, name) {
                Some(info) => rest.push((name, version, info.version, info.repo_url)),
                None => rest,
            },
            None => rest,
        }
    }
}

/// The packages of the listing `listing` that the index holds, each with the
/// installed version and the index's version and source, to be compared.
pub fn upgrade_candidates(index: &Index, listing: &str) -> (r: Vec<UpgradeCandidate>)
    ensures
        r@.map_values(|c: UpgradeCandidate| candidate_view(c)) == candidates(index@, lines_of(listing@)),
{
    let lines = split_lines(listing);
    candidates_in(index, &lines)
}

/// The packages named by the lines `lines` of a listing that the index holds.
pub fn candidates_in(index: &Index, lines: &Vec<String>) -> (r: Vec<UpgradeCandidate>)
    ensures
        r@.map_values(|c: UpgradeCandidate| candidate_view(c)) == candidates(index@, strings_view(*lines)),
{
    let ghost ls = strings_view(*lines);
    let mut r: Vec<UpgradeCandidate> = Vec::new();
    let mut i: usize = 0;
    assert(ls.subrange(0, 0) =~= Seq::<Seq<char>>::empty());
    assert(r@.map_values(|c: UpgradeCandidate| candidate_view(c)) =~= Seq::<(Seq<char>, Seq<char>, Seq<char>, Seq<char>)>::empty());
    while i < lines.len()
        invariant
            ls == strings_view(*lines),
            i <= lines@.len(),
            r@.map_values(|c: UpgradeCandidate| candidate_view(c)) == candidates(index@, ls.subrange(0, i as int)),
        decreases lines@.len() - i,
    {
        let ghost pre = ls.subrange(0, i as int + 1);
        assert(pre.drop_last() =~= ls.subrange(0, i as int));
        assert(pre.last() == lines@[i as int]@);
        let ghost before = r@;
        if let Some((name, version)) = parse_installed_line(lines[i].as_str()) {
            if let Some(info) = index.get(name.as_str()) {
                r.push(UpgradeCandidate {
                    name,
                    installed: version,
                    available: info.version.clone(),
                    repo_url: info.repo_url.clone(),
                });
                assert(r@.map_values(|c: UpgradeCandidate| candidate_view(c)) =~= before.map_values(|c: UpgradeCandidate| candidate_view(c)).push(candidate_view(r@.last())));
            }
        }
        i = i + 1;
    }
    assert(ls.subrange(0, i as int) =~= ls);
    r
}

/// A copy of `c`.
fn copy_candidate(c: &UpgradeCandidate) -> (r: UpgradeCandidate)
    ensures
        candidate_view(r) == candidate_view(*c),
{
    UpgradeCandidate {
        name: c.name.clone(),
        installed: c.installed.clone(),
        available: c.available.clone(),
        repo_url: c.repo_url.clone(),
    }
}

/// The candidates whose index version the comparator found newer, in order.
pub open spec fn newer_ones(checked: Seq<(UpgradeCandidate, bool)>) -> Seq<(Seq<char>, Seq<char>, Seq<char>, Seq<char>)>
    decreases checked.len(),
{
    if checked.len() == 0 {
        Seq::empty()
    } else if checked.last().1 {
        newer_ones(checked.drop_last()).push(candidate_view(checked.last().0))
    } else {
        newer_ones(checked.drop_last())
    }
}

/// The updates to install: each candidate paired with whether its index version
/// is newer than the installed one keeps, in order, exactly those that are newer.
pub fn select_updates(checked: &Vec<(UpgradeCandidate, bool)>) -> (r: Vec<UpgradeCandidate>)
    ensures
        r@.map_values(|c: UpgradeCandidate| candidate_view(c)) == newer_ones(checked@),
{
    let mut r: Vec<UpgradeCandidate> = Vec::new();
    let mut i: usize = 0;
    assert(checked@.subrange(0, 0) =~= Seq::<(UpgradeCandidate, bool)>::empty());
    assert(r@.map_values(|c: UpgradeCandidate| candidate_view(c)) =~= Seq::<(Seq<char>, Seq<char>, Seq<char>, Seq<char>)>::empty());
    while i < checked.len()
        invariant
            i <= checked@.len(),
            r@.map_values(|c: UpgradeCandidate| candidate_view(c)) == newer_ones(checked@.subrange(0, i as int)),
        decreases checked@.len() - i,
    {
        let ghost pre = checked@.subrange(0, i as int + 1);
        assert(pre.drop_last() =~= checked@.subrange(0, i as int));
        assert(pre.last() == checked@[i as int]);
        let ghost before = r@;
        if checked[i].1 {
            r.push(copy_candidate(&checked[i].0));
            assert(r@.map_values(|c: UpgradeCandidate| candidate_view(c)) =~= before.map_values(|c: UpgradeCandidate| candidate_view(c)).push(candidate_view(checked@[i as int].0)));
        }
        i = i + 1;
    }
    assert(checked@.subrange(0, i as int) =~= checked@);
    r
}

} // verus!
