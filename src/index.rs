//! The package directory: a decoded index from package name to metadata,
//! kept in ascending name order, with exact lookup and substring search.
use std::collections::BTreeMap;
use vstd::prelude::*;

use crate::text::{
    chars_of, contains, contains_chars, less_chars, lex_lt, lemma_lex_asymmetric,
    lemma_lex_irreflexive, lemma_lex_total, lemma_lex_transitive,
};

verus! {

/// Metadata of one package as the index describes it.
pub struct PackageInfo {
    pub category: String,
    pub version: String,
    pub repo_url: String,
}

/// What a `PackageInfo` holds, as character sequences.
pub struct InfoModel {
    pub category: Seq<char>,
    pub version: Seq<char>,
    pub repo_url: Seq<char>,
}

impl View for PackageInfo {
    type V = InfoModel;

    open spec fn view(&self) -> InfoModel {
        InfoModel { category: self.category@, version: self.version@, repo_url: self.repo_url@ }
    }
}

impl Clone for PackageInfo {
    fn clone(&self) -> (r: PackageInfo)
        ensures
            r@ == self@,
    {
        PackageInfo {
            category: self.category.clone(),
            version: self.version.clone(),
            repo_url: self.repo_url.clone(),
        }
    }
}

/// An index as a sequence of (name, metadata) entries.
pub type IndexModel = Seq<(Seq<char>, InfoModel)>;

/// Names strictly ascend, so no name occurs twice.
pub open spec fn names_ascending(m: IndexModel) -> bool {
    forall|i: int, j: int| 0 <= i < j < m.len() ==> lex_lt(#[trigger] m[i].0, #[trigger] m[j].0)
}

/// `m` with entry `e` added in name order; an entry of the same name is replaced.
pub open spec fn insert_entry(m: IndexModel, e: (Seq<char>, InfoModel)) -> IndexModel
    decreases m.len(),
{
    if m.len() == 0 {
        seq![e]
    } else if m[0].0 == e.0 {
        m.update(0, e)
    } else if lex_lt(e.0, m[0].0) {
        seq![e] + m
    } else {
        seq![m[0]] + insert_entry(m.drop_first(), e)
    }
}

/// The entries of `m` whose name contains `query`, in the order of `m`.
pub open spec fn matching(m: IndexModel, query: Seq<char>) -> IndexModel
    decreases m.len(),
{
    if m.len() == 0 {
        Seq::empty()
    } else if contains(m.last().0, query) {
        matching(m.drop_last(), query).push(m.last())
    } else {
        matching(m.drop_last(), query)
    }
}

/// The metadata recorded under `name`, if any.
pub open spec fn lookup(m: IndexModel, name: Seq<char>) -> Option<InfoModel> {
    if exists|i: int| 0 <= i < m.len() && m[i].0 == name {
        Some(m[choose|i: int| 0 <= i < m.len() && m[i].0 == name].1)
    } else {
        None
    }
}

/// The fields of one JSON object: each name, and the text of its value where that is a string.
pub type RawFields = Seq<(Seq<char>, Option<Seq<char>>)>;

/// A JSON object of objects: each outer name with the fields of its value.
pub type RawIndex = Seq<(Seq<char>, RawFields)>;

/// What serde_json reads from `text` as an object of objects, in the key order of a
/// `BTreeMap`; `None` where `text` is not such a document.
pub uninterp spec fn json_string_fields(text: Seq<char>) -> Option<RawIndex>;

/// The string value of field `key`; where the name occurs more than once, the last one counts.
pub open spec fn field(fields: RawFields, key: Seq<char>) -> Option<Seq<char>>
    decreases fields.len(),
{
    if fields.len() == 0 {
        None
    } else if fields.last().0 == key {
        fields.last().1
    } else {
        field(fields.drop_last(), key)
    }
}

/// The package record held by one object: all three fields must be strings.
pub open spec fn record(fields: RawFields) -> Option<InfoModel> {
    match (field(fields, "category"@), field(fields, "version"@), field(fields, "repo_url"@)) {
        (Some(c), Some(v), Some(u)) => Some(InfoModel { category: c, version: v, repo_url: u }),
        _ => None,
    }
}

/// The index that `raw` describes, or `None` if any of its records is malformed.
pub open spec fn records(raw: RawIndex) -> Option<IndexModel>
    decreases raw.len(),
{
    if raw.len() == 0 {
        Some(Seq::empty())
    } else {
        match (records(raw.drop_last()), record(raw.last().1)) {
            (Some(m), Some(info)) => Some(insert_entry(m, (raw.last().0, info))),
            _ => None,
        }
    }
}

/// The index that the JSON text `text` encodes, or `None` if it does not decode.
pub open spec fn decoded_index(text: Seq<char>) -> Option<IndexModel> {
    match json_string_fields(text) {
        Some(raw) => records(raw),
        None => None,
    }
}

/// The characters of an optional string.
pub open spec fn opt_view(o: Option<String>) -> Option<Seq<char>> {
    match o {
        Some(s) => Some(s@),
        None => None,
    }
}

/// The model of the fields of one object.
pub open spec fn fields_view(f: Vec<(String, Option<String>)>) -> RawFields {
    f@.map_values(|p: (String, Option<String>)| (p.0@, opt_view(p.1)))
}

/// The model of the objects of a payload.
pub open spec fn raw_view(v: Vec<(String, Vec<(String, Option<String>)>)>) -> RawIndex {
    v@.map_values(|p: (String, Vec<(String, Option<String>)>)| (p.0@, fields_view(p.1)))
}

#[verifier::external_type_specification]
#[verifier::external_body]
pub struct ExJsonError(serde_json::Error);

/// Relies on serde_json::from_str reading `text` into ordered maps
/// (`BTreeMap<String, BTreeMap<String, Value>>`); each inner value is kept as its
/// text when it is a JSON string (`Value::as_str`). It fails exactly when `text` is
/// not a JSON object whose values are all objects.
#[verifier::external_body]
fn parse_json_objects(text: &str) -> (r: Result<Vec<(String, Vec<(String, Option<String>)>)>, serde_json::Error>)
    ensures
        match r {
            Ok(v) => json_string_fields(text@) == Some(raw_view(v)),
            Err(_) => json_string_fields(text@) is None,
        },
{
    serde_json::from_str::<BTreeMap<String, BTreeMap<String, serde_json::Value>>>(text).map(|m| {
        m.into_iter().map(|(name, fields)| {
            (name, fields.into_iter().map(|(k, v)| (k, v.as_str().map(String::from))).collect())
        }).collect()
    })
}

/// The model of a sequence of (name, metadata) entries.
pub open spec fn entries_view(v: Seq<(String, PackageInfo)>) -> IndexModel {
    v.map_values(|e: (String, PackageInfo)| (e.0@, e.1@))
}

/// Inserting `e` where the names stop being smaller than its own name is
/// `insert_entry`, and keeps the names ascending.
proof fn lemma_insert_at(m: IndexModel, e: (Seq<char>, InfoModel), p: int)
    requires
        names_ascending(m),
        0 <= p <= m.len(),
        forall|j: int| 0 <= j < p ==> lex_lt(#[trigger] m[j].0, e.0),
        p < m.len() ==> !lex_lt(m[p].0, e.0),
    ensures
        p < m.len() && m[p].0 == e.0 ==> insert_entry(m, e) == m.update(p, e),
        !(p < m.len() && m[p].0 == e.0) ==> insert_entry(m, e) == m.insert(p, e),
        names_ascending(insert_entry(m, e)),
    decreases m.len(),
{
    if p == 0 {
        if m.len() == 0 {
            assert(seq![e] =~= m.insert(0, e));
        } else if m[0].0 == e.0 {
            assert forall|i: int, j: int| 0 <= i < j < m.len() implies lex_lt(
                #[trigger] m.update(0, e)[i].0,
                #[trigger] m.update(0, e)[j].0,
            ) by {
                assert(lex_lt(m[i].0, m[j].0));
            }
        } else {
            lemma_lex_total(m[0].0, e.0);
            assert(seq![e] + m =~= m.insert(0, e));
            let r = m.insert(0, e);
            assert forall|i: int, j: int| 0 <= i < j < r.len() implies lex_lt(
                #[trigger] r[i].0,
                #[trigger] r[j].0,
            ) by {
                if i == 0 {
                    if j > 1 {
                        assert(lex_lt(m[0].0, m[j - 1].0));
                        lemma_lex_transitive(e.0, m[0].0, m[j - 1].0);
                    }
                } else {
                    assert(lex_lt(m[i - 1].0, m[j - 1].0));
                }
            }
        }
    } else {
        let t = m.drop_first();
        assert(lex_lt(m[0].0, e.0));
        lemma_lex_irreflexive(e.0);
        lemma_lex_asymmetric(m[0].0, e.0);
        assert forall|i: int, j: int| 0 <= i < j < t.len() implies lex_lt(
            #[trigger] t[i].0,
            #[trigger] t[j].0,
        ) by {
            assert(lex_lt(m[i + 1].0, m[j + 1].0));
        }
        assert forall|j: int| 0 <= j < p - 1 implies lex_lt(#[trigger] t[j].0, e.0) by {
            assert(lex_lt(m[j + 1].0, e.0));
        }
        lemma_insert_at(t, e, p - 1);
        let r = insert_entry(m, e);
        assert(r == seq![m[0]] + insert_entry(t, e));
        if p < m.len() && m[p].0 == e.0 {
            assert(r =~= m.update(p, e));
        } else {
            assert(r =~= m.insert(p, e));
        }
        assert forall|i: int, j: int| 0 <= i < j < r.len() implies lex_lt(
            #[trigger] r[i].0,
            #[trigger] r[j].0,
        ) by {
            if i == 0 {
                if j < p {
                    assert(lex_lt(m[0].0, m[j].0));
                } else if j == p {
                    assert(r[j] == e || r[j] == m[p]);
                    if r[j] == m[p] {
                        assert(lex_lt(m[0].0, m[p].0));
                    }
                } else {
                    if r.len() == m.len() {
                        assert(lex_lt(m[0].0, m[j].0));
                    } else {
                        assert(lex_lt(m[0].0, m[j - 1].0));
                    }
                }
            } else {
                assert(r[i] == insert_entry(t, e)[i - 1]);
                assert(r[j] == insert_entry(t, e)[j - 1]);
            }
        }
    }
}

/// Adds `info` under `name` in name order, replacing an entry of that name.
fn insert_sorted(entries: &mut Vec<(String, PackageInfo)>, name: String, info: PackageInfo)
    requires
        names_ascending(entries_view(old(entries)@)),
    ensures
        entries_view(final(entries)@) == insert_entry(entries_view(old(entries)@), (name@, info@)),
        names_ascending(entries_view(final(entries)@)),
{
    let key = chars_of(name.as_str());
    let n: usize = entries.len();
    let mut p: usize = 0;
    let mut stop = false;
    while p < n && !stop
        invariant
            n == entries@.len(),
            p <= n,
            stop ==> p < n && !lex_lt(entries_view(entries@)[p as int].0, name@),
            key@ == name@,
            forall|j: int| 0 <= j < p ==> lex_lt(#[trigger] entries_view(entries@)[j].0, name@),
        decreases n - p + (if stop { 0int } else { 1int }),
    {
        let here = chars_of(entries[p].0.as_str());
        assert(entries_view(entries@)[p as int].0 == here@);
        if less_chars(&here, &key) {
            p = p + 1;
        } else {
            stop = true;
        }
    }
    proof {
        lemma_insert_at(entries_view(entries@), (name@, info@), p as int);
    }
    let same = p < n && entries[p].0 == name;
    let ghost before = entries_view(entries@);
    if same {
        entries.set(p, (name, info));
        assert(entries_view(entries@) =~= before.update(p as int, (name@, info@)));
    } else {
        entries.insert(p, (name, info));
        assert(entries_view(entries@) =~= before.insert(p as int, (name@, info@)));
    }
}

/// The string value of field `key` of one object.
fn field_value(fields: &Vec<(String, Option<String>)>, key: &String) -> (r: Option<String>)
    ensures
        opt_view(r) == field(fields_view(*fields), key@),
{
    let ghost fv = fields_view(*fields);
    let mut i: usize = fields.len();
    assert(fv.subrange(0, i as int) =~= fv);
    while i > 0
        invariant
            i <= fields@.len(),
            fv == fields_view(*fields),
            field(fv, key@) == field(fv.subrange(0, i as int), key@),
        decreases i,
    {
        i = i - 1;
        let ghost pre = fv.subrange(0, i as int + 1);
        assert(pre.drop_last() =~= fv.subrange(0, i as int));
        assert(pre.last() == fv[i as int]);
        if fields[i].0 == *key {
            return match &fields[i].1 {
                Some(v) => Some(v.clone()),
                None => None,
            };
        }
    }
    None
}

/// Once a prefix of the records is malformed, so is the whole.
proof fn lemma_records_prefix_none(raw: RawIndex, k: int)
    requires
        0 <= k <= raw.len(),
        records(raw.subrange(0, k)) is None,
    ensures
        records(raw) is None,
    decreases raw.len() - k,
{
    if k < raw.len() {
        let pre = raw.subrange(0, k + 1);
        assert(pre.drop_last() =~= raw.subrange(0, k));
        lemma_records_prefix_none(raw, k + 1);
    } else {
        assert(raw.subrange(0, k) =~= raw);
    }
}

/// The model of search results.
pub open spec fn found_view(v: Seq<(&String, &PackageInfo)>) -> IndexModel {
    v.map_values(|e: (&String, &PackageInfo)| (e.0@, e.1@))
}

/// Each entry of `matching(m, query)` is an entry of `m`, and the names still ascend.
pub proof fn lemma_matching_ascending(m: IndexModel, query: Seq<char>)
    requires
        names_ascending(m),
    ensures
        names_ascending(matching(m, query)),
        forall|k: int| 0 <= k < matching(m, query).len() ==> exists|i: int|
            0 <= i < m.len() && #[trigger] matching(m, query)[k] == m[i],
    decreases m.len(),
{
    if m.len() > 0 {
        let t = m.drop_last();
        assert forall|i: int, j: int| 0 <= i < j < t.len() implies lex_lt(
            #[trigger] t[i].0,
            #[trigger] t[j].0,
        ) by {
            assert(lex_lt(m[i].0, m[j].0));
        }
        lemma_matching_ascending(t, query);
        let mt = matching(t, query);
        if contains(m.last().0, query) {
            let r = mt.push(m.last());
            assert forall|k: int| 0 <= k < r.len() implies exists|i: int|
                0 <= i < m.len() && #[trigger] r[k] == m[i] by {
                if k < mt.len() {
                    let i = choose|i: int| 0 <= i < t.len() && mt[k] == t[i];
                    assert(r[k] == m[i]);
                } else {
                    assert(r[k] == m[m.len() - 1]);
                }
            }
            assert forall|a: int, b: int| 0 <= a < b < r.len() implies lex_lt(
                #[trigger] r[a].0,
                #[trigger] r[b].0,
            ) by {
                if b < mt.len() {
                    assert(lex_lt(mt[a].0, mt[b].0));
                } else {
                    let i = choose|i: int| 0 <= i < t.len() && mt[a] == t[i];
                    assert(lex_lt(m[i].0, m[m.len() - 1].0));
                }
            }
        } else {
            assert forall|k: int| 0 <= k < mt.len() implies exists|i: int|
                0 <= i < m.len() && #[trigger] mt[k] == m[i] by {
                let i = choose|i: int| 0 <= i < t.len() && mt[k] == t[i];
                assert(mt[k] == m[i]);
            }
        }
    }
}

/// Why an index text did not decode.
#[derive(Debug, Clone, Copy, PartialEq, Eq, Structural)]
pub enum DecodeError {
    /// The text is not a JSON object whose values are all objects.
    NotJson,
    /// Some package lacks `category`, `version` or `repo_url` as a string.
    BadRecord,
}

/// A decoded package index: each name once, in ascending order.
pub struct Index {
    entries: Vec<(String, PackageInfo)>,
}

impl View for Index {
    type V = IndexModel;

    closed spec fn view(&self) -> IndexModel {
        entries_view(self.entries@)
    }
}

impl Index {
    #[verifier::type_invariant]
    spec fn inv(self) -> bool {
        names_ascending(self@)
    }

    /// An index with no packages.
    pub fn empty() -> (r: Index)
        ensures
            r@ == Seq::<(Seq<char>, InfoModel)>::empty(),
    {
        let r = Index { entries: Vec::new() };
        assert(r@ =~= Seq::<(Seq<char>, InfoModel)>::empty());
        r
    }

    /// Decodes an index payload: a JSON object from package name to an object with
    /// string fields `category`, `version` and `repo_url`. Nothing of a malformed
    /// payload is kept.
    pub fn decode(text: &str) -> (r: Result<Index, DecodeError>)
        ensures
            match r {
                Ok(idx) => decoded_index(text@) == Some(idx@) && names_ascending(idx@),
                Err(DecodeError::NotJson) => json_string_fields(text@) is None,
                Err(DecodeError::BadRecord) => json_string_fields(text@) is Some
                    && decoded_index(text@) is None,
            },
    {
        match parse_json_objects(text) {
            Ok(raw) => Index::from_objects(&raw),
            Err(_) => Err(DecodeError::NotJson),
        }
    }

    /// Builds an index from the objects of a payload, each package name with the
    /// fields of its object (a field's text where its value is a string).
    pub fn from_objects(raw: &Vec<(String, Vec<(String, Option<String>)>)>) -> (r: Result<Index, DecodeError>)
        ensures
            match r {
                Ok(idx) => records(raw_view(*raw)) == Some(idx@) && names_ascending(idx@),
                Err(e) => e == DecodeError::BadRecord && records(raw_view(*raw)) is None,
            },
    {
        let ghost rv = raw_view(*raw);
        let category = String::from_str("category");
        let version = String::from_str("version");
        let repo_url = String::from_str("repo_url");
        let mut entries: Vec<(String, PackageInfo)> = Vec::new();
        let mut i: usize = 0;
        assert(rv.subrange(0, 0) =~= Seq::<(Seq<char>, RawFields)>::empty());
        assert(entries_view(entries@) =~= Seq::<(Seq<char>, InfoModel)>::empty());
        while i < raw.len()
            invariant
                rv == raw_view(*raw),
                i <= raw@.len(),
                category@ == "category"@,
                version@ == "version"@,
                repo_url@ == "repo_url"@,
                records(rv.subrange(0, i as int)) == Some(entries_view(entries@)),
                names_ascending(entries_view(entries@)),
            decreases raw@.len() - i,
        {
            let ghost pre = rv.subrange(0, i as int + 1);
            assert(pre.drop_last() =~= rv.subrange(0, i as int));
            assert(pre.last() == rv[i as int]);
            let fields = &raw[i].1;
            assert(rv[i as int].1 == fields_view(*fields));
            let c = field_value(fields, &category);
            let v = field_value(fields, &version);
            let u = field_value(fields, &repo_url);
            let ghost rec = record(rv[i as int].1);
            assert(rec is Some <==> (c is Some && v is Some && u is Some));
            match (c, v, u) {
                (Some(c), Some(v), Some(u)) => {
                    let info = PackageInfo { category: c, version: v, repo_url: u };
                    insert_sorted(&mut entries, raw[i].0.clone(), info);
                },
                _ => {
                    proof {
                        assert(records(pre) is None);
                        lemma_records_prefix_none(rv, i as int + 1);
                    }
                    return Err(DecodeError::BadRecord);
                },
            }
            i = i + 1;
        }
        assert(rv.subrange(0, i as int) =~= rv);
        Ok(Index { entries })
    }

    /// The packages whose name contains `query`, in ascending name order; an empty
    /// query matches every package.
    pub fn search(&self, query: &str) -> (r: Vec<(&String, &PackageInfo)>)
        ensures
            found_view(r@) == matching(self@, query@),
            names_ascending(found_view(r@)),
    {
        proof {
            use_type_invariant(self);
            lemma_matching_ascending(self@, query@);
        }
        let q = chars_of(query);
        let mut r: Vec<(&String, &PackageInfo)> = Vec::new();
        let mut i: usize = 0;
        assert(self@.subrange(0, 0) =~= Seq::<(Seq<char>, InfoModel)>::empty());
        assert(found_view(r@) =~= Seq::<(Seq<char>, InfoModel)>::empty());
        while i < self.entries.len()
            invariant
                i <= self@.len(),
                self@.len() == self.entries@.len(),
                q@ == query@,
                found_view(r@) == matching(self@.subrange(0, i as int), query@),
            decreases self@.len() - i,
        {
            let ghost pre = self@.subrange(0, i as int + 1);
            assert(pre.drop_last() =~= self@.subrange(0, i as int));
            assert(pre.last() == self@[i as int]);
            let e = &self.entries[i];
            let name = chars_of(e.0.as_str());
            if contains_chars(&name, &q) {
                let ghost before = r@;
                r.push((&e.0, &e.1));
                assert(found_view(r@) =~= found_view(before).push(self@[i as int]));
            }
            i = i + 1;
        }
        assert(self@.subrange(0, i as int) =~= self@);
        r
    }

    /// The metadata of the package named exactly `package`.
    pub fn get(&self, package: &str) -> (r: Option<&PackageInfo>)
        ensures
            match r {
                Some(info) => lookup(self@, package@) == Some(info@),
                None => lookup(self@, package@) is None,
            },
    {
        proof {
            use_type_invariant(self);
        }
        let key = String::from_str(package);
        let mut i: usize = 0;
        while i < self.entries.len()
            invariant
                i <= self@.len(),
                self@.len() == self.entries@.len(),
                key@ == package@,
                names_ascending(self@),
                forall|j: int| 0 <= j < i ==> self@[j].0 != package@,
            decreases self@.len() - i,
        {
            if self.entries[i].0 == key {
                proof {
                    let m = self@;
                    assert(m[i as int].0 == package@);
                    let c = choose|j: int| 0 <= j < m.len() && m[j].0 == package@;
                    if c != i {
                        if c < i {
                            assert(lex_lt(m[c].0, m[i as int].0));
                        } else {
                            assert(lex_lt(m[i as int].0, m[c].0));
                        }
                        lemma_lex_irreflexive(package@);
                    }
                }
                return Some(&self.entries[i].1);
            }
            i = i + 1;
        }
        None
    }
}

} // verus!
