//! The on-disk document cache: where each entry lives, and which identities a
//! listing of the documents directory holds.
//!
//! Reading and writing the files is left to the caller; the library decides
//! every path and reads back the identities from file names.
use vstd::prelude::*;

use crate::error::RfcError;
use crate::model::{
    canonical_name, extension_of, lemma_parse_canonical_name, parse_name, well_formed, DocumentId,
    DocumentType, Format,
};

verus! {

/// The name of the directory under the cache root that holds the documents.
pub open spec fn documents_dir_of(root: Seq<char>) -> Seq<char> {
    root + "/documents"@
}

/// The file name of the entry for a document in a representation.
pub open spec fn entry_name(d: DocumentId, f: Format) -> Seq<char> {
    canonical_name(d) + seq!['.'] + extension_of(f)
}

/// The path of the entry for a document in a representation.
pub open spec fn entry_path(root: Seq<char>, d: DocumentId, f: Format) -> Seq<char> {
    documents_dir_of(root) + seq!['/'] + entry_name(d, f)
}

/// The position of the last `.` in `s`, or -1 when there is none.
pub open spec fn last_dot(s: Seq<char>) -> int
    decreases s.len(),
{
    if s.len() == 0 {
        -1
    } else if s.last() == '.' {
        s.len() - 1
    } else {
        last_dot(s.drop_last())
    }
}

/// A file name without its extension: what precedes the last `.`, unless
/// that `.` comes first or there is none, in which case the whole name.
pub open spec fn file_stem(s: Seq<char>) -> Seq<char> {
    if last_dot(s) > 0 {
        s.take(last_dot(s))
    } else {
        s
    }
}

/// The identities that a listing of file names holds: those whose stem parses.
pub open spec fn listed_ids(names: Seq<Seq<char>>) -> Set<DocumentId> {
    Set::new(
        |d: DocumentId|
            exists|i: int| 0 <= i < names.len() && parse_name(file_stem(names[i])) == Some(d),
    )
}

pub open spec fn ids_of(v: Seq<DocumentType>) -> Seq<DocumentId> {
    v.map_values(|d: DocumentType| d@)
}

pub open spec fn names_of(v: Seq<String>) -> Seq<Seq<char>> {
    v.map_values(|s: String| s@)
}

proof fn lemma_last_dot_after(a: Seq<char>, b: Seq<char>)
    requires
        forall|i: int| 0 <= i < b.len() ==> b[i] != '.',
    ensures
        last_dot(a + seq!['.'] + b) == a.len(),
    decreases b.len(),
{
    let s = a + seq!['.'] + b;
    if b.len() == 0 {
        assert(s.last() == '.');
    } else {
        assert(s.last() == b.last());
        lemma_last_dot_after(a, b.drop_last());
        assert(s.drop_last() == a + seq!['.'] + b.drop_last());
    }
}

/// The stem of an entry's file name is the document's canonical name.
pub proof fn lemma_entry_stem(d: DocumentId, f: Format)
    requires
        well_formed(d),
    ensures
        file_stem(entry_name(d, f)) == canonical_name(d),
{
    let n = canonical_name(d);
    lemma_parse_canonical_name(d);
    lemma_last_dot_after(n, extension_of(f));
    assert(entry_name(d, f).take(n.len() as int) == n);
}

/// Distinct documents or representations never share a cache entry, so
/// storing one entry never overwrites another.
pub proof fn lemma_entries_distinct(d1: DocumentId, f1: Format, d2: DocumentId, f2: Format)
    requires
        well_formed(d1),
        well_formed(d2),
        d1 != d2 || f1 != f2,
    ensures
        entry_name(d1, f1) != entry_name(d2, f2),
{
    if entry_name(d1, f1) == entry_name(d2, f2) {
        lemma_entry_stem(d1, f1);
        lemma_entry_stem(d2, f2);
        lemma_parse_canonical_name(d1);
        lemma_parse_canonical_name(d2);
        let k = canonical_name(d1).len() + 1int;
        assert(entry_name(d1, f1).skip(k) == extension_of(f1));
        assert(entry_name(d2, f2).skip(k) == extension_of(f2));
    }
}

/// Listing a documents directory whose entries were all stored for
/// well-formed identities yields exactly those identities.
pub proof fn lemma_listing_of_entries(entries: Seq<(DocumentId, Format)>)
    requires
        forall|i: int| 0 <= i < entries.len() ==> well_formed(#[trigger] entries[i].0),
    ensures
        listed_ids(entries.map_values(|e: (DocumentId, Format)| entry_name(e.0, e.1)))
            == entries.map_values(|e: (DocumentId, Format)| e.0).to_set(),
{
    let names = entries.map_values(|e: (DocumentId, Format)| entry_name(e.0, e.1));
    let docs = entries.map_values(|e: (DocumentId, Format)| e.0);
    assert forall|d: DocumentId| listed_ids(names).contains(d) implies docs.to_set().contains(d) by {
        let i = choose|i: int| 0 <= i < names.len() && parse_name(file_stem(names[i])) == Some(d);
        lemma_entry_stem(entries[i].0, entries[i].1);
        lemma_parse_canonical_name(entries[i].0);
        assert(docs[i] == d);
    }
    assert forall|d: DocumentId| docs.to_set().contains(d) implies listed_ids(names).contains(d) by {
        let i = choose|i: int| 0 <= i < docs.len() && docs[i] == d;
        lemma_entry_stem(entries[i].0, entries[i].1);
        lemma_parse_canonical_name(entries[i].0);
        assert(parse_name(file_stem(names[i])) == Some(d));
    }
    assert(listed_ids(names) =~= docs.to_set());
}

/// Manages the local document cache rooted at one directory.
pub struct CacheManager {
    cache_dir: String,
}

impl View for CacheManager {
    type V = Seq<char>;

    closed spec fn view(&self) -> Seq<char> {
        self.cache_dir@
    }
}

fn stem(name: &str) -> (r: &str)
    ensures
        r@ == file_stem(name@),
{
    let ghost s = name@;
    let len = name.unicode_len();
    let mut k: usize = len;
    assert(s.take(len as int) == s);
    while k > 0
        invariant
            k <= len,
            len == s.len(),
            s == name@,
            last_dot(s) == last_dot(s.take(k as int)),
        decreases k,
    {
        assert(s.take(k as int).drop_last() == s.take(k - 1));
        if name.get_char(k - 1) == '.' {
            if k - 1 > 0 {
                return name.substring_char(0, k - 1);
            } else {
                return name;
            }
        }
        k = k - 1;
    }
    assert(s.take(0) =~= Seq::<char>::empty());
    name
}

impl CacheManager {
    /// A cache rooted at `cache_dir`; the caller makes sure the directory exists.
    pub fn with_dir(cache_dir: String) -> (r: CacheManager)
        ensures
            r@ == cache_dir@,
    {
        CacheManager { cache_dir }
    }

    /// The default cache root, from the platform's cache directory for the
    /// application or, failing that, the home directory.
    pub fn default_cache_dir(platform_dir: Option<String>, home: Option<String>) -> (r: Result<
        String,
        RfcError,
    >)
        ensures
            match platform_dir {
                Some(p) => (r matches Ok(dir) && dir@ == p@),
                None => match home {
                    Some(h) => (r matches Ok(dir) && dir@ == h@ + "/.cache/rfc"@),
                    None => (r matches Err(e) && e is Config),
                },
            },
    {
        match platform_dir {
            Some(p) => Ok(p),
            None => match home {
                Some(h) => {
                    let mut dir = h;
                    dir.append("/.cache/rfc");
                    Ok(dir)
                },
                None => Err(RfcError::Config(String::from_str("HOME not set"))),
            },
        }
    }

    /// The cache root.
    pub fn cache_dir(&self) -> (r: &str)
        ensures
            r@ == self@,
    {
        self.cache_dir.as_str()
    }

    /// The directory that holds the cached documents.
    pub fn documents_dir(&self) -> (r: String)
        ensures
            r@ == documents_dir_of(self@),
    {
        let mut dir = self.cache_dir.clone();
        dir.append("/documents");
        dir
    }

    /// The path of the cached entry for a document in a representation.
    pub fn document_path(&self, doc: &DocumentType, format: Format) -> (r: String)
        ensures
            r@ == entry_path(self@, doc@, format),
    {
        let mut path = self.documents_dir();
        path.append("/");
        let name = doc.name();
        path.append(name.as_str());
        path.append(".");
        path.append(format.extension());
        proof {
            reveal_strlit("/");
            reveal_strlit(".");
        }
        path
    }

    /// The distinct identities held by a listing of the documents directory;
    /// names whose stem does not parse are skipped.
    pub fn list_cached(&self, file_names: &Vec<String>) -> (r: Vec<DocumentType>)
        ensures
            ids_of(r@).no_duplicates(),
            ids_of(r@).to_set() == listed_ids(names_of(file_names@)),
    {
        let ghost names = names_of(file_names@);
        let mut documents: Vec<DocumentType> = Vec::new();
        let mut i: usize = 0;
        while i < file_names.len()
            invariant
                i <= file_names.len(),
                names == names_of(file_names@),
                ids_of(documents@).no_duplicates(),
                ids_of(documents@).to_set() == listed_ids(names.take(i as int)),
            decreases file_names.len() - i,
        {
            let ghost before = ids_of(documents@);
            let name = file_names[i].as_str();
            let parsed = DocumentType::parse(stem(name));
            let ghost found: Option<DocumentId> = if parsed is Some {
                Some(parsed->0@)
            } else {
                None
            };
            assert(names[i as int] == name@);
            assert(found == parse_name(file_stem(names[i as int])));
            if let Some(doc) = parsed {
                let mut seen = false;
                let mut j: usize = 0;
                while j < documents.len()
                    invariant
                        j <= documents.len(),
                        before == ids_of(documents@),
                        seen <==> exists|k: int| 0 <= k < j && before[k] == doc@,
                    decreases documents.len() - j,
                {
                    assert(before[j as int] == documents@[j as int]@);
                    if documents[j] == doc {
                        seen = true;
                    }
                    j = j + 1;
                }
                let ghost id = doc@;
                if !seen {
                    documents.push(doc);
                    assert(ids_of(documents@) == before.push(id));
                    proof {
                        before.lemma_push_to_set_commute(id);
                    }
                    assert(ids_of(documents@).to_set() == before.to_set().insert(id));
                } else {
                    proof {
                        let k = choose|k: int| 0 <= k < j && before[k] == id;
                        assert(before.to_set().contains(id));
                        assert(before.to_set().insert(id) =~= before.to_set());
                    }
                }
                assert(ids_of(documents@).to_set() == before.to_set().insert(id));
            }
            proof {
                let next = names.take(i + 1);
                assert(next.take(i as int) == names.take(i as int));
                assert forall|d: DocumentId| listed_ids(next).contains(d) <==> (
                listed_ids(names.take(i as int)).contains(d) || parse_name(file_stem(names[i as int]))
                    == Some(d)) by {
                    if listed_ids(next).contains(d) {
                        let k = choose|k: int|
                            0 <= k < next.len() && parse_name(file_stem(next[k])) == Some(d);
                        if k < i {
                            assert(names.take(i as int)[k] == next[k]);
                        }
                    }
                    if listed_ids(names.take(i as int)).contains(d) {
                        let k = choose|k: int|
                            0 <= k < i && parse_name(file_stem(names.take(i as int)[k])) == Some(d);
                        assert(next[k] == names.take(i as int)[k]);
                    }
                    if parse_name(file_stem(names[i as int])) == Some(d) {
                        assert(next[i as int] == names[i as int]);
                    }
                }
                assert forall|d: DocumentId| ids_of(documents@).to_set().contains(d) <==> (
                before.to_set().contains(d) || found == Some(d)) by {}
                assert(ids_of(documents@).to_set() =~= listed_ids(next));
            }
            i = i + 1;
        }
        assert(names.take(file_names.len() as int) == names);
        documents
    }
}

} // verus!
