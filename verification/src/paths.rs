//! Canonical resource paths and their reverse reading.
//!
//! The path builder is the single source of truth for request paths; the
//! extraction functions recover ancestor identifiers from a path during
//! response hydration. Identifiers are expected to contain no `/`; under that
//! condition building and extracting are inverse to each other.

use vstd::prelude::*;
use vstd::string::*;

verus! {

/// The path listing every bucket.
pub open spec fn buckets_path() -> Seq<char> {
    "/buckets"@
}

/// The path of one bucket.
pub open spec fn bucket_path(b: Seq<char>) -> Seq<char> {
    "/buckets/"@ + b
}

/// The path listing the collections of a bucket.
pub open spec fn collections_path(b: Seq<char>) -> Seq<char> {
    bucket_path(b) + "/collections"@
}

/// The path of one collection.
pub open spec fn collection_path(b: Seq<char>, c: Seq<char>) -> Seq<char> {
    bucket_path(b) + "/collections/"@ + c
}

/// The path listing the records of a collection.
pub open spec fn records_path(b: Seq<char>, c: Seq<char>) -> Seq<char> {
    collection_path(b, c) + "/records"@
}

/// The path of one record.
pub open spec fn record_path(b: Seq<char>, c: Seq<char>, r: Seq<char>) -> Seq<char> {
    collection_path(b, c) + "/records/"@ + r
}

/// An identifier that contains no path separator.
pub open spec fn slash_free(s: Seq<char>) -> bool {
    forall|i: int| 0 <= i < s.len() ==> s[i] != '/'
}

/// A singular path directly below a plural one: `parent` plus `/` plus one
/// identifier.
pub open spec fn child_path(parent: Seq<char>, id: Seq<char>) -> Seq<char> {
    parent + "/"@ + id
}

/// Whether `key` lies directly below `parent`.
pub open spec fn is_direct_child(key: Seq<char>, parent: Seq<char>) -> bool {
    &&& key.len() > parent.len()
    &&& key.subrange(0, parent.len() as int) == parent
    &&& key[parent.len() as int] == '/'
    &&& slash_free(key.subrange(parent.len() + 1 as int, key.len() as int))
}

/// The identifier of a direct child, everything after `parent` and its `/`.
pub open spec fn child_id(key: Seq<char>, parent: Seq<char>) -> Seq<char> {
    key.subrange(parent.len() + 1 as int, key.len() as int)
}

/// A child path is a direct child of its parent and carries its identifier.
pub broadcast proof fn lemma_child_path_direct(parent: Seq<char>, id: Seq<char>)
    requires
        slash_free(id),
    ensures
        #[trigger] is_direct_child(child_path(parent, id), parent),
        child_id(child_path(parent, id), parent) == id,
{
    reveal_strlit("/");
    let key = child_path(parent, id);
    assert(key.subrange(0, parent.len() as int) =~= parent);
    assert(key.subrange(parent.len() + 1 as int, key.len() as int) =~= id);
}

/// A direct child is exactly the child path of its identifier.
pub broadcast proof fn lemma_direct_child_path(key: Seq<char>, parent: Seq<char>)
    requires
        #[trigger] is_direct_child(key, parent),
    ensures
        key == child_path(parent, child_id(key, parent)),
        slash_free(child_id(key, parent)),
{
    reveal_strlit("/");
    assert(key =~= child_path(parent, child_id(key, parent)));
}

/// Stepping from a plural path to one of its members gives the canonical
/// singular path.
pub proof fn lemma_child_of_buckets(b: Seq<char>)
    ensures
        child_path(buckets_path(), b) == bucket_path(b),
{
    reveal_strlit("/buckets");
    reveal_strlit("/buckets/");
    reveal_strlit("/");
    assert(child_path(buckets_path(), b) =~= bucket_path(b));
}

/// As [`lemma_child_of_buckets`], for the collections of a bucket.
pub proof fn lemma_child_of_collections(b: Seq<char>, c: Seq<char>)
    ensures
        child_path(collections_path(b), c) == collection_path(b, c),
{
    reveal_strlit("/collections");
    reveal_strlit("/collections/");
    reveal_strlit("/");
    assert(child_path(collections_path(b), c) =~= collection_path(b, c));
}

/// As [`lemma_child_of_buckets`], for the records of a collection.
pub proof fn lemma_child_of_records(b: Seq<char>, c: Seq<char>, r: Seq<char>)
    ensures
        child_path(records_path(b, c), r) == record_path(b, c, r),
{
    reveal_strlit("/records");
    reveal_strlit("/records/");
    reveal_strlit("/");
    assert(child_path(records_path(b, c), r) =~= record_path(b, c, r));
}

/// The index of the first `/` at or after `i`, or the end of `s`.
pub open spec fn seg_end(s: Seq<char>, i: int) -> int
    recommends
        0 <= i <= s.len(),
    decreases s.len() - i,
        when i <= s.len()
{
    if i >= s.len() {
        s.len() as int
    } else if s[i] == '/' {
        i
    } else {
        seg_end(s, i + 1)
    }
}

/// `seg_end` is the unique position that closes a run of non-`/` characters.
pub proof fn lemma_seg_end_is(s: Seq<char>, i: int, k: int)
    requires
        0 <= i <= k <= s.len(),
        forall|j: int| i <= j < k ==> s[j] != '/',
        k == s.len() || s[k] == '/',
    ensures
        seg_end(s, i) == k,
    decreases k - i,
{
    if i < k {
        lemma_seg_end_is(s, i + 1, k);
    }
}

/// What always holds of `seg_end`.
pub proof fn lemma_seg_end_bounds(s: Seq<char>, i: int)
    requires
        0 <= i <= s.len(),
    ensures
        i <= seg_end(s, i) <= s.len(),
        forall|j: int| i <= j < seg_end(s, i) ==> s[j] != '/',
        seg_end(s, i) < s.len() ==> s[seg_end(s, i)] == '/',
    decreases s.len() - i,
{
    if i < s.len() && s[i] != '/' {
        lemma_seg_end_bounds(s, i + 1);
    }
}

/// One path per resource kind and per list endpoint, mirroring the server's
/// URL layout.
pub enum Paths<'a> {
    Buckets,
    Bucket(&'a str),
    Collections(&'a str),
    Collection(&'a str, &'a str),
    Records(&'a str, &'a str),
    Record(&'a str, &'a str, &'a str),
}

impl<'a> Paths<'a> {
    /// The character sequence this variant denotes.
    pub open spec fn spec_path(self) -> Seq<char> {
        match self {
            Paths::Buckets => buckets_path(),
            Paths::Bucket(b) => bucket_path(b@),
            Paths::Collections(b) => collections_path(b@),
            Paths::Collection(b, c) => collection_path(b@, c@),
            Paths::Records(b, c) => records_path(b@, c@),
            Paths::Record(b, c, r) => record_path(b@, c@, r@),
        }
    }

    /// Builds the canonical path string.
    pub fn build(&self) -> (s: String)
        ensures
            s@ == self.spec_path(),
    {
        match self {
            Paths::Buckets => String::from_str("/buckets"),
            Paths::Bucket(b) => String::from_str("/buckets/").concat(b),
            Paths::Collections(b) => String::from_str("/buckets/").concat(b).concat(
                "/collections",
            ),
            Paths::Collection(b, c) => String::from_str("/buckets/").concat(b).concat(
                "/collections/",
            ).concat(c),
            Paths::Records(b, c) => String::from_str("/buckets/").concat(b).concat(
                "/collections/",
            ).concat(c).concat("/records"),
            Paths::Record(b, c, r) => String::from_str("/buckets/").concat(b).concat(
                "/collections/",
            ).concat(c).concat("/records/").concat(r),
        }
    }
}

/// Joins a plural path and an identifier into the member's singular path.
pub fn join_path(parent: &str, id: &str) -> (s: String)
    ensures
        s@ == child_path(parent@, id@),
{
    String::from_str(parent).concat("/").concat(id)
}

/// Whether `path` continues with exactly the characters of `lit` at `at`.
pub(crate) fn starts_with_at(path: &str, lit: &str, at: usize) -> (r: bool)
    requires
        at <= path@.len(),
    ensures
        r == (at + lit@.len() <= path@.len() && (forall|i: int|
            0 <= i < lit@.len() ==> path@[at + i] == lit@[i])),
{
    let n = path.unicode_len();
    let l = lit.unicode_len();
    if l > n - at {
        return false;
    }
    let part = path.substring_char(at, at + l);
    let r = crate::json::str_eq(part, lit);
    proof {
        if r {
            assert(forall|i: int| 0 <= i < lit@.len() ==> path@[at + i] == lit@[i]);
        } else {
            if forall|i: int| 0 <= i < lit@.len() ==> path@[at + i] == lit@[i] {
                assert(part@ =~= lit@);
            }
        }
    }
    r
}

/// Reads the identifier that starts at `start`: the characters up to the
/// next `/` or the end of the path.
pub(crate) fn read_segment(path: &str, start: usize) -> (r: (String, usize))
    requires
        start <= path@.len(),
    ensures
        r.1 == seg_end(path@, start as int),
        r.0@.len() == seg_end(path@, start as int) - start,
        forall|i: int| 0 <= i < r.0@.len() ==> r.0@[i] == path@[start + i],
{
    let n = path.unicode_len();
    let mut j: usize = start;
    while j < n && path.get_char(j) != '/'
        invariant
            start <= j <= n,
            n == path@.len(),
            forall|k: int| start <= k < j ==> path@[k] != '/',
        decreases n - j,
    {
        j += 1;
    }
    proof {
        lemma_seg_end_is(path@, start as int, j as int);
    }
    let seg = path.substring_char(start, j).to_owned();
    (seg, j)
}

/// Ancestor identifiers recovered from a request path.
pub struct PathIds {
    pub bucket: Option<String>,
    pub collection: Option<String>,
    pub record: Option<String>,
}

/// Whether an optional string holds exactly the given characters.
pub open spec fn opt_str_is(o: Option<String>, v: Option<Seq<char>>) -> bool {
    match o {
        Some(s) => v matches Some(t) && s@ =~= t,
        None => v is None,
    }
}

/// Whether `lit` occurs character for character at position `at` of `s`.
pub open spec fn starts_with_spec(s: Seq<char>, lit: Seq<char>, at: int) -> bool {
    at + lit.len() <= s.len() && (forall|i: int| 0 <= i < lit.len() ==> s[at + i] == lit[i])
}

/// The ancestor identifiers that the template scan reads from a path, at the
/// specification level; [`extract_ids_from_path`] computes exactly this.
pub struct PathIdsModel {
    pub bucket: Option<Seq<char>>,
    pub collection: Option<Seq<char>>,
    pub record: Option<Seq<char>>,
}

/// The template scan: bucket identifier after `/buckets/`, collection
/// identifier after `/collections/`, record identifier after `/records/`.
pub open spec fn spec_extract(s: Seq<char>) -> PathIdsModel {
    if !starts_with_spec(s, "/buckets/"@, 0) {
        PathIdsModel { bucket: None, collection: None, record: None }
    } else {
        let j = seg_end(s, 9);
        let b = Some(s.subrange(9, j));
        if j == s.len() || !starts_with_spec(s, "/collections/"@, j) {
            PathIdsModel { bucket: b, collection: None, record: None }
        } else {
            let j2 = seg_end(s, j + 13);
            let c = Some(s.subrange(j + 13, j2));
            if j2 == s.len() || !starts_with_spec(s, "/records/"@, j2) {
                PathIdsModel { bucket: b, collection: c, record: None }
            } else {
                let j3 = seg_end(s, j2 + 9);
                if j3 == s.len() {
                    PathIdsModel { bucket: b, collection: c, record: Some(s.subrange(j2 + 9, j3)) }
                } else {
                    PathIdsModel { bucket: b, collection: c, record: None }
                }
            }
        }
    }
}

/// Recovers the ancestor identifiers from a canonical path by matching it
/// against the path templates.
pub fn extract_ids_from_path(path: &str) -> (r: PathIds)
    ensures
        opt_str_is(r.bucket, spec_extract(path@).bucket),
        opt_str_is(r.collection, spec_extract(path@).collection),
        opt_str_is(r.record, spec_extract(path@).record),
{
    proof {
        reveal_strlit("/buckets/");
        reveal_strlit("/collections/");
        reveal_strlit("/records/");
    }
    let n = path.unicode_len();
    let mut ids = PathIds { bucket: None, collection: None, record: None };
    if !starts_with_at(path, "/buckets/", 0) {
        return ids;
    }
    let (b, j) = read_segment(path, 9);
    proof {
        lemma_seg_end_bounds(path@, 9);
    }
    ids.bucket = Some(b);
    if j == n {
        return ids;
    }
    if !starts_with_at(path, "/collections/", j) {
        return ids;
    }
    let (c, j2) = read_segment(path, j + 13);
    proof {
        lemma_seg_end_bounds(path@, j + 13);
    }
    ids.collection = Some(c);
    if j2 == n {
        return ids;
    }
    if !starts_with_at(path, "/records/", j2) {
        return ids;
    }
    let (rec, j3) = read_segment(path, j2 + 9);
    proof {
        lemma_seg_end_bounds(path@, j2 + 9);
    }
    if j3 == n {
        ids.record = Some(rec);
    }
    ids
}

/// The member identifier when `key` lies directly below `parent`.
pub fn child_id_of(key: &str, parent: &str) -> (r: Option<String>)
    ensures
        (match r {
            Some(id) => is_direct_child(key@, parent@) && id@ == child_id(key@, parent@),
            None => !is_direct_child(key@, parent@),
        }),
{
    let n = key.unicode_len();
    let p = parent.unicode_len();
    if n <= p {
        return None;
    }
    if !starts_with_at(key, parent, 0) {
        proof {
            if key@.subrange(0, parent@.len() as int) == parent@ {
                assert(forall|i: int|
                    0 <= i < parent@.len() ==> key@[0 + i] == key@.subrange(
                        0,
                        parent@.len() as int,
                    )[i]);
            }
        }
        return None;
    }
    if key.get_char(p) != '/' {
        proof {
            assert(key@.subrange(0, parent@.len() as int) =~= parent@);
        }
        return None;
    }
    let (id, end) = read_segment(key, p + 1);
    proof {
        lemma_seg_end_bounds(key@, p as int + 1);
        assert(key@.subrange(0, parent@.len() as int) =~= parent@);
    }
    if end != n {
        proof {
            let se = seg_end(key@, p as int + 1);
            let tail = key@.subrange(parent@.len() + 1 as int, key@.len() as int);
            assert(tail[se - (p + 1)] == key@[se]);
        }
        return None;
    }
    proof {
        assert(id@ =~= child_id(key@, parent@));
        assert(slash_free(child_id(key@, parent@)));
    }
    Some(id)
}

/// Whether `key` lies anywhere below `parent`.
pub fn is_below(key: &str, parent: &str) -> (r: bool)
    ensures
        r == is_descendant_path(key@, parent@),
{
    let n = key.unicode_len();
    let p = parent.unicode_len();
    if n <= p {
        return false;
    }
    if !starts_with_at(key, parent, 0) {
        proof {
            if key@.subrange(0, parent@.len() as int) == parent@ {
                assert(forall|i: int|
                    0 <= i < parent@.len() ==> key@[0 + i] == key@.subrange(
                        0,
                        parent@.len() as int,
                    )[i]);
            }
        }
        return false;
    }
    proof {
        assert(key@.subrange(0, parent@.len() as int) =~= parent@);
    }
    key.get_char(p) == '/'
}

/// Whether `key` lies anywhere below `parent`: `parent` plus `/` plus
/// anything.
pub open spec fn is_descendant_path(key: Seq<char>, parent: Seq<char>) -> bool {
    key.len() > parent.len() && key.subrange(0, parent.len() as int) == parent && key[parent.len() as int]
        == '/'
}

/// A direct child also lies below its parent.
pub broadcast proof fn lemma_direct_child_is_descendant(key: Seq<char>, parent: Seq<char>)
    ensures
        #[trigger] is_direct_child(key, parent) ==> is_descendant_path(key, parent),
{
}

/// The scan of the root list path finds no identifiers.
pub proof fn lemma_extract_buckets_path()
    ensures
        spec_extract(buckets_path()).bucket is None,
        spec_extract(buckets_path()).collection is None,
        spec_extract(buckets_path()).record is None,
{
    reveal_strlit("/buckets");
    reveal_strlit("/buckets/");
}

/// The scan of a bucket path recovers the bucket identifier.
pub proof fn lemma_extract_bucket_path(b: Seq<char>)
    requires
        slash_free(b),
    ensures
        spec_extract(bucket_path(b)).bucket == Some(b),
        spec_extract(bucket_path(b)).collection is None,
        spec_extract(bucket_path(b)).record is None,
{
    reveal_strlit("/buckets/");
    let s = bucket_path(b);
    lemma_seg_end_is(s, 9, s.len() as int);
    assert(s.subrange(9, s.len() as int) =~= b);
}

/// The scan of a collection list path recovers the bucket identifier.
pub proof fn lemma_extract_collections_path(b: Seq<char>)
    requires
        slash_free(b),
    ensures
        spec_extract(collections_path(b)).bucket == Some(b),
        spec_extract(collections_path(b)).collection is None,
        spec_extract(collections_path(b)).record is None,
{
    reveal_strlit("/buckets/");
    reveal_strlit("/collections");
    reveal_strlit("/collections/");
    let s = collections_path(b);
    let j: int = 9 + b.len() as int;
    assert(s[j] == '/');
    lemma_seg_end_is(s, 9, j);
    assert(s.subrange(9, j) =~= b);
}

/// The scan of a collection path recovers the bucket and the collection
/// identifiers.
pub proof fn lemma_extract_collection_path(b: Seq<char>, c: Seq<char>)
    requires
        slash_free(b),
        slash_free(c),
    ensures
        spec_extract(collection_path(b, c)).bucket == Some(b),
        spec_extract(collection_path(b, c)).collection == Some(c),
        spec_extract(collection_path(b, c)).record is None,
{
    reveal_strlit("/buckets/");
    reveal_strlit("/collections/");
    let s = collection_path(b, c);
    let j: int = 9 + b.len() as int;
    assert(s[j] == '/');
    lemma_seg_end_is(s, 9, j);
    assert(s.subrange(9, j) =~= b);
    assert(starts_with_spec(s, "/collections/"@, j));
    lemma_seg_end_is(s, j + 13, s.len() as int);
    assert(s.subrange(j + 13, s.len() as int) =~= c);
}

/// The scan of a record list path recovers the bucket and the collection
/// identifiers: the round trip behind response hydration.
pub proof fn lemma_extract_records_path(b: Seq<char>, c: Seq<char>)
    requires
        slash_free(b),
        slash_free(c),
    ensures
        spec_extract(records_path(b, c)).bucket == Some(b),
        spec_extract(records_path(b, c)).collection == Some(c),
        spec_extract(records_path(b, c)).record is None,
{
    reveal_strlit("/buckets/");
    reveal_strlit("/collections/");
    reveal_strlit("/records");
    reveal_strlit("/records/");
    let s = records_path(b, c);
    let j: int = 9 + b.len() as int;
    assert(s[j] == '/');
    lemma_seg_end_is(s, 9, j);
    assert(s.subrange(9, j) =~= b);
    assert(starts_with_spec(s, "/collections/"@, j));
    let j2: int = j + 13 + c.len() as int;
    assert(s[j2] == '/');
    lemma_seg_end_is(s, j + 13, j2);
    assert(s.subrange(j + 13, j2) =~= c);
    assert(!starts_with_spec(s, "/records/"@, j2));
}

/// The scan of a record path recovers all three identifiers.
pub proof fn lemma_extract_record_path(b: Seq<char>, c: Seq<char>, rr: Seq<char>)
    requires
        slash_free(b),
        slash_free(c),
        slash_free(rr),
    ensures
        spec_extract(record_path(b, c, rr)).bucket == Some(b),
        spec_extract(record_path(b, c, rr)).collection == Some(c),
        spec_extract(record_path(b, c, rr)).record == Some(rr),
{
    reveal_strlit("/buckets/");
    reveal_strlit("/collections/");
    reveal_strlit("/records/");
    let s = record_path(b, c, rr);
    let j: int = 9 + b.len() as int;
    assert(s[j] == '/');
    lemma_seg_end_is(s, 9, j);
    assert(s.subrange(9, j) =~= b);
    assert(starts_with_spec(s, "/collections/"@, j));
    let j2: int = j + 13 + c.len() as int;
    assert(s[j2] == '/');
    lemma_seg_end_is(s, j + 13, j2);
    assert(s.subrange(j + 13, j2) =~= c);
    assert(starts_with_spec(s, "/records/"@, j2));
    lemma_seg_end_is(s, j2 + 9, s.len() as int);
    assert(s.subrange(j2 + 9, s.len() as int) =~= rr);
}

/// Distinct identifier tuples always give distinct record-list paths: the
/// path builder is injective for each resource kind.
pub proof fn lemma_records_path_injective(
    b1: Seq<char>,
    c1: Seq<char>,
    b2: Seq<char>,
    c2: Seq<char>,
)
    requires
        slash_free(b1),
        slash_free(c1),
        slash_free(b2),
        slash_free(c2),
        records_path(b1, c1) == records_path(b2, c2),
    ensures
        b1 == b2,
        c1 == c2,
{
    reveal_strlit("/buckets/");
    reveal_strlit("/collections/");
    reveal_strlit("/records");
    let s = records_path(b1, c1);
    lemma_seg_end_is(s, 9, 9 + b1.len() as int);
    lemma_seg_end_is(s, 9, 9 + b2.len() as int);
    assert(b1 =~= s.subrange(9, 9 + b1.len() as int));
    assert(b2 =~= s.subrange(9, 9 + b2.len() as int));
    let base: int = 9 + b1.len() as int + 13;
    lemma_seg_end_is(s, base, base + c1.len() as int);
    lemma_seg_end_is(s, base, base + c2.len() as int);
    assert(c1 =~= s.subrange(base, base + c1.len() as int));
    assert(c2 =~= s.subrange(base, base + c2.len() as int));
}

} // verus!
