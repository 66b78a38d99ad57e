//! S3-compatible object storage (AWS S3, MinIO, R2, B2): the directory model.
//!
//! S3 has no real directories: `create_dir` writes an empty object whose key ends in `/`,
//! `list_dir` lists with delimiter `/` and reports common prefixes as directories, and
//! `delete_dir` lists everything under the prefix and deletes it in batches.
use vstd::prelude::*;
use crate::common::text::{
    chars_of, has_suffix, join2, owned, str_eq, string_of, strip_back, strip_both, strip_matches,
    strip_end, ends_with,
};
use crate::resource::pool::Entry;

verus! {

/// Most keys one batch-delete request may carry.
pub const DELETE_BATCH: usize = 1000;

/// Connection settings of an S3-compatible service.
pub struct S3Config {
    /// The endpoint, such as `http://127.0.0.1:9000`.
    pub endpoint: String,
    pub region: String,
    pub bucket: String,
    pub access_key: String,
    pub secret_key: String,
    /// Self-hosted services such as MinIO usually need path-style addressing.
    pub path_style: bool,
}

/// An S3 pool: the bucket's settings (the connection itself lives with the caller).
pub struct S3Pool {
    pub config: S3Config,
}

/// The key prefix of a directory: the path without surrounding slashes, then one slash;
/// empty for the root.
pub open spec fn dir_prefix_text(path: Seq<char>) -> Seq<char> {
    let t = strip_both(path, '/');
    if t.len() == 0 {
        Seq::empty()
    } else {
        t + "/"@
    }
}

/// Index of the last `/` in `s`, or -1.
pub open spec fn last_slash(s: Seq<char>) -> int
    decreases s.len(),
{
    if s.len() == 0 {
        -1
    } else if s.last() == '/' {
        s.len() - 1
    } else {
        last_slash(s.drop_last())
    }
}

/// The last path segment, after trailing slashes are dropped.
pub open spec fn base_name_text(path: Seq<char>) -> Seq<char> {
    let t = strip_back(path, '/');
    t.subrange(last_slash(t) + 1, t.len() as int)
}

/// The key prefix of a directory path.
pub fn dir_prefix(path: &str) -> (out: String)
    ensures
        out@ == dir_prefix_text(path@),
{
    let trimmed = strip_matches(path, '/');
    if trimmed.as_str().is_empty() {
        String::new()
    } else {
        join2(trimmed.as_str(), "/")
    }
}

proof fn lemma_last_slash(s: Seq<char>, j: int)
    requires
        -1 <= j < s.len(),
        j == -1 || s[j] == '/',
        forall|k: int| j < k < s.len() ==> #[trigger] s[k] != '/',
    ensures
        last_slash(s) == j,
    decreases s.len(),
{
    if s.len() > 0 && j != s.len() - 1 {
        assert(s.last() != '/');
        let t = s.drop_last();
        assert forall|k: int| j < k < t.len() implies #[trigger] t[k] != '/' by {
            assert(t[k] == s[k]);
        }
        lemma_last_slash(t, j);
    }
}

/// The last path segment.
pub fn base_name(path: &str) -> (out: String)
    ensures
        out@ == base_name_text(path@),
{
    let t = strip_end(path, '/');
    let chars = chars_of(t.as_str());
    let mut j: usize = chars.len();
    while j > 0 && chars[j - 1] != '/'
        invariant
            j <= chars.len(),
            forall|k: int| j <= k < chars.len() ==> #[trigger] chars@[k] != '/',
        decreases j,
    {
        j -= 1;
    }
    proof {
        lemma_last_slash(chars@, j - 1);
    }
    string_of(&chars, j, chars.len())
}

/// One object of a listing page.
pub struct ListedObject {
    pub key: String,
    pub size: u64,
    /// The last-modified time as the service gave it (RFC 3339).
    pub last_modified: String,
}

/// Microseconds since the Unix epoch of an RFC 3339 timestamp, `None` when it does not
/// parse.
pub uninterp spec fn rfc3339_micros(text: Seq<char>) -> Option<i64>;

/// Parses an RFC 3339 timestamp (`DateTime::parse_from_rfc3339`, taken to UTC) into
/// microseconds since the Unix epoch.
#[verifier::external_body]
pub(crate) fn parse_time(raw: &str) -> (t: Option<i64>)
    ensures
        t == rfc3339_micros(raw@),
{
    match chrono::DateTime::parse_from_rfc3339(raw) {
        Ok(dt) => Some(dt.timestamp_micros()),
        Err(_) => None,
    }
}

/// Whether a listed object is shown: directory markers (keys ending in `/`) and the
/// prefix itself are skipped.
pub open spec fn shows_object(prefix: Seq<char>, key: Seq<char>) -> bool {
    !has_suffix(key, "/"@) && key != prefix
}

/// The entry of a listed object.
pub open spec fn object_entry(o: ListedObject, e: Entry) -> bool {
    &&& e.name@ == base_name_text(o.key@)
    &&& e.path@ == o.key@
    &&& !e.is_dir
    &&& e.size == o.size
    &&& e.modified == rfc3339_micros(o.last_modified@)
}

/// The entry of a common prefix (a directory).
pub open spec fn prefix_entry(p: Seq<char>, e: Entry) -> bool {
    &&& e.path@ == strip_back(p, '/')
    &&& e.name@ == base_name_text(strip_back(p, '/'))
    &&& e.is_dir
    &&& e.size == 0
    &&& e.modified is None
}

/// The entries of one listing page under `prefix`, appended to `out`: the shown objects
/// in order, then the common prefixes in order.
pub fn push_page_entries(
    out: &mut Vec<Entry>,
    prefix: &str,
    objects: &Vec<ListedObject>,
    common_prefixes: &Vec<String>,
)
    ensures
        exists|shown: Seq<int>|
            #![trigger shown.len()]
            {
                &&& shown.len() + common_prefixes@.len() + old(out)@.len() == final(out)@.len()
                &&& forall|k: int|
                    0 <= k < shown.len() ==> 0 <= #[trigger] shown[k] < objects@.len()
                        && object_entry(objects@[shown[k]], final(out)@[old(out)@.len() + k])
                &&& forall|a: int, b: int| 0 <= a < b < shown.len() ==> shown[a] < shown[b]
                &&& forall|i: int|
                    0 <= i < objects@.len() ==> (shows_object(prefix@, #[trigger] objects@[i].key@)
                        <==> exists|k: int| 0 <= k < shown.len() && shown[k] == i)
                &&& forall|c: int|
                    0 <= c < common_prefixes@.len() ==> prefix_entry(
                        #[trigger] common_prefixes@[c]@,
                        final(out)@[old(out)@.len() + shown.len() + c],
                    )
            },
        forall|i: int| 0 <= i < old(out)@.len() ==> final(out)@[i] == old(out)@[i],
{
    let ghost start = out@.len();
    let ghost mut shown: Seq<int> = Seq::empty();
    let mut i: usize = 0;
    while i < objects.len()
        invariant
            i <= objects.len(),
            out@.len() == start + shown.len(),
            start == old(out)@.len(),
            forall|x: int| 0 <= x < start ==> out@[x] == old(out)@[x],
            forall|k: int|
                0 <= k < shown.len() ==> 0 <= #[trigger] shown[k] < i && object_entry(
                    objects@[shown[k]],
                    out@[start + k],
                ),
            forall|a: int, b: int| 0 <= a < b < shown.len() ==> shown[a] < shown[b],
            forall|x: int|
                0 <= x < i ==> (shows_object(prefix@, #[trigger] objects@[x].key@) <==> exists|
                    k: int,
                | 0 <= k < shown.len() && shown[k] == x),
        decreases objects.len() - i,
    {
        let o = &objects[i];
        if !ends_with(o.key.as_str(), "/") && !str_eq(o.key.as_str(), prefix) {
            let e = Entry {
                name: base_name(o.key.as_str()),
                path: o.key.clone(),
                is_dir: false,
                size: o.size,
                modified: parse_time(o.last_modified.as_str()),
            };
            out.push(e);
            proof {
                let old_shown = shown;
                shown = shown.push(i as int);
                assert forall|x: int| 0 <= x < i + 1 implies (shows_object(
                    prefix@,
                    #[trigger] objects@[x].key@,
                ) <==> exists|k: int| 0 <= k < shown.len() && shown[k] == x) by {
                    if x == i {
                        assert(shown[shown.len() - 1] == x);
                    } else if shows_object(prefix@, objects@[x].key@) {
                        let k = choose|k: int| 0 <= k < old_shown.len() && old_shown[k] == x;
                        assert(shown[k] == x);
                    } else {
                        assert forall|k: int| 0 <= k < shown.len() implies shown[k] != x by {
                            if k < old_shown.len() {
                                assert(old_shown[k] == shown[k]);
                            }
                        }
                    }
                }
            }
        } else {
            proof {
                assert forall|x: int| 0 <= x < i + 1 implies (shows_object(
                    prefix@,
                    #[trigger] objects@[x].key@,
                ) <==> exists|k: int| 0 <= k < shown.len() && shown[k] == x) by {
                    if x == i {
                        assert forall|k: int| 0 <= k < shown.len() implies shown[k] != x by {}
                    }
                }
            }
        }
        i += 1;
    }
    let mut c: usize = 0;
    while c < common_prefixes.len()
        invariant
            c <= common_prefixes.len(),
            out@.len() == start + shown.len() + c,
            start == old(out)@.len(),
            forall|x: int| 0 <= x < start ==> out@[x] == old(out)@[x],
            forall|k: int|
                0 <= k < shown.len() ==> 0 <= #[trigger] shown[k] < objects@.len() && object_entry(
                    objects@[shown[k]],
                    out@[start + k],
                ),
            forall|x: int|
                0 <= x < c ==> prefix_entry(#[trigger] common_prefixes@[x]@, out@[start + shown.len() + x]),
        decreases common_prefixes.len() - c,
    {
        let path = strip_end(common_prefixes[c].as_str(), '/');
        let e = Entry {
            name: base_name(path.as_str()),
            path,
            is_dir: true,
            size: 0,
            modified: None,
        };
        out.push(e);
        c += 1;
    }
}

/// Splits keys into batch-delete requests of at most [`DELETE_BATCH`] keys, in order.
pub fn delete_batches(keys: Vec<String>) -> (batches: Vec<Vec<String>>)
    ensures
        forall|b: int| 0 <= b < batches@.len() ==> 0 < (#[trigger] batches@[b])@.len() <= DELETE_BATCH,
        forall|b: int| 0 <= b < batches@.len() - 1 ==> (#[trigger] batches@[b])@.len() == DELETE_BATCH,
        batches@.map_values(|v: Vec<String>| v@).flatten() == keys@,
{
    let mut batches: Vec<Vec<String>> = Vec::new();
    let mut current: Vec<String> = Vec::new();
    let mut i: usize = 0;
    while i < keys.len()
        invariant
            i <= keys.len(),
            current@.len() < DELETE_BATCH,
            forall|b: int| 0 <= b < batches@.len() ==> (#[trigger] batches@[b])@.len() == DELETE_BATCH,
            batches@.map_values(|v: Vec<String>| v@).flatten() + current@ == keys@.subrange(0, i as int),
        decreases keys.len() - i,
    {
        current.push(keys[i].clone());
        if current.len() == DELETE_BATCH {
            let full = current;
            current = Vec::new();
            let ghost before = batches@;
            batches.push(full);
            proof {
                assert(batches@.map_values(|v: Vec<String>| v@) =~= before.map_values(|v: Vec<String>| v@).push(full@));
                before.map_values(|v: Vec<String>| v@).lemma_flatten_push(full@);
            }
        }
        i += 1;
        assert(keys@.subrange(0, i as int) =~= keys@.subrange(0, i - 1) + seq![keys@[i - 1]]);
    }
    if current.len() > 0 {
        let ghost before = batches@;
        let last = current;
        batches.push(last);
        proof {
            assert(batches@.map_values(|v: Vec<String>| v@) =~= before.map_values(|v: Vec<String>| v@).push(last@));
            before.map_values(|v: Vec<String>| v@).lemma_flatten_push(last@);
        }
    } else {
        assert(current@ =~= Seq::<String>::empty());
    }
    assert(keys@.subrange(0, keys.len() as int) =~= keys@);
    batches
}

} // verus!
