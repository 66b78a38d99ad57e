//! FTP pools: path rules and listing entries.
//!
//! One control connection can carry only one transfer at a time, so the connection and
//! its transfers live with the caller; this module holds what is computed around them.
use vstd::prelude::*;
use crate::common::text::{join2, join3, join4, owned, strip_back, strip_both, strip_end, strip_front, strip_matches, strip_start};
use crate::resource::error::PoolError;
use crate::resource::pool::Entry;
use suppaftp::list::ListParser;

verus! {

/// FTP connection settings.
pub struct FtpConfig {
    pub host: String,
    pub port: u16,
    pub user: String,
    pub password: String,
    /// The pool root; every operation is relative to it.
    pub root: String,
}

/// An FTP pool, by its root directory.
pub struct FtpPool {
    root: String,
}

/// The absolute FTP path of a pool-relative path under `root`.
pub open spec fn full_path_text(root: Seq<char>, path: Seq<char>) -> Seq<char> {
    let r = strip_both(root, '/');
    let p = strip_both(path, '/');
    if r.len() == 0 && p.len() == 0 {
        "/"@
    } else if r.len() == 0 {
        "/"@ + p
    } else if p.len() == 0 {
        "/"@ + r
    } else {
        "/"@ + r + "/"@ + p
    }
}

/// One line of a directory listing, parsed.
pub struct ListedFile {
    pub name: String,
    pub is_dir: bool,
    pub size: u64,
    /// Modification time in whole seconds since the Unix epoch; `None` before the epoch.
    pub modified_secs: Option<u64>,
}

/// The name, directory flag and size that `ListParser::parse_posix` reads from a line it
/// accepts: they come from the line's own fields.
pub uninterp spec fn posix_listing_fields(line: Seq<char>) -> (Seq<char>, bool, u64);

/// Parses a `LIST` line in POSIX `ls -l` format (`ListParser::parse_posix`). Of a parsed
/// file, the name, directory flag and size are named by `posix_listing_fields`. The date,
/// and whether the line parses at all, are not stated: a line without a year is dated in
/// the current year (or the one before), read from the clock.
#[verifier::external_body]
pub(crate) fn parse_posix_line(line: &str) -> (r: Result<ListedFile, String>)
    ensures
        r matches Ok(f) ==> (f.name@, f.is_dir, f.size) == posix_listing_fields(line@),
{
    match ListParser::parse_posix(line) {
        Ok(f) => Ok(ListedFile {
            name: f.name().to_string(),
            is_dir: f.is_directory(),
            size: f.size() as u64,
            modified_secs: match f.modified().duration_since(std::time::UNIX_EPOCH) {
                Ok(d) => Some(d.as_secs()),
                Err(_) => None,
            },
        }),
        Err(e) => Err(e.to_string()),
    }
}

/// What `ListParser::parse_dos` makes of a line, converted to a `ListedFile` (its error as
/// text). It reads the line alone: the DOS format carries its own date.
pub uninterp spec fn dos_listing(line: Seq<char>) -> Result<ListedFile, String>;

/// Parses a `LIST` line in DOS format (`ListParser::parse_dos`); the result is named by
/// `dos_listing`.
#[verifier::external_body]
pub(crate) fn parse_dos_line(line: &str) -> (r: Result<ListedFile, String>)
    ensures
        r == dos_listing(line@),
{
    match ListParser::parse_dos(line) {
        Ok(f) => Ok(ListedFile {
            name: f.name().to_string(),
            is_dir: f.is_directory(),
            size: f.size() as u64,
            modified_secs: match f.modified().duration_since(std::time::UNIX_EPOCH) {
                Ok(d) => Some(d.as_secs()),
                Err(_) => None,
            },
        }),
        Err(e) => Err(e.to_string()),
    }
}

/// Whether `f` is a reading of listing line `line`: the POSIX one (its name, kind and size
/// as that format gives them) or the DOS one.
pub open spec fn reads_line(f: ListedFile, line: Seq<char>) -> bool {
    (f.name@, f.is_dir, f.size) == posix_listing_fields(line) || dos_listing(line) == Ok::<
        ListedFile,
        String,
    >(f)
}

/// A listing line, given what the POSIX parser made of it (`posix`): that reading when it
/// succeeded, else whatever the DOS parser makes of the line.
pub fn parse_line_from(posix: Result<ListedFile, String>, line: &str) -> (r: Result<ListedFile, String>)
    ensures
        posix is Ok ==> r == posix,
        posix is Err ==> r == dos_listing(line@),
{
    match posix {
        Ok(f) => Ok(f),
        Err(_) => parse_dos_line(line),
    }
}

/// A listing line: the POSIX format first, the DOS format when that fails; the DOS
/// parser's error is the one reported. Which format succeeds can depend on the current
/// year, for a POSIX line dated without one.
pub fn parse_line(line: &str) -> (r: Result<ListedFile, String>)
    ensures
        r is Err ==> r == dos_listing(line@),
        r matches Ok(f) ==> reads_line(f, line@),
{
    parse_line_from(parse_posix_line(line), line)
}

/// Entry `e` shows a reading of listing line `line` in directory `target`.
pub open spec fn shows_line(e: Entry, target: Seq<char>, line: Seq<char>) -> bool {
    exists|f: ListedFile| #[trigger] reads_line(f, line) && shows_file(e, target, f)
}

/// Entry `e` shows file `f` of a listing of directory `target`.
pub open spec fn shows_file(e: Entry, target: Seq<char>, f: ListedFile) -> bool {
    &&& e.name@ == f.name@
    &&& e.path@ == strip_back(target, '/') + "/"@ + f.name@
    &&& e.is_dir == f.is_dir
    &&& e.size == f.size
    &&& match f.modified_secs {
        Some(s) => e.modified == utc_micros_of_secs(s as i64),
        None => e.modified is None,
    }
}

/// The first whole second `chrono` can date (January 1, 262144 BCE), from the Unix epoch.
pub const UTC_MIN_SECS: i64 = -8_334_601_228_800;

/// The last whole second `chrono` can date (the end of December 31, 262142 CE), from the
/// Unix epoch.
pub const UTC_MAX_SECS: i64 = 8_210_266_876_799;

/// Microseconds since the Unix epoch of a timestamp in whole seconds, `None` when the
/// timestamp is outside the range `chrono` can date.
pub open spec fn utc_micros_of_secs(secs: i64) -> Option<i64> {
    if UTC_MIN_SECS <= secs <= UTC_MAX_SECS {
        Some((secs * 1_000_000) as i64)
    } else {
        None
    }
}

/// `DateTime::from_timestamp(secs, 0)` in microseconds (`timestamp_micros`): `None` outside
/// the dates `chrono` can hold, else the seconds times a million (the timestamp round-trips
/// and has no fraction).
#[verifier::external_body]
pub(crate) fn utc_micros(secs: i64) -> (t: Option<i64>)
    ensures
        t == utc_micros_of_secs(secs),
{
    match chrono::DateTime::from_timestamp(secs, 0) {
        Some(d) => Some(d.timestamp_micros()),
        None => None,
    }
}

/// The modification time of a listed file in microseconds: the seconds are taken as a
/// signed timestamp, as a wrapping cast gives them.
pub fn listed_modified(secs: Option<u64>) -> (t: Option<i64>)
    ensures
        match secs {
            Some(s) => t == utc_micros_of_secs(s as i64),
            None => t is None,
        },
{
    match secs {
        Some(s) => utc_micros(s as i64),
        None => None,
    }
}

impl FtpPool {
    /// The root directory.
    pub closed spec fn root_view(&self) -> Seq<char> {
        self.root@
    }

    /// A pool rooted at `root`.
    pub fn new(root: String) -> (p: FtpPool)
        ensures
            p.root_view() == root@,
    {
        FtpPool { root }
    }

    /// Every path is relative to the pool root; this joins them into an absolute path.
    pub fn full_path(&self, path: &str) -> (out: String)
        ensures
            out@ == full_path_text(self.root_view(), path@),
    {
        let root = strip_matches(self.root.as_str(), '/');
        let path = strip_matches(path, '/');
        let re = root.as_str().is_empty();
        let pe = path.as_str().is_empty();
        if re && pe {
            owned("/")
        } else if re {
            join2("/", path.as_str())
        } else if pe {
            join2("/", root.as_str())
        } else {
            join4("/", root.as_str(), "/", path.as_str())
        }
    }
}

/// The entries of a directory listing of `target`, one per line in order, each showing
/// a reading of its line; the first line that neither format parses fails the whole
/// listing with the DOS parser's error.
pub fn listing_entries(target: &str, lines: Vec<String>) -> (r: Result<Vec<Entry>, PoolError>)
    ensures
        match r {
            Ok(es) => es@.len() == lines@.len() && forall|i: int|
                0 <= i < es@.len() ==> #[trigger] shows_line(es@[i], target@, lines@[i]@),
            Err(e) => exists|i: int|
                0 <= i < lines@.len() && (e matches PoolError::ListParse(m) && dos_listing(
                    (#[trigger] lines@[i])@,
                ) == Err::<ListedFile, String>(m)),
        },
{
    let mut entries: Vec<Entry> = Vec::new();
    let mut i: usize = 0;
    while i < lines.len()
        invariant
            i <= lines.len(),
            entries@.len() == i,
            forall|k: int|
                0 <= k < i ==> #[trigger] shows_line(entries@[k], target@, lines@[k]@),
        decreases lines.len() - i,
    {
        match parse_line(lines[i].as_str()) {
            Ok(file) => {
                let ghost g = file;
                let e = entry_of(target, file);
                proof {
                    assert(reads_line(g, lines@[i as int]@));
                    assert(shows_file(e, target@, g));
                }
                let ghost before = entries@;
                entries.push(e);
                proof {
                    assert forall|k: int| 0 <= k < i + 1 implies #[trigger] shows_line(
                        entries@[k],
                        target@,
                        lines@[k]@,
                    ) by {
                        if k < i {
                            assert(entries@[k] == before[k]);
                        } else {
                            assert(reads_line(g, lines@[k]@) && shows_file(entries@[k], target@, g));
                        }
                    }
                }
            },
            Err(m) => {
                return Err(PoolError::ListParse(m));
            },
        }
        i += 1;
    }
    Ok(entries)
}

/// A path built from a listing, back to pool-relative form: leading slashes dropped.
pub fn trim_root(path: &str) -> (out: String)
    ensures
        out@ == strip_front(path@, '/'),
{
    strip_start(path, '/')
}

/// The entry of a listed file inside directory `target`: the listing gives bare names, so
/// the path is the directory (without trailing slashes), a slash and the name.
pub fn entry_of(target: &str, file: ListedFile) -> (e: Entry)
    ensures
        e.name@ == file.name@,
        e.path@ == strip_back(target@, '/') + "/"@ + file.name@,
        e.is_dir == file.is_dir,
        e.size == file.size,
        match file.modified_secs {
            Some(s) => e.modified == utc_micros_of_secs(s as i64),
            None => e.modified is None,
        },
{
    let dir = strip_end(target, '/');
    let path = join3(dir.as_str(), "/", file.name.as_str());
    let modified = listed_modified(file.modified_secs);
    Entry { name: file.name, path, is_dir: file.is_dir, size: file.size, modified }
}

/// Every full path starts at the server root.
pub proof fn law_full_path_is_absolute(root: Seq<char>, path: Seq<char>)
    ensures
        full_path_text(root, path).len() > 0,
        full_path_text(root, path)[0] == '/',
{
    reveal_strlit("/");
}

} // verus!
