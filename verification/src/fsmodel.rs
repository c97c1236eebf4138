//! The configuration folder's layout, as plain path text.
//!
//! Directory walking and file reading live in the loader outside this
//! crate; what stands here is the layout's logic: which file names count
//! as api, shape or proxy files, what a system is called, and which key a
//! data file is stored under.

use vstd::prelude::*;
use vstd::string::StrSliceExecFns;
use vstd::string::StringExecFns;
use crate::matcher::spec_name_eq_ci;
use crate::proxy::{spec_split, split_segments};
use crate::strings::{eq_ignore_ascii_case, starts_with_chars, str_starts_with};

verus! {

/// The folder all systems are loaded from.
#[derive(Debug)]
pub struct ConfigurationFolder {
    pub folder: String,
}

impl ConfigurationFolder {
    pub fn new(path: String) -> (r: ConfigurationFolder)
        ensures
            r.folder@ == path@,
    {
        ConfigurationFolder { folder: path }
    }
}

/// The root configuration folder, seen as a path.
#[derive(Debug)]
pub struct FsConfig {
    pub folder: String,
}

impl FsConfig {
    pub fn new(folder: String) -> (r: FsConfig)
        ensures
            r.folder@ == folder@,
    {
        FsConfig { folder }
    }
}

/// One system's `data` folder, seen as a path.
#[derive(Debug)]
pub struct FsData {
    pub path: String,
}

impl FsData {
    /// The folder name data files live under.
    pub fn folder_name() -> (r: &'static str)
        ensures
            r@ == "data"@,
    {
        "data"
    }

    pub fn new(path: String) -> (r: FsData)
        ensures
            r.path@ == path@,
    {
        FsData { path }
    }
}

/// One data file: its path and its text.
#[derive(Debug)]
pub struct FsDataFile {
    pub path: String,
    pub content: String,
}

/// One file directly under a system folder: its path and its text.
#[derive(Debug)]
pub struct FsSystemFile {
    pub path: String,
    pub content: String,
}

/// Which role a file directly under a system folder plays, by the prefix
/// of its name.
#[derive(Clone, Copy, Debug, PartialEq, Eq, Structural)]
pub enum SystemFileKind {
    Api,
    Shape,
    Proxy,
    Other,
}

/// One system folder, seen as a path.
#[derive(Debug)]
pub struct FsSystem {
    pub path: String,
}

/// Splitting any text gives at least one segment.
pub proof fn lemma_split_nonempty(s: Seq<char>, start: int, from: int)
    requires
        0 <= start <= from <= s.len(),
    ensures
        crate::proxy::spec_split_from(s, start, from).len() >= 1,
    decreases s.len() - from,
{
    if from < s.len() && s[from] != '/' {
        lemma_split_nonempty(s, start, from + 1);
    }
    if from < s.len() && s[from] == '/' {
        lemma_split_nonempty(s, from + 1, from + 1);
    }
}

impl FsSystem {
    pub fn new(path: String) -> (r: FsSystem)
        ensures
            r.path@ == path@,
    {
        FsSystem { path }
    }

    /// The system's name: the last segment of its folder path, which must
    /// be non-empty.
    pub fn get_name(&self) -> (r: Result<String, String>)
        ensures
            r matches Ok(n) ==> n@ == spec_split(self.path@).last() && n@.len() > 0,
            r is Err <==> spec_split(self.path@).last().len() == 0,
    {
        proof {
            lemma_split_nonempty(self.path@, 0, 0);
        }
        let mut segs = split_segments(self.path.as_str());
        let last = match segs.pop() {
            Some(l) => l,
            None => {
                proof {
                    assert(false);
                }
                return Err(String::from_str("empty path"));
            },
        };
        proof {
            assert(last@ == spec_split(self.path@).last());
        }
        if last.as_str().is_empty() {
            Err(String::from_str("resolving the system name from its folder path"))
        } else {
            Ok(last)
        }
    }

    /// The role of one file name directly under a system folder: `api*`,
    /// `shape*` and `proxy*` files feed the loader, everything else is
    /// ignored.  An `api` prefix wins over the others, as the loader
    /// checks it first.
    pub fn classify_file_name(name: &str) -> (r: SystemFileKind)
        ensures
            starts_with_chars(name@, "api"@) ==> r == SystemFileKind::Api,
            !starts_with_chars(name@, "api"@) && starts_with_chars(name@, "shape"@) ==> r
                == SystemFileKind::Shape,
            !starts_with_chars(name@, "api"@) && !starts_with_chars(name@, "shape"@)
                && starts_with_chars(name@, "proxy"@) ==> r == SystemFileKind::Proxy,
            !starts_with_chars(name@, "api"@) && !starts_with_chars(name@, "shape"@)
                && !starts_with_chars(name@, "proxy"@) ==> r == SystemFileKind::Other,
    {
        if str_starts_with(name, "api") {
            SystemFileKind::Api
        } else if str_starts_with(name, "shape") {
            SystemFileKind::Shape
        } else if str_starts_with(name, "proxy") {
            SystemFileKind::Proxy
        } else {
            SystemFileKind::Other
        }
    }

    /// Whether a directory entry is the data folder.
    pub fn is_data_folder(name: &str) -> (r: bool)
        ensures
            r == (name@ == "data"@),
    {
        crate::strings::str_eq(name, "data")
    }
}

/// The position of the last `.` in a text, if any.
pub open spec fn spec_last_dot(s: Seq<char>) -> Option<int>
    decreases s.len(),
{
    if s.len() == 0 {
        None
    } else if s.last() == '.' {
        Some(s.len() - 1)
    } else {
        spec_last_dot(s.drop_last())
    }
}

/// A file name with its extension stripped: the text before the last `.`,
/// unless the dot starts the name or there is none.
pub open spec fn spec_stem(s: Seq<char>) -> Seq<char> {
    match spec_last_dot(s) {
        Some(i) => if i > 0 {
            s.take(i)
        } else {
            s
        },
        None => s,
    }
}

/// The last `.` at an index below `end`.
fn last_dot_before(s: &str, end: usize) -> (r: Option<usize>)
    requires
        end <= s@.len(),
    ensures
        match r {
            Some(i) => spec_last_dot(s@.take(end as int)) == Some(i as int) && i < end,
            None => spec_last_dot(s@.take(end as int)) is None,
        },
    decreases end,
{
    if end == 0 {
        return None;
    }
    proof {
        assert(s@.take(end as int).last() == s@[end - 1]);
        assert(s@.take(end as int).drop_last() =~= s@.take(end - 1));
    }
    if s.get_char(end - 1) == '.' {
        Some(end - 1)
    } else {
        last_dot_before(s, end - 1)
    }
}

/// Strips the extension from a file name.
pub fn stem_of(s: &str) -> (r: String)
    ensures
        r@ == spec_stem(s@),
{
    let n = s.unicode_len();
    proof {
        assert(s@.take(n as int) =~= s@);
    }
    match last_dot_before(s, n) {
        Some(i) => {
            if i > 0 {
                s.substring_char(0, i).to_owned()
            } else {
                s.to_owned()
            }
        },
        None => s.to_owned(),
    }
}

/// The first index at or past `i` whose segment is `data`, compared
/// case-insensitively; the length when none is.
pub open spec fn spec_find_data(segs: Seq<Seq<char>>, i: int) -> int
    decreases segs.len() - i,
{
    if !(0 <= i < segs.len()) {
        segs.len() as int
    } else if spec_name_eq_ci(segs[i], "data"@) {
        i
    } else {
        spec_find_data(segs, i + 1)
    }
}

fn find_data(segs: &Vec<String>, i: usize) -> (r: usize)
    requires
        i <= segs@.len(),
    ensures
        r == spec_find_data(segs.deep_view(), i as int),
        i <= r <= segs@.len(),
    decreases segs@.len() - i,
{
    if i == segs.len() {
        return i;
    }
    proof {
        assert(segs.deep_view()[i as int] == segs@[i as int]@);
    }
    if eq_ignore_ascii_case(segs[i].as_str(), "data") {
        i
    } else {
        find_data(segs, i + 1)
    }
}

/// The joined segments from `i` on, `/`-separated.
pub open spec fn spec_join_from(segs: Seq<Seq<char>>, i: int) -> Seq<char>
    decreases segs.len() - i,
{
    if !(0 <= i < segs.len()) {
        Seq::empty()
    } else if i == segs.len() - 1 {
        segs[i]
    } else {
        segs[i] + "/"@ + spec_join_from(segs, i + 1)
    }
}

fn join_from(segs: &Vec<String>, i: usize) -> (r: String)
    requires
        i <= segs@.len(),
    ensures
        r@ == spec_join_from(segs.deep_view(), i as int),
    decreases segs@.len() - i,
{
    if i == segs.len() {
        let empty = String::new();
        proof {
            assert(empty@ =~= spec_join_from(segs.deep_view(), i as int));
        }
        return empty;
    }
    proof {
        assert(segs.deep_view()[i as int] == segs@[i as int]@);
    }
    if i + 1 == segs.len() {
        segs[i].clone()
    } else {
        let mut out = segs[i].clone();
        out.append("/");
        let rest = join_from(segs, i + 1);
        out.append(rest.as_str());
        out
    }
}

/// The key a data file is stored under: its path's segments after the
/// (case-insensitively matched) `data` folder, joined by `/`, with the
/// final segment's extension stripped.
pub open spec fn spec_data_key(path: Seq<char>) -> Seq<char> {
    let segs0 = spec_split(path);
    let segs = segs0.update(segs0.len() - 1, spec_stem(segs0.last()));
    let d = spec_find_data(segs, 0);
    if d + 1 <= segs.len() {
        spec_join_from(segs, d + 1)
    } else {
        Seq::empty()
    }
}

/// Computes the key a data file is stored under.
pub fn data_file_key(path: &str) -> (r: String)
    ensures
        r@ == spec_data_key(path@),
{
    proof {
        lemma_split_nonempty(path@, 0, 0);
    }
    let mut segs = split_segments(path);
    let ghost segs0 = segs.deep_view();
    let last = match segs.pop() {
        Some(l) => l,
        None => {
            proof {
                assert(false);
            }
            return String::new();
        },
    };
    let stemmed = stem_of(last.as_str());
    segs.push(stemmed);
    proof {
        assert(segs.deep_view() =~= segs0.update(
            segs0.len() - 1,
            spec_stem(segs0.last()),
        ));
    }
    let d = find_data(&segs, 0);
    if d == segs.len() {
        proof {
            assert(spec_data_key(path@) =~= Seq::<char>::empty());
        }
        String::new()
    } else {
        join_from(&segs, d + 1)
    }
}

/// How the server is launched: where the configuration lives and where to
/// listen.
#[derive(Clone, Debug)]
pub struct ServerConfig {
    /// Path to the configuration folder.
    pub config_path: String,
    /// Port to listen on.
    pub port: u16,
    /// Address to bind to.
    pub ip_addr: String,
}

impl Default for ServerConfig {
    /// The defaults the command line falls back to.
    fn default() -> (r: ServerConfig)
        ensures
            r.config_path@ == "./config"@,
            r.port == 3000,
            r.ip_addr@ == "0.0.0.0"@,
    {
        ServerConfig {
            config_path: String::from_str("./config"),
            port: 3000,
            ip_addr: String::from_str("0.0.0.0"),
        }
    }
}

/// The whole launch configuration.
#[derive(Clone, Debug)]
pub struct Config {
    pub server: ServerConfig,
}

} // verus!
