use vstd::prelude::*;
use vstd::string::*;

use crate::strutil::{
    chars_of, lemma_first_at_is, parse_i64, spec_first_at, spec_parse_i64, spec_trim, trim_range,
};

verus! {

/// Arguments related to where packages are stored in the system. The session
/// itself does not fetch packages; the values ride along for the embedder.
#[derive(Debug, Clone, Default)]
pub struct PackageArgs {
    /// Custom path to local packages, defaults to a system-dependent location.
    pub package_path: Option<String>,
    /// Custom path to the package cache, defaults to a system-dependent
    /// location.
    pub package_cache_path: Option<String>,
}

/// Common arguments to customize available fonts. Font discovery itself is
/// the embedder's business; the session only carries the configuration.
#[derive(Debug, Clone)]
pub struct FontArgs {
    /// Additional directories to search for fonts, recursively.
    pub font_paths: Vec<String>,
    /// Ensures system fonts are not searched, unless explicitly included via
    /// `font_paths`.
    pub ignore_system_fonts: bool,
}

/// Arguments for the construction of a session, shared by the compile,
/// watch, and query entry points.
#[derive(Debug, Clone)]
pub struct WorldArgs {
    /// Configures the project root (for absolute virtual paths).
    pub root: Option<String>,
    /// String key-value pairs visible to the compiled document.
    pub inputs: Vec<(String, String)>,
    /// Common font arguments.
    pub font: FontArgs,
    /// Arguments related to storage of packages in the system.
    pub package: PackageArgs,
    /// The document's creation date as seconds since the epoch, for
    /// reproducible builds.
    pub creation_timestamp: Option<i64>,
}

/// An in-development feature that may be changed or removed at any time.
#[derive(Debug, Copy, Clone, Eq, PartialEq)]
pub enum Feature {
    Html,
    A11yExtras,
}

/// Arguments configuring the process of compilation itself.
#[derive(Debug, Clone)]
pub struct ProcessArgs {
    /// Number of parallel jobs spawned during compilation; the embedder's
    /// thread pool honors it.
    pub jobs: Option<usize>,
    /// The enabled in-development features.
    pub features: Vec<Feature>,
}

/// Where the main document comes from.
#[derive(Debug, Clone)]
pub enum Input {
    /// Standard input.
    Stdin,
    /// A non-empty path.
    Path(String),
}

/// Where an exported document goes.
#[derive(Debug, Clone)]
pub enum Output {
    /// Standard output.
    Stdout,
    /// A non-empty path.
    Path(String),
}

/// The format to export a document in.
#[derive(Debug, Copy, Clone, Eq, PartialEq, Ord, PartialOrd)]
pub enum OutputFormat {
    Pdf,
    Png,
    Svg,
    Html,
}

/// The format to emit the dependency report in.
#[derive(Debug, Default, Copy, Clone, Eq, PartialEq)]
pub enum DepsFormat {
    /// Encodes as JSON, failing for non-Unicode paths.
    #[default]
    Json,
    /// Separates paths with NULL bytes and can express all paths.
    Zero,
    /// Emits in Make format, omitting inexpressible paths.
    Make,
}

/// What parsing a `key=value` pair yields: the trimmed key and value, or a
/// message saying why the input is no such pair.
pub open spec fn spec_parse_sys_input_pair(raw: Seq<char>) -> Result<
    (Seq<char>, Seq<char>),
    Seq<char>,
> {
    let i = spec_first_at(raw, '=');
    if i >= raw.len() {
        Err("input must be a key and a value separated by an equal sign"@)
    } else {
        let key = spec_trim(raw.take(i));
        let val = spec_trim(raw.skip(i + 1));
        if key.len() == 0 {
            Err("the key was missing or empty"@)
        } else {
            Ok((key, val))
        }
    }
}

/// Parses a string key-value pair separated by the first equal sign, with
/// white space around key and value removed; the key must not end up empty.
pub fn parse_sys_input_pair(raw: &str) -> (r: Result<(String, String), String>)
    ensures
        (r matches Ok(kv) ==> spec_parse_sys_input_pair(raw@) == Ok::<
            (Seq<char>, Seq<char>),
            Seq<char>,
        >((kv.0@, kv.1@))),
        (r matches Err(e) ==> spec_parse_sys_input_pair(raw@) matches Err(m) && m == e@),
{
    let v = chars_of(raw);
    let n: usize = v.len();
    let mut i: usize = 0;
    while i < n && v[i] != '='
        invariant
            0 <= i <= n,
            n == v.len(),
            v@ == raw@,
            forall|j: int| 0 <= j < i ==> v@[j] != '=',
        decreases n - i,
    {
        i += 1;
    }
    proof {
        lemma_first_at_is(raw@, '=', i as int);
    }
    if i == n {
        return Err("input must be a key and a value separated by an equal sign".to_owned());
    }
    let key = trim_range(&v, 0, i);
    let val = trim_range(&v, i + 1, n);
    proof {
        assert(v@.subrange(0, i as int) =~= raw@.take(i as int));
        assert(v@.subrange(i + 1, n as int) =~= raw@.skip(i + 1));
    }
    if key.as_str().is_empty() {
        return Err("the key was missing or empty".to_owned());
    }
    Ok((key, val))
}

/// Parses a document creation timestamp: a decimal count of seconds since
/// the epoch that must fall within the supported calendar range.
pub fn parse_source_date_epoch(raw: &str) -> (r: Result<i64, String>)
    ensures
        (r matches Ok(t) ==> spec_parse_i64(raw@) == Some(t as int)
            && crate::date::spec_datetime_at(t as int) is Some),
        (r matches Err(e) ==> {
            ||| (spec_parse_i64(raw@) is None && e@ == "timestamp must be decimal integer"@)
            ||| {
                &&& spec_parse_i64(raw@) matches Some(v)
                &&& crate::date::spec_datetime_at(v) is None
                &&& e@ == "timestamp out of range"@
            }
        }),
{
    match parse_i64(raw) {
        None => Err("timestamp must be decimal integer".to_owned()),
        Some(t) => match crate::date::datetime_at(t) {
            Some(_) => Ok(t),
            None => Err("timestamp out of range".to_owned()),
        },
    }
}

} // verus!
