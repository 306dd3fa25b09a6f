//! Re-rendering the readmes of published versions: which versions, in which
//! pages, and which file of a package is its readme.

use vstd::prelude::*;
use vstd::string::StringExecFns;
use crate::job::text_of;

verus! {

/// The user agent with which packages are fetched.
pub const USER_AGENT: &'static str = "crates-admin";

/// How many versions are processed at a time unless the options say else.
pub const DEFAULT_PAGE_SIZE: usize = 25;

/// The shape of the `--older-than` argument: a date, a space and a time.
pub const OLDER_THAN_FORMAT: &'static str = "%F %T";

/// The readme of a package whose manifest names none.
pub const DEFAULT_README: &'static str = "README.md";

/// The options of the command.
#[derive(Clone, Debug)]
pub struct Opts {
    /// How many versions are queried and processed at a time.
    pub page_size: usize,
    /// Only readmes rendered before this date and time are rendered again.
    pub older_than: Option<String>,
    /// Only readmes of this crate are rendered.
    pub crate_name: Option<String>,
}

/// Why the options cannot be used.
#[derive(Clone, Copy, Debug, PartialEq, Eq, Structural)]
pub enum OptsError {
    /// The `--older-than` argument is not a date and time.
    InvalidOlderThan,
}

/// What the `--older-than` argument came to.
#[derive(Clone, Copy, Debug, PartialEq, Eq, Structural)]
pub enum OlderThan {
    /// No argument was given.
    Absent,
    /// The argument is this instant, in seconds since the Unix epoch.
    Instant(i64),
    /// The argument is not a date and time.
    Unparseable,
}

/// The instant that `chrono` reads out of `text` under the format `format`,
/// taken as UTC, in seconds since the Unix epoch; `None` where it refuses
/// the text.
pub uninterp spec fn parsed_datetime(text: Seq<char>, format: Seq<char>) -> Option<i64>;

/// Why `chrono` refused a text; carried from the parser to its caller and
/// never looked into.
#[verifier::external_type_specification]
#[verifier::external_body]
pub struct ExParseError(chrono::ParseError);

/// Parses `text` with `chrono::NaiveDateTime::parse_from_str` under the
/// format `format`, and reads the date and time as UTC.
///
/// Trusted, not proved. The contract only names the outcome: which texts
/// `chrono` accepts, and as which instant, is not stated here.
#[verifier::external_body]
fn parse_datetime(text: &str, format: &str) -> (parsed: Result<i64, chrono::ParseError>)
    ensures
        match parsed {
            Ok(instant) => parsed_datetime(text@, format@) == Some(instant),
            Err(_) => parsed_datetime(text@, format@).is_none(),
        },
{
    chrono::NaiveDateTime::parse_from_str(text, format).map(|time| time.and_utc().timestamp())
}

/// What the argument `older_than` comes to, read as a date and time.
pub open spec fn older_than_of(older_than: Option<Seq<char>>) -> OlderThan {
    match older_than {
        None => OlderThan::Absent,
        Some(text) => match parsed_datetime(text, OLDER_THAN_FORMAT@) {
            Some(instant) => OlderThan::Instant(instant),
            None => OlderThan::Unparseable,
        },
    }
}

/// The instant before which a readme must have been rendered to be rendered
/// again: the one given, or else the start of the run.
pub fn cutoff_of(older_than: OlderThan, start_time: i64) -> (cutoff: Result<i64, OptsError>)
    ensures
        cutoff == match older_than {
            OlderThan::Absent => Ok::<i64, OptsError>(start_time),
            OlderThan::Instant(instant) => Ok::<i64, OptsError>(instant),
            OlderThan::Unparseable => Err::<i64, OptsError>(OptsError::InvalidOlderThan),
        },
{
    match older_than {
        OlderThan::Absent => Ok(start_time),
        OlderThan::Instant(instant) => Ok(instant),
        OlderThan::Unparseable => Err(OptsError::InvalidOlderThan),
    }
}

impl Opts {
    /// The options that the command has when it is given no argument.
    pub fn new() -> (opts: Opts)
        ensures
            opts.page_size == DEFAULT_PAGE_SIZE,
            opts.older_than.is_none(),
            opts.crate_name.is_none(),
    {
        Opts { page_size: DEFAULT_PAGE_SIZE, older_than: None, crate_name: None }
    }

    /// Reads the `--older-than` argument as a date and time.
    pub fn older_than(&self) -> (read: OlderThan)
        ensures
            read == older_than_of(text_of(self.older_than)),
    {
        match &self.older_than {
            None => OlderThan::Absent,
            Some(text) => match parse_datetime(text.as_str(), OLDER_THAN_FORMAT) {
                Ok(instant) => OlderThan::Instant(instant),
                Err(_) => OlderThan::Unparseable,
            },
        }
    }

    /// The instant before which a readme must have been rendered to be
    /// rendered again, for a run that started at `start_time`.
    pub fn cutoff(&self, start_time: i64) -> (cutoff: Result<i64, OptsError>)
        ensures
            cutoff == match older_than_of(text_of(self.older_than)) {
                OlderThan::Absent => Ok::<i64, OptsError>(start_time),
                OlderThan::Instant(instant) => Ok::<i64, OptsError>(instant),
                OlderThan::Unparseable => Err::<i64, OptsError>(OptsError::InvalidOlderThan),
            },
    {
        cutoff_of(self.older_than(), start_time)
    }
}

/// The number of pages of `page_size` versions that `total` versions fill,
/// the last one possibly in part.
pub open spec fn page_count(total: nat, page_size: nat) -> nat
    recommends
        page_size > 0,
{
    ((total + page_size - 1) / (page_size as int)) as nat
}

/// The position of the first version of the page `page`.
pub open spec fn page_start(page: nat, page_size: nat) -> nat {
    page * page_size
}

/// The position after the last version of the page `page`.
pub open spec fn page_end(page: nat, page_size: nat, total: nat) -> nat {
    if page * page_size + page_size <= total {
        page * page_size + page_size
    } else {
        total
    }
}

/// Pages follow each other without gap or overlap, none is empty, and
/// together they cover all versions.
pub proof fn lemma_pages_cover(page: nat, page_size: nat, total: nat)
    requires
        page_size > 0,
        page < page_count(total, page_size),
    ensures
        page_start(page, page_size) < page_end(page, page_size, total) <= total,
        page_end(page, page_size, total) - page_start(page, page_size) <= page_size,
        page + 1 < page_count(total, page_size) ==> page_end(page, page_size, total) == page_start(
            page + 1,
            page_size,
        ),
        page + 1 == page_count(total, page_size) ==> page_end(page, page_size, total) == total,
        page_count(total, page_size) > 0 ==> page_start(0, page_size) == 0,
{
    let count = page_count(total, page_size);
    let padded = total + page_size - 1;
    assert(padded == page_size * (padded / (page_size as int)) + padded % (page_size as int)) by {
        vstd::arithmetic::div_mod::lemma_fundamental_div_mod(padded, page_size as int);
    }
    assert(0 <= padded % (page_size as int) < page_size) by {
        vstd::arithmetic::div_mod::lemma_mod_pos_bound(padded, page_size as int);
    }
    assert(page_size * count <= padded);
    assert(padded < page_size * count + page_size);
    assert(page * page_size + page_size <= count * page_size) by (nonlinear_arith)
        requires
            page + 1 <= count,
            page_size > 0,
    ;
    assert(page_size * count == count * page_size) by (nonlinear_arith);
    assert((page + 1) * page_size == page * page_size + page_size) by (nonlinear_arith);
    if page + 1 < count {
        assert((page + 1) * page_size + page_size <= count * page_size) by (nonlinear_arith)
            requires
                page + 2 <= count,
                page_size > 0,
        ;
    }
}

/// The number of pages that `total_versions` versions fill.
pub fn total_pages(total_versions: usize, page_size: usize) -> (pages: usize)
    requires
        page_size > 0,
    ensures
        pages == page_count(total_versions as nat, page_size as nat),
{
    let full = total_versions / page_size;
    let rest = total_versions % page_size;
    proof {
        let total = total_versions as int;
        let size = page_size as int;
        assert(total == size * (total / size) + total % size) by {
            vstd::arithmetic::div_mod::lemma_fundamental_div_mod(total, size);
        }
        if rest == 0 {
            assert((total + size - 1) / size == total / size) by {
                vstd::arithmetic::div_mod::lemma_fundamental_div_mod_converse(
                    total + size - 1,
                    size,
                    total / size,
                    size - 1,
                );
            }
        } else {
            assert(total % size < size) by {
                vstd::arithmetic::div_mod::lemma_mod_pos_bound(total, size);
            }
            assert(total / size < total) by (nonlinear_arith)
                requires
                    total == size * (total / size) + total % size,
                    0 < total % size < size,
                    0 <= total / size,
            ;
            assert((total + size - 1) / size == total / size + 1) by {
                assert(size * (total / size + 1) == size * (total / size) + size)
                    by (nonlinear_arith);
                vstd::arithmetic::div_mod::lemma_fundamental_div_mod_converse(
                    total + size - 1,
                    size,
                    total / size + 1,
                    rest - 1,
                );
            }
        }
    }
    if rest == 0 {
        full
    } else {
        full + 1
    }
}

/// The positions of the versions of the page `page`: from the first one up
/// to, and without, the second one.
pub fn page_bounds(page: usize, page_size: usize, total_versions: usize) -> (bounds: (usize, usize))
    requires
        page_size > 0,
        page < page_count(total_versions as nat, page_size as nat),
    ensures
        bounds.0 == page_start(page as nat, page_size as nat),
        bounds.1 == page_end(page as nat, page_size as nat, total_versions as nat),
{
    proof {
        lemma_pages_cover(page as nat, page_size as nat, total_versions as nat);
    }
    let start = page * page_size;
    let end = if total_versions - start >= page_size {
        start + page_size
    } else {
        total_versions
    };
    (start, end)
}

/// What the manifest of a package says about its readme.
#[derive(Clone, Debug)]
pub enum ReadmeSetting {
    /// The manifest does not say, or leaves it to its workspace.
    Unset,
    /// The manifest switches the readme on or off.
    Flag(bool),
    /// The manifest names the file, relative to the package root.
    Path(String),
}

/// Where the readme of a package is, relative to the package root; `None`
/// when the manifest switches the readme off.
pub open spec fn readme_path_for(setting: ReadmeSetting) -> Option<Seq<char>> {
    match setting {
        ReadmeSetting::Flag(false) => None,
        ReadmeSetting::Path(path) => Some(path@),
        _ => Some(DEFAULT_README@),
    }
}

/// Decides which file of a package is rendered as its readme. A package
/// whose readme is switched off is rendered as the empty text.
pub fn readme_path(setting: &ReadmeSetting) -> (path: Option<String>)
    ensures
        text_of(path) == readme_path_for(*setting),
{
    match setting {
        ReadmeSetting::Flag(false) => None,
        ReadmeSetting::Path(path) => Some(path.clone()),
        _ => Some(DEFAULT_README.to_owned()),
    }
}

/// The directory name of a package inside its archive: the crate name, a
/// hyphen and the version.
pub fn package_name(crate_name: &str, version: &str) -> (name: String)
    ensures
        name@ == crate_name@ + "-"@ + version@,
{
    let mut name = crate_name.to_owned();
    name.append("-");
    name.append(version);
    name
}

/// The path of the manifest of the package `pkg_name` inside its archive.
pub fn manifest_path(pkg_name: &str) -> (path: String)
    ensures
        path@ == pkg_name@ + "/Cargo.toml"@,
{
    let mut path = pkg_name.to_owned();
    path.append("/Cargo.toml");
    path
}

/// Whether a rendered readme is stored: an empty one is not.
pub fn is_worth_uploading(rendered: &str) -> (upload: bool)
    ensures
        upload == (rendered@.len() > 0),
{
    !rendered.is_empty()
}

} // verus!
