//! The error taxonomy: a positional per-line parse failure, and a wrapping
//! error for whole-file parsing.
//!
//! Every failure path of the line parser maps to exactly one variant of
//! [`LineError`], partitioned by the field position it describes.  Two
//! catch-all variants wrap a failed line read (classified by OS error kind)
//! and a failed integer conversion.

use vstd::prelude::*;
use vstd::string::StringExecFns;

use crate::text::is_prefix;

verus! {

#[verifier::external_type_specification]
#[verifier::external_body]
pub struct ExParseIntError(std::num::ParseIntError);

#[verifier::external_type_specification]
#[verifier::external_body]
pub struct ExErrorKind(std::io::ErrorKind);

#[verifier::external_type_specification]
#[verifier::external_body]
pub struct ExIoError(std::io::Error);

/// Relies on the derived `Clone` of `std::num::ParseIntError`, which copies
/// the error kind and so returns an equal value.
pub assume_specification[ <std::num::ParseIntError as Clone>::clone ](
    e: &std::num::ParseIntError,
) -> (r: std::num::ParseIntError)
    ensures
        r == *e,
;

/// Relies on the derived `Clone` of `std::io::ErrorKind`, a `Copy` enum, so
/// the clone is the value itself.
pub assume_specification[ <std::io::ErrorKind as Clone>::clone ](
    k: &std::io::ErrorKind,
) -> (r: std::io::ErrorKind)
    ensures
        r == *k,
;

/// Error for whole-file parsing: a rendered description of what went wrong.
#[derive(Debug)]
pub struct ParseError {
    desc: String,
}

impl View for ParseError {
    type V = Seq<char>;

    closed spec fn view(&self) -> Seq<char> {
        self.desc@
    }
}

impl ParseError {
    pub fn new(detail: String) -> (r: ParseError)
        ensures
            r@ == "Mount parsing: "@ + detail@,
    {
        ParseError { desc: "Mount parsing: ".to_owned().concat(detail.as_str()) }
    }

    /// The rendered description of this error.
    pub fn description(&self) -> (r: &str)
        ensures
            r@ == self@,
    {
        self.desc.as_str()
    }

    /// Wrap a failure to read the underlying mounts file.
    pub fn from_io_error(err: std::io::Error) -> (r: ParseError)
        ensures
            exists|t: Seq<char>|
                r@ == "Mount parsing: "@ + "Failed to read the mounts file: "@ + t,
    {
        let text = io_error_text(&err);
        let r = ParseError::new("Failed to read the mounts file: ".to_owned().concat(
            text.as_str(),
        ));
        proof {
            assert(r@ =~= "Mount parsing: "@ + "Failed to read the mounts file: "@ + text@);
        }
        r
    }
}

/// Relies on the `Display` rendering of `std::io::Error` for diagnostics;
/// nothing is assumed about the text.
#[verifier::external_body]
fn io_error_text(err: &std::io::Error) -> String {
    format!("{}", err)
}

/// One line's parse failure, naming the field position that failed.
///
/// The first group of variants describes the classic six-field mount-table
/// layout; the second group describes the eleven-field layout handled by
/// [`crate::MountEntry`]; the last two wrap a failed line read and a failed
/// integer conversion.
#[derive(Clone, Debug, PartialEq)]
pub enum LineError {
    MissingSpec,
    MissingFile,
    InvalidFilePath(String),
    InvalidFile(String),
    MissingVfstype,
    MissingMntops,
    MissingFreq,
    InvalidFreq(String),
    MissingPassno,
    InvalidPassno(String),
    MissingMountId,
    MissingParentId,
    MissingDevId,
    InvalidDevId(String),
    MissingRoot,
    MissingMountPoint,
    InvalidMountPoint(String),
    MissingMountOpts,
    InvalidTag(String),
    MissingSeparator,
    MissingFileSystem,
    MissingMountSource,
    MissingSuperOpts,
    IoError(std::io::ErrorKind),
    ParseIntError(std::num::ParseIntError),
}

/// A [`LineError`] at the level of the mathematical model: strings become
/// character sequences, the opaque payloads are carried as they are.
pub ghost enum ErrModel {
    MissingSpec,
    MissingFile,
    InvalidFilePath(Seq<char>),
    InvalidFile(Seq<char>),
    MissingVfstype,
    MissingMntops,
    MissingFreq,
    InvalidFreq(Seq<char>),
    MissingPassno,
    InvalidPassno(Seq<char>),
    MissingMountId,
    MissingParentId,
    MissingDevId,
    InvalidDevId(Seq<char>),
    MissingRoot,
    MissingMountPoint,
    InvalidMountPoint(Seq<char>),
    MissingMountOpts,
    InvalidTag(Seq<char>),
    MissingSeparator,
    MissingFileSystem,
    MissingMountSource,
    MissingSuperOpts,
    Io(std::io::ErrorKind),
    ParseInt(std::num::ParseIntError),
}

pub open spec fn err_view(e: LineError) -> ErrModel {
    match e {
        LineError::MissingSpec => ErrModel::MissingSpec,
        LineError::MissingFile => ErrModel::MissingFile,
        LineError::InvalidFilePath(f) => ErrModel::InvalidFilePath(f@),
        LineError::InvalidFile(f) => ErrModel::InvalidFile(f@),
        LineError::MissingVfstype => ErrModel::MissingVfstype,
        LineError::MissingMntops => ErrModel::MissingMntops,
        LineError::MissingFreq => ErrModel::MissingFreq,
        LineError::InvalidFreq(f) => ErrModel::InvalidFreq(f@),
        LineError::MissingPassno => ErrModel::MissingPassno,
        LineError::InvalidPassno(f) => ErrModel::InvalidPassno(f@),
        LineError::MissingMountId => ErrModel::MissingMountId,
        LineError::MissingParentId => ErrModel::MissingParentId,
        LineError::MissingDevId => ErrModel::MissingDevId,
        LineError::InvalidDevId(s) => ErrModel::InvalidDevId(s@),
        LineError::MissingRoot => ErrModel::MissingRoot,
        LineError::MissingMountPoint => ErrModel::MissingMountPoint,
        LineError::InvalidMountPoint(s) => ErrModel::InvalidMountPoint(s@),
        LineError::MissingMountOpts => ErrModel::MissingMountOpts,
        LineError::InvalidTag(s) => ErrModel::InvalidTag(s@),
        LineError::MissingSeparator => ErrModel::MissingSeparator,
        LineError::MissingFileSystem => ErrModel::MissingFileSystem,
        LineError::MissingMountSource => ErrModel::MissingMountSource,
        LineError::MissingSuperOpts => ErrModel::MissingSuperOpts,
        LineError::IoError(k) => ErrModel::Io(k),
        LineError::ParseIntError(e) => ErrModel::ParseInt(e),
    }
}

/// What the rendered message of a failure must look like: the exact text for
/// every structural variant, and the exact prefix for the two variants whose
/// payload renders through an opaque standard-library formatter.
pub open spec fn message_ok(e: LineError, m: Seq<char>) -> bool {
    match e {
        LineError::MissingSpec => m == "Line parsing: Missing field #1 (spec)"@,
        LineError::MissingFile => m == "Line parsing: Missing field #2 (file)"@,
        LineError::InvalidFilePath(f) => m == "Line parsing: Bad field #2 (file) value (not absolute path): "@
            + f@,
        LineError::InvalidFile(f) => m == "Line parsing: Bad field #2 (file) value: "@ + f@,
        LineError::MissingVfstype => m == "Line parsing: Missing field #3 (vfstype)"@,
        LineError::MissingMntops => m == "Line parsing: Missing field #4 (mntops)"@,
        LineError::MissingFreq => m == "Line parsing: Missing field #5 (freq)"@,
        LineError::InvalidFreq(f) => m == "Line parsing: Bad field #5 (dump) value: "@ + f@,
        LineError::MissingPassno => m == "Line parsing: Missing field #6 (passno)"@,
        LineError::InvalidPassno(f) => m == "Line parsing: Bad field #6 (passno) value: "@ + f@,
        LineError::MissingMountId => m == "Line parsing: Missing field #1 (mount id)"@,
        LineError::MissingParentId => m == "Line parsing: Missing field #2 (parent id)"@,
        LineError::MissingDevId => m == "Line parsing: Missing field #3 (dev id)"@,
        LineError::InvalidDevId(s) => m == "Line parsing: Invalid field #3 (dev id): "@ + s@,
        LineError::MissingRoot => m == "Line parsing: Missing field #4 (root)"@,
        LineError::MissingMountPoint => m == "Line parsing: Missing field #5 (mount point)"@,
        LineError::InvalidMountPoint(s) => m == "Line parsing: Invalid field #5 (mount point): "@
            + s@,
        LineError::MissingMountOpts => m == "Line parsing: Missing field #6 (mount opts)"@,
        LineError::InvalidTag(s) => m == "Line parsing: Invalid field #7 (mount opts): "@ + s@,
        LineError::MissingSeparator => m == "Line parsing: Missing field #8 (separator)"@,
        LineError::MissingFileSystem => m == "Line parsing: Missing field #9 (filesystem)"@,
        LineError::MissingMountSource => m == "Line parsing: Missing field #10 (mount source)"@,
        LineError::MissingSuperOpts => m == "Line parsing: Missing field #11 (super opts)"@,
        LineError::IoError(_) => is_prefix("Line parsing: read line failed, "@, m),
        LineError::ParseIntError(_) => is_prefix("Line parsing: Invalid integer, "@, m),
    }
}

impl LineError {
    /// Render the human-readable diagnostic, naming the 1-based field number
    /// and a human name for the field.
    pub fn message(&self) -> (r: String)
        ensures
            message_ok(*self, r@),
    {
        match self {
            LineError::MissingSpec => "Line parsing: Missing field #1 (spec)".to_owned(),
            LineError::MissingFile => "Line parsing: Missing field #2 (file)".to_owned(),
            LineError::InvalidFilePath(f) => "Line parsing: Bad field #2 (file) value (not absolute path): ".to_owned().concat(f.as_str()),
            LineError::InvalidFile(f) => "Line parsing: Bad field #2 (file) value: ".to_owned().concat(f.as_str()),
            LineError::MissingVfstype => "Line parsing: Missing field #3 (vfstype)".to_owned(),
            LineError::MissingMntops => "Line parsing: Missing field #4 (mntops)".to_owned(),
            LineError::MissingFreq => "Line parsing: Missing field #5 (freq)".to_owned(),
            LineError::InvalidFreq(f) => "Line parsing: Bad field #5 (dump) value: ".to_owned().concat(f.as_str()),
            LineError::MissingPassno => "Line parsing: Missing field #6 (passno)".to_owned(),
            LineError::InvalidPassno(f) => "Line parsing: Bad field #6 (passno) value: ".to_owned().concat(f.as_str()),
            LineError::MissingMountId => "Line parsing: Missing field #1 (mount id)".to_owned(),
            LineError::MissingParentId => "Line parsing: Missing field #2 (parent id)".to_owned(),
            LineError::MissingDevId => "Line parsing: Missing field #3 (dev id)".to_owned(),
            LineError::InvalidDevId(s) => "Line parsing: Invalid field #3 (dev id): ".to_owned().concat(s.as_str()),
            LineError::MissingRoot => "Line parsing: Missing field #4 (root)".to_owned(),
            LineError::MissingMountPoint => "Line parsing: Missing field #5 (mount point)".to_owned(),
            LineError::InvalidMountPoint(s) => "Line parsing: Invalid field #5 (mount point): ".to_owned().concat(s.as_str()),
            LineError::MissingMountOpts => "Line parsing: Missing field #6 (mount opts)".to_owned(),
            LineError::InvalidTag(s) => "Line parsing: Invalid field #7 (mount opts): ".to_owned().concat(s.as_str()),
            LineError::MissingSeparator => "Line parsing: Missing field #8 (separator)".to_owned(),
            LineError::MissingFileSystem => "Line parsing: Missing field #9 (filesystem)".to_owned(),
            LineError::MissingMountSource => "Line parsing: Missing field #10 (mount source)".to_owned(),
            LineError::MissingSuperOpts => "Line parsing: Missing field #11 (super opts)".to_owned(),
            LineError::IoError(k) => {
                let r = "Line parsing: read line failed, ".to_owned().concat(
                    kind_text(k).as_str(),
                );
                proof {
                    assert(r@.subrange(0, "Line parsing: read line failed, "@.len() as int)
                        =~= "Line parsing: read line failed, "@);
                }
                r
            },
            LineError::ParseIntError(e) => {
                let r = "Line parsing: Invalid integer, ".to_owned().concat(
                    int_error_text(e).as_str(),
                );
                proof {
                    assert(r@.subrange(0, "Line parsing: Invalid integer, "@.len() as int)
                        =~= "Line parsing: Invalid integer, "@);
                }
                r
            },
        }
    }
}

/// Relies on the `Debug` rendering of `std::io::ErrorKind` for diagnostics;
/// nothing is assumed about the text.
#[verifier::external_body]
fn kind_text(k: &std::io::ErrorKind) -> String {
    format!("{:?}", k)
}

/// Relies on the `Display` rendering of `std::num::ParseIntError` for
/// diagnostics; nothing is assumed about the text.
#[verifier::external_body]
fn int_error_text(e: &std::num::ParseIntError) -> String {
    format!("{}", e)
}

} // verus!
