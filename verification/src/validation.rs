//! Checks on user-supplied configuration values.

use crate::text::{append_decimal, append_millionths, decimal_text, millionths_text};
use vstd::prelude::*;
use vstd::string::*;

verus! {

/// Lowest port that may be announced; ports below it are privileged.
pub const MIN_PORT: u16 = 1024;

/// Shortest accepted update interval, in seconds.
pub const MIN_UPDATE_INTERVAL: u64 = 1;

/// Longest accepted update interval, in seconds.
pub const MAX_UPDATE_INTERVAL: u64 = 3600;

/// Highest accepted rate, in millionths of a KiB/s.
pub const MAX_RATE: i64 = 1_000_000_000_000;

/// Highest accepted percentage, in millionths of a percent.
pub const MAX_PERCENTAGE: i64 = 100_000_000;

/// Why a configuration value was refused. The bounds and the value of a
/// range are in millionths of the field's unit.
#[derive(Debug)]
pub enum ValidationError {
    InvalidPath(String),
    InvalidFileExtension(String),
    InvalidRange { field: String, min: i64, max: i64, value: i64 },
    InvalidPort(u16),
    MissingField(String),
}

/// The content of a [`ValidationError`].
pub enum ValidationFault {
    InvalidPath(Seq<char>),
    InvalidFileExtension(Seq<char>),
    InvalidRange { field: Seq<char>, min: i64, max: i64, value: i64 },
    InvalidPort(u16),
    MissingField(Seq<char>),
}

impl View for ValidationError {
    type V = ValidationFault;

    open spec fn view(&self) -> ValidationFault {
        match self {
            ValidationError::InvalidPath(m) => ValidationFault::InvalidPath(m@),
            ValidationError::InvalidFileExtension(e) => ValidationFault::InvalidFileExtension(e@),
            ValidationError::InvalidRange { field, min, max, value } => ValidationFault::InvalidRange {
                field: field@,
                min: *min,
                max: *max,
                value: *value,
            },
            ValidationError::InvalidPort(p) => ValidationFault::InvalidPort(*p),
            ValidationError::MissingField(f) => ValidationFault::MissingField(f@),
        }
    }
}

/// A fault as a line of text.
pub open spec fn fault_text(fault: ValidationFault) -> Seq<char> {
    match fault {
        ValidationFault::InvalidPath(m) => "Invalid path: "@ + m,
        ValidationFault::InvalidFileExtension(e) => "Invalid file extension. Expected .torrent, got: "@
            + e,
        ValidationFault::InvalidRange { field, min, max, value } => field + " must be between "@
            + millionths_text(min as int) + " and "@ + millionths_text(max as int) + ", got: "@
            + millionths_text(value as int),
        ValidationFault::InvalidPort(p) => "Invalid port number: "@ + decimal_text(p as nat)
            + ". Must be between 1024 and 65535"@,
        ValidationFault::MissingField(f) => "Missing required field: "@ + f,
    }
}

impl ValidationError {
    /// The error as a line of text.
    pub fn message(&self) -> (r: String)
        ensures
            r@ == fault_text(self@),
    {
        match self {
            ValidationError::InvalidPath(m) => {
                let mut r = String::from_str("Invalid path: ");
                r.append(m.as_str());
                r
            },
            ValidationError::InvalidFileExtension(e) => {
                let mut r = String::from_str("Invalid file extension. Expected .torrent, got: ");
                r.append(e.as_str());
                r
            },
            ValidationError::InvalidRange { field, min, max, value } => {
                let mut r = field.clone();
                r.append(" must be between ");
                append_millionths(&mut r, *min);
                r.append(" and ");
                append_millionths(&mut r, *max);
                r.append(", got: ");
                append_millionths(&mut r, *value);
                r
            },
            ValidationError::InvalidPort(p) => {
                let mut r = String::from_str("Invalid port number: ");
                append_decimal(&mut r, *p as u64);
                r.append(". Must be between 1024 and 65535");
                r
            },
            ValidationError::MissingField(f) => {
                let mut r = String::from_str("Missing required field: ");
                r.append(f.as_str());
                r
            },
        }
    }
}

/// The extension of the file that a path names: what follows the last
/// dot of its last component, if that component has a dot that is not its
/// first character.
pub uninterp spec fn path_extension(path: Seq<char>) -> Option<Seq<char>>;

/// `std::path::Path::extension`, decoded lossily: the extension of the
/// file that `path` names, which depends on the text alone.
#[verifier::external_body]
fn extension_of(path: &str) -> (r: Option<String>)
    ensures
        r.deep_view() == path_extension(path@),
{
    std::path::Path::new(path).extension().map(|e| e.to_string_lossy().into_owned())
}

/// What [`validate_torrent_path`] makes of a path, given its extension
/// and what the file system says of it: the path must exist, be a file,
/// and have the extension `torrent`.
pub open spec fn torrent_path_check(
    path: Seq<char>,
    extension: Option<Seq<char>>,
    exists: bool,
    is_file: bool,
) -> Result<Seq<char>, ValidationFault> {
    if !exists {
        Err(ValidationFault::InvalidPath("File does not exist"@))
    } else if !is_file {
        Err(ValidationFault::InvalidPath("Path is not a file"@))
    } else {
        match extension {
            Some(e) => if e == "torrent"@ {
                Ok(path)
            } else {
                Err(ValidationFault::InvalidFileExtension(e))
            },
            None => Err(ValidationFault::InvalidFileExtension("no extension"@)),
        }
    }
}

/// The outcome of a path check, as models.
pub open spec fn path_result(r: Result<String, ValidationError>) -> Result<
    Seq<char>,
    ValidationFault,
> {
    match r {
        Ok(p) => Ok(p@),
        Err(e) => Err(e@),
    }
}

/// Accepts the path of a torrent file, where `exists` and `is_file` say
/// what the file system holds at it.
pub fn validate_torrent_path(path: &str, exists: bool, is_file: bool) -> (r: Result<
    String,
    ValidationError,
>)
    ensures
        path_result(r) == torrent_path_check(path@, path_extension(path@), exists, is_file),
{
    check_torrent_path(path, extension_of(path), exists, is_file)
}

/// Accepts the path of a torrent file, given its extension and what the
/// file system holds at it.
pub fn check_torrent_path(path: &str, extension: Option<String>, exists: bool, is_file: bool) -> (r:
    Result<String, ValidationError>)
    ensures
        path_result(r) == torrent_path_check(path@, extension.deep_view(), exists, is_file),
{
    if !exists {
        return Err(ValidationError::InvalidPath(String::from_str("File does not exist")));
    }
    if !is_file {
        return Err(ValidationError::InvalidPath(String::from_str("Path is not a file")));
    }
    match extension {
        Some(e) => {
            let wanted = String::from_str("torrent");
            if e == wanted {
                Ok(String::from_str(path))
            } else {
                Err(ValidationError::InvalidFileExtension(e))
            }
        },
        None => Err(ValidationError::InvalidFileExtension(String::from_str("no extension"))),
    }
}

/// What a range check gives: the value where it lies within the bounds,
/// else the fault that names the field, the bounds and the value.
pub open spec fn range_check(value: i64, min: i64, max: i64, field: Seq<char>) -> Result<
    i64,
    ValidationFault,
> {
    if min <= value <= max {
        Ok(value)
    } else {
        Err(ValidationFault::InvalidRange { field, min, max, value })
    }
}

/// The outcome of a range check, as models.
pub open spec fn range_result(r: Result<i64, ValidationError>) -> Result<i64, ValidationFault> {
    match r {
        Ok(v) => Ok(v),
        Err(e) => Err(e@),
    }
}

/// Accepts a rate, in millionths of a KiB/s, between nothing and a
/// million KiB/s.
pub fn validate_rate(rate: i64, field_name: &str) -> (r: Result<i64, ValidationError>)
    ensures
        range_result(r) == range_check(rate, 0, MAX_RATE, field_name@),
{
    if rate < 0 || rate > MAX_RATE {
        return Err(
            ValidationError::InvalidRange {
                field: String::from_str(field_name),
                min: 0,
                max: MAX_RATE,
                value: rate,
            },
        );
    }
    Ok(rate)
}

/// Accepts a port exactly when it is not privileged.
pub fn validate_port(port: u16) -> (r: Result<u16, ValidationError>)
    ensures
        port >= MIN_PORT ==> r == Ok::<u16, ValidationError>(port),
        port < MIN_PORT ==> r == Err::<u16, ValidationError>(ValidationError::InvalidPort(port)),
{
    if port < MIN_PORT {
        return Err(ValidationError::InvalidPort(port));
    }
    Ok(port)
}

/// A number of seconds as millionths, as far as 64 bits hold them.
pub open spec fn seconds_in_millionths(secs: u64) -> i64 {
    if secs * 1_000_000 > i64::MAX {
        i64::MAX
    } else {
        (secs * 1_000_000) as i64
    }
}

/// Accepts an update interval of one second up to one hour.
pub fn validate_update_interval(interval: u64) -> (r: Result<u64, ValidationError>)
    ensures
        MIN_UPDATE_INTERVAL <= interval <= MAX_UPDATE_INTERVAL ==> r == Ok::<
            u64,
            ValidationError,
        >(interval),
        !(MIN_UPDATE_INTERVAL <= interval <= MAX_UPDATE_INTERVAL) ==> r is Err && r->Err_0@
            == (ValidationFault::InvalidRange {
            field: "update_interval"@,
            min: 1_000_000,
            max: 3_600_000_000,
            value: seconds_in_millionths(interval),
        }),
{
    if interval < MIN_UPDATE_INTERVAL || interval > MAX_UPDATE_INTERVAL {
        let value: i64 = if interval > 9_223_372_036_854u64 {
            i64::MAX
        } else {
            (interval * 1_000_000) as i64
        };
        return Err(
            ValidationError::InvalidRange {
                field: String::from_str("update_interval"),
                min: 1_000_000,
                max: 3_600_000_000,
                value,
            },
        );
    }
    Ok(interval)
}

/// Accepts a percentage, in millionths of a percent, between 0 and 100.
pub fn validate_percentage(value: i64, field_name: &str) -> (r: Result<i64, ValidationError>)
    ensures
        range_result(r) == range_check(value, 0, MAX_PERCENTAGE, field_name@),
{
    if value < 0 || value > MAX_PERCENTAGE {
        return Err(
            ValidationError::InvalidRange {
                field: String::from_str(field_name),
                min: 0,
                max: MAX_PERCENTAGE,
                value,
            },
        );
    }
    Ok(value)
}

} // verus!
