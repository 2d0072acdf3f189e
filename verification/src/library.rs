//! Requests to the project library.
//!
//! A request is checked here, down to the library it goes to; the storage
//! backend carries it out.

use crate::text::{joined, signed_decimal, trim};
use vstd::prelude::*;

verus! {

/// Why a library request is refused.
#[derive(Clone, Copy, Debug, PartialEq, Eq, Structural)]
pub enum LibraryError {
    /// The storage backend is off.
    NotConfigured,
    /// The library has no location.
    NoLocation,
    /// The name is blank.
    InvalidName,
    /// The row is not named.
    InvalidUuid,
    /// The row is not named, or its new name is blank.
    InvalidUuidOrName,
}

/// The text an error is reported with.
pub open spec fn library_message(e: LibraryError) -> Seq<char> {
    match e {
        LibraryError::NotConfigured => "the project library is not configured"@,
        LibraryError::NoLocation => "the project library path does not resolve"@,
        LibraryError::InvalidName => "invalid name"@,
        LibraryError::InvalidUuid => "invalid uuid"@,
        LibraryError::InvalidUuidOrName => "invalid uuid or name"@,
    }
}

impl LibraryError {
    /// The text the error is reported with.
    pub fn message(&self) -> (r: &'static str)
        ensures
            r@ == library_message(*self),
    {
        match *self {
            LibraryError::NotConfigured => "the project library is not configured",
            LibraryError::NoLocation => "the project library path does not resolve",
            LibraryError::InvalidName => "invalid name",
            LibraryError::InvalidUuid => "invalid uuid",
            LibraryError::InvalidUuidOrName => "invalid uuid or name",
        }
    }
}

/// The storage configuration: whether it is on, and where the library is.
#[derive(Debug)]
pub struct Storage {
    pub enabled: bool,
    pub location: Option<String>,
}

impl Storage {
    /// Where the library is, when requests can go there.
    pub open spec fn target(&self) -> Result<Seq<char>, LibraryError> {
        if !self.enabled {
            Err(LibraryError::NotConfigured)
        } else {
            match self.location {
                None => Err(LibraryError::NoLocation),
                Some(uri) => Ok(uri@),
            }
        }
    }
}

/// Whether `r` is `e` with a text for its characters.
pub open spec fn same_outcome(
    r: Result<String, LibraryError>,
    e: Result<Seq<char>, LibraryError>,
) -> bool {
    match e {
        Ok(s) => r is Ok && r.unwrap()@ == s,
        Err(err) => r == Err::<String, LibraryError>(err),
    }
}

/// Where the library is.
pub fn library(storage: &Storage) -> (r: Result<String, LibraryError>)
    ensures
        same_outcome(r, storage.target()),
{
    if !storage.enabled {
        return Err(LibraryError::NotConfigured);
    }
    match &storage.location {
        None => Err(LibraryError::NoLocation),
        Some(uri) => Ok(uri.clone()),
    }
}

/// The address of one row of the library.
pub fn project_uri(uri: &str, uuid: &str) -> (r: String)
    ensures
        r@ == uri@ + "?project="@ + uuid@,
{
    joined(joined(uri, "?project=").as_str(), uuid)
}

/// Where to list the rows from; nowhere, which makes an empty list, with
/// storage off.
pub fn library_list(storage: &Storage) -> (r: Result<Option<String>, LibraryError>)
    ensures
        if !storage.enabled {
            r == Ok::<Option<String>, LibraryError>(None)
        } else {
            match storage.target() {
                Ok(uri) => r is Ok && r.unwrap() is Some && r.unwrap().unwrap()@ == uri,
                Err(e) => r == Err::<Option<String>, LibraryError>(e),
            }
        },
{
    if !storage.enabled {
        return Ok(None);
    }
    match library(storage) {
        Ok(uri) => Ok(Some(uri)),
        Err(e) => Err(e),
    }
}

/// Where to create a row named `name`.
pub fn library_create(storage: &Storage, name: &str) -> (r: Result<String, LibraryError>)
    ensures
        same_outcome(
            r,
            if crate::text::trimmed(name@).len() == 0 {
                Err(LibraryError::InvalidName)
            } else {
                storage.target()
            },
        ),
{
    if trim(name).as_str().is_empty() {
        return Err(LibraryError::InvalidName);
    }
    library(storage)
}

/// Where the row `uuid` is, for a request that takes nothing else: delete,
/// duplicate and export.
pub fn library_row(storage: &Storage, uuid: &str) -> (r: Result<String, LibraryError>)
    ensures
        same_outcome(
            r,
            if uuid@.len() == 0 {
                Err(LibraryError::InvalidUuid)
            } else {
                storage.target()
            },
        ),
{
    if uuid.is_empty() {
        return Err(LibraryError::InvalidUuid);
    }
    library(storage)
}

/// Where to delete the row `uuid`.
pub fn library_delete(storage: &Storage, uuid: &str) -> (r: Result<String, LibraryError>)
    ensures
        same_outcome(
            r,
            if uuid@.len() == 0 {
                Err(LibraryError::InvalidUuid)
            } else {
                storage.target()
            },
        ),
{
    library_row(storage, uuid)
}

/// Where to duplicate the row `uuid`.
pub fn library_duplicate(storage: &Storage, uuid: &str) -> (r: Result<String, LibraryError>)
    ensures
        same_outcome(
            r,
            if uuid@.len() == 0 {
                Err(LibraryError::InvalidUuid)
            } else {
                storage.target()
            },
        ),
{
    library_row(storage, uuid)
}

/// Where to export the row `uuid` from.
pub fn library_export(storage: &Storage, uuid: &str) -> (r: Result<String, LibraryError>)
    ensures
        same_outcome(
            r,
            if uuid@.len() == 0 {
                Err(LibraryError::InvalidUuid)
            } else {
                storage.target()
            },
        ),
{
    library_row(storage, uuid)
}

/// Where to rename the row `uuid`, and the name it gets: without the white
/// space around it.
pub fn library_rename(storage: &Storage, uuid: &str, name: &str) -> (r: Result<
    (String, String),
    LibraryError,
>)
    ensures
        if uuid@.len() == 0 || crate::text::trimmed(name@).len() == 0 {
            r == Err::<(String, String), LibraryError>(LibraryError::InvalidUuidOrName)
        } else {
            match storage.target() {
                Ok(uri) => r is Ok && r.unwrap().0@ == uri && r.unwrap().1@
                    == crate::text::trimmed(name@),
                Err(e) => r == Err::<(String, String), LibraryError>(e),
            }
        },
{
    let new_name: String = trim(name);
    if uuid.is_empty() || new_name.as_str().is_empty() {
        return Err(LibraryError::InvalidUuidOrName);
    }
    match library(storage) {
        Ok(uri) => Ok((uri, new_name)),
        Err(e) => Err(e),
    }
}

/// The address to open the row `uuid` from.
pub fn library_open(storage: &Storage, uuid: &str) -> (r: Result<String, LibraryError>)
    ensures
        same_outcome(
            r,
            if uuid@.len() == 0 {
                Err(LibraryError::InvalidUuid)
            } else {
                match storage.target() {
                    Ok(uri) => Ok(uri + "?project="@ + uuid@),
                    Err(e) => Err(e),
                }
            },
        ),
{
    if uuid.is_empty() {
        return Err(LibraryError::InvalidUuid);
    }
    match library(storage) {
        Ok(uri) => Ok(project_uri(uri.as_str(), uuid)),
        Err(e) => Err(e),
    }
}

/// The text for a load that came back without a project.
pub fn missing_project_message(uuid: &str, info_code: i64) -> (r: String)
    ensures
        r@ == "library load of "@ + uuid@ + " returned no project (info code "@
            + crate::text::signed_text(info_code as int) + ")"@,
{
    let head: String = joined(
        joined("library load of ", uuid).as_str(),
        " returned no project (info code ",
    );
    joined(joined(head.as_str(), signed_decimal(info_code).as_str()).as_str(), ")")
}

/// The figures of a row.
#[derive(Clone, Copy, Debug, PartialEq, Eq, Structural)]
pub struct ProjectStats {
    pub duration_ms: i64,
    pub track_count: i64,
    pub clip_count: i64,
    pub footage_count: i64,
}

/// The figures shown for a row: all zero when there are none.
pub fn stats_or_none(stats: Option<ProjectStats>) -> (r: ProjectStats)
    ensures
        r == (match stats {
            Some(s) => s,
            None => ProjectStats {
                duration_ms: 0,
                track_count: 0,
                clip_count: 0,
                footage_count: 0,
            },
        }),
{
    match stats {
        Some(s) => s,
        None => ProjectStats { duration_ms: 0, track_count: 0, clip_count: 0, footage_count: 0 },
    }
}

} // verus!
