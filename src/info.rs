//! The record of one listed entry, built from what the platform reports of it.

use vstd::prelude::*;
use crate::mode::{format_mode, mode_text, Permissions};
use crate::size::{format_size, size_text};
use crate::text::{decimal, decimal_string};
use crate::time::{local_time_of, representable, LocalTime, Timestamp};

verus! {

/// Numeric user and group ids of an entry.
#[derive(Clone, Copy, Debug, PartialEq, Eq, Structural)]
pub struct OwnerIds {
    pub uid: u32,
    pub gid: u32,
}

/// What the platform reports of an entry, as plain values.
#[derive(Clone, Copy, Debug, PartialEq, Eq, Structural)]
pub struct RawMetadata {
    pub is_dir: bool,
    pub len: u64,
    pub permissions: Permissions,
    /// Numeric user and group ids, where the platform has them.
    pub ids: Option<OwnerIds>,
    /// `None` where the platform or file system does not record it.
    pub created: Option<Timestamp>,
    pub modified: Option<Timestamp>,
}

/// An entry of a directory whose metadata could be read.
#[derive(Clone, Debug)]
pub struct RawEntry {
    pub name: String,
    pub metadata: RawMetadata,
}

/// Owner and group of an entry, as decimal ids.
#[derive(Clone, Debug)]
pub struct Ownership {
    pub owner: String,
    pub group: String,
}

/// The listed record of one entry.
#[derive(Clone, Debug)]
pub struct FileInfo {
    pub filename: String,
    /// "file" or "directory".
    pub file_type: String,
    /// The size as text, see `format_size`.
    pub size: String,
    pub ownership: Option<Ownership>,
    pub mode: String,
    pub created: LocalTime,
    pub modified: LocalTime,
}

/// Why no record could be built for an entry.
#[derive(Clone, Copy, Debug, PartialEq, Eq, Structural)]
pub enum InfoError {
    /// The creation or modification time is not recorded.
    MissingTimestamp,
    /// A timestamp lies outside the dates that can be shown.
    TimestampOutOfRange,
}

/// The text of an entry's type.
pub open spec fn type_text(is_dir: bool) -> Seq<char> {
    if is_dir { "directory"@ } else { "file"@ }
}

/// `o` holds the ids `ids` in decimal, and is absent exactly where they are.
pub open spec fn ownership_of(o: Option<Ownership>, ids: Option<OwnerIds>) -> bool {
    match (o, ids) {
        (None, None) => true,
        (Some(o), Some(ids)) => o.owner@ == decimal(ids.uid as nat) && o.group@ == decimal(ids.gid as nat),
        _ => false,
    }
}

/// `info` is the record of an entry named `name` with metadata `m`, all but
/// its two times.
pub open spec fn describes(info: FileInfo, name: Seq<char>, m: RawMetadata) -> bool {
    &&& info.filename@ == name
    &&& info.file_type@ == type_text(m.is_dir)
    &&& info.size@ == size_text(m.len as nat)
    &&& info.mode@ == mode_text(m.permissions)
    &&& ownership_of(info.ownership, m.ids)
}

/// Builds the record of an entry from its metadata and its two times, already
/// in local time.
pub fn build_file_info(
    file_name: String,
    metadata: &RawMetadata,
    created: LocalTime,
    modified: LocalTime,
) -> (r: FileInfo)
    ensures
        describes(r, file_name@, *metadata),
        r.created == created,
        r.modified == modified,
{
    let file_type = if metadata.is_dir {
        String::from_str("directory")
    } else {
        String::from_str("file")
    };
    let ownership = match metadata.ids {
        Some(ids) => Some(Ownership {
            owner: decimal_string(ids.uid as u64),
            group: decimal_string(ids.gid as u64),
        }),
        None => None,
    };
    FileInfo {
        filename: file_name,
        file_type,
        size: format_size(metadata.len),
        ownership,
        mode: format_mode(metadata.permissions),
        created,
        modified,
    }
}

/// Why no record can be built from `m`, if any: a time not recorded, or
/// else one outside the dates that can be shown.
pub open spec fn record_error(m: RawMetadata) -> Option<InfoError> {
    match (m.created, m.modified) {
        (Some(c), Some(d)) => if representable(c) && representable(d) {
            None
        } else {
            Some(InfoError::TimestampOutOfRange)
        },
        _ => Some(InfoError::MissingTimestamp),
    }
}

/// Builds the record of an entry, its times converted to local time. Fails
/// with `MissingTimestamp` where a time is not recorded, and otherwise with
/// `TimestampOutOfRange` where one cannot be shown as a date.
pub fn get_file_info(file_name: String, metadata: &RawMetadata) -> (r: Result<FileInfo, InfoError>)
    ensures
        match record_error(*metadata) {
            Some(e) => r == Err::<FileInfo, InfoError>(e),
            None => r matches Ok(info) && describes(info, file_name@, *metadata)
                && info.created.wf() && info.modified.wf(),
        },
{
    let (c, m) = match (metadata.created, metadata.modified) {
        (Some(c), Some(m)) => (c, m),
        _ => return Err(InfoError::MissingTimestamp),
    };
    let created = match local_time_of(c) {
        Some(t) => t,
        None => return Err(InfoError::TimestampOutOfRange),
    };
    let modified = match local_time_of(m) {
        Some(t) => t,
        None => return Err(InfoError::TimestampOutOfRange),
    };
    Ok(build_file_info(file_name, metadata, created, modified))
}

/// The entries whose metadata could be read, in order.
pub open spec fn readable(children: Seq<Option<RawEntry>>) -> Seq<RawEntry>
    decreases children.len(),
{
    if children.len() == 0 {
        seq![]
    } else {
        let rest = readable(children.drop_last());
        match children.last() {
            Some(e) => rest.push(e),
            None => rest,
        }
    }
}

/// The error of the first entry of `entries` of which no record can be built.
pub open spec fn first_error(entries: Seq<RawEntry>) -> Option<InfoError>
    decreases entries.len(),
{
    if entries.len() == 0 {
        None
    } else {
        match first_error(entries.drop_last()) {
            Some(e) => Some(e),
            None => record_error(entries.last().metadata),
        }
    }
}

proof fn lemma_first_error_prefix(s: Seq<Option<RawEntry>>, j: int)
    requires
        0 <= j <= s.len(),
        first_error(readable(s.take(j))) is Some,
    ensures
        first_error(readable(s)) == first_error(readable(s.take(j))),
    decreases s.len(),
{
    if j == s.len() {
        assert(s.take(j) =~= s);
    } else {
        assert(s.drop_last().take(j) =~= s.take(j));
        lemma_first_error_prefix(s.drop_last(), j);
        match s.last() {
            Some(e) => assert(readable(s).drop_last() =~= readable(s.drop_last())),
            None => {},
        }
    }
}

/// Builds the records of a directory's children in enumeration order,
/// skipping those whose metadata could not be read (`None`). Where a readable
/// child has no record, fails with the error of the first such child;
/// otherwise (with no readable child too) there is one record per readable
/// child, in the same order.
pub fn collect_entries(children: Vec<Option<RawEntry>>) -> (r: Result<Vec<FileInfo>, InfoError>)
    ensures
        match first_error(readable(children@)) {
            Some(e) => r == Err::<Vec<FileInfo>, InfoError>(e),
            None => r matches Ok(v) && v@.len() == readable(children@).len() && forall|k: int|
                0 <= k < v@.len() ==> describes(#[trigger] v@[k], readable(children@)[k].name@,
                    readable(children@)[k].metadata) && v@[k].created.wf() && v@[k].modified.wf(),
        },
{
    let mut out: Vec<FileInfo> = Vec::new();
    let mut i: usize = 0;
    while i < children.len()
        invariant
            i <= children@.len(),
            first_error(readable(children@.take(i as int))) is None,
            out@.len() == readable(children@.take(i as int)).len(),
            forall|k: int| 0 <= k < out@.len() ==> describes(#[trigger] out@[k],
                readable(children@.take(i as int))[k].name@,
                readable(children@.take(i as int))[k].metadata) && out@[k].created.wf()
                && out@[k].modified.wf(),
        decreases children@.len() - i,
    {
        assert(children@.take(i + 1).drop_last() =~= children@.take(i as int));
        match &children[i] {
            Some(e) => {
                assert(readable(children@.take(i + 1)).drop_last() =~= readable(children@.take(i as int)));
                match get_file_info(e.name.clone(), &e.metadata) {
                    Ok(info) => out.push(info),
                    Err(err) => {
                        proof { lemma_first_error_prefix(children@, i + 1); }
                        return Err(err);
                    },
                }
            },
            None => {},
        }
        i = i + 1;
    }
    assert(children@.take(children@.len() as int) =~= children@);
    Ok(out)
}

} // verus!
