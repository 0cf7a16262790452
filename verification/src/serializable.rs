//! A directory entry as it is written to JSON or CSV.

use crate::formatter::{mode_to_octal, octal_mode};
use chrono::{SecondsFormat, TimeZone, Utc};
use vstd::prelude::*;
use vstd::string::*;

verus! {

/// The UTC time that lies `secs` seconds after the epoch, written as in RFC
/// 3339 with whole seconds and a `Z`; `None` for a time that the calendar
/// does not reach.
pub uninterp spec fn rfc3339_utc(secs: i64) -> Option<Seq<char>>;

/// Calls chrono's `Utc.timestamp_opt(secs, 0).single()` and, where there is
/// such a time, `DateTime::to_rfc3339_opts(SecondsFormat::Secs, true)`. The
/// claim: the text depends on the number of seconds alone.
#[verifier::external_body]
pub(crate) fn format_utc(secs: i64) -> (r: Option<String>)
    ensures
        match r {
            Some(t) => rfc3339_utc(secs) == Some(t@),
            None => rfc3339_utc(secs).is_none(),
        },
{
    match Utc.timestamp_opt(secs, 0).single() {
        Some(time) => Some(time.to_rfc3339_opts(SecondsFormat::Secs, true)),
        None => None,
    }
}

/// A count of seconds read as a signed number of the same 64 bits.
pub open spec fn signed(secs: u64) -> i64 {
    if secs <= i64::MAX {
        secs as i64
    } else {
        (secs - 0x1_0000_0000_0000_0000) as i64
    }
}

/// A count of seconds read as a signed number of the same 64 bits.
pub fn to_signed(secs: u64) -> (r: i64)
    ensures
        r == signed(secs),
{
    if secs <= i64::MAX as u64 {
        secs as i64
    } else {
        let back: u64 = u64::MAX - secs;
        -(back as i64) - 1
    }
}

/// The time of a time stamp that may be missing: zero stands for none.
pub open spec fn optional_time(secs: u64) -> Option<Seq<char>> {
    if secs == 0 {
        None
    } else {
        rfc3339_utc(signed(secs))
    }
}

/// The time of a time stamp that must be there: the epoch where the
/// calendar does not reach the time.
pub open spec fn required_time(secs: u64) -> Seq<char> {
    match rfc3339_utc(signed(secs)) {
        Some(t) => t,
        None => "1970-01-01T00:00:00Z"@,
    }
}

/// What an optional text holds.
pub open spec fn opt_view(t: Option<String>) -> Option<Seq<char>> {
    match t {
        Some(s) => Some(s@),
        None => None,
    }
}

/// The time of a time stamp that may be missing.
pub fn fmt_ts_opt(secs: u64) -> (r: Option<String>)
    ensures
        opt_view(r) == optional_time(secs),
{
    if secs == 0 {
        return None;
    }
    format_utc(to_signed(secs))
}

/// The time of a time stamp that must be there.
pub fn fmt_ts_required(secs: u64) -> (r: String)
    ensures
        r@ == required_time(secs),
{
    match format_utc(to_signed(secs)) {
        Some(t) => t,
        None => "1970-01-01T00:00:00Z".to_owned(),
    }
}

/// What the file system says of an entry.
#[derive(Debug, Clone, Copy, PartialEq, Eq, Structural)]
pub struct EntryMetadata {
    pub size: u64,
    pub modified: u64,
    pub accessed: u64,
    pub created: u64,
    pub is_dir: bool,
    pub is_file: bool,
    pub is_symlink: bool,
    pub permissions: u32,
    pub uid: u32,
    pub gid: u32,
}

impl Default for EntryMetadata {
    fn default() -> (r: Self)
        ensures
            r == no_metadata(),
    {
        EntryMetadata {
            size: 0,
            modified: 0,
            accessed: 0,
            created: 0,
            is_dir: false,
            is_file: false,
            is_symlink: false,
            permissions: 0,
            uid: 0,
            gid: 0,
        }
    }
}

/// The metadata of an entry of which nothing is known.
pub open spec fn no_metadata() -> EntryMetadata {
    EntryMetadata {
        size: 0,
        modified: 0,
        accessed: 0,
        created: 0,
        is_dir: false,
        is_file: false,
        is_symlink: false,
        permissions: 0,
        uid: 0,
        gid: 0,
    }
}

/// What was looked up about an entry besides its metadata.
#[derive(Debug)]
pub struct EntryFacts {
    /// The final component of the path; empty where there is none.
    pub name: String,
    /// The extension of the name.
    pub extension: Option<String>,
    pub owner_user: Option<String>,
    pub owner_group: Option<String>,
    pub inode: Option<u64>,
    pub hard_links: Option<u64>,
    /// The target recorded with the entry, if it is a link.
    pub recorded_target: Option<String>,
    /// The target the file system reports, if it is a link.
    pub read_target: Option<String>,
}

/// An entry as it is written out.
#[derive(Debug)]
pub struct SerializableEntry {
    pub path: String,
    pub name: String,
    pub extension: Option<String>,
    pub file_type: String,
    pub size_bytes: u64,
    pub modified: String,
    pub created: Option<String>,
    pub accessed: Option<String>,
    pub mode_octal: String,
    pub owner_user: Option<String>,
    pub owner_group: Option<String>,
    pub inode: Option<u64>,
    pub hard_links: Option<u64>,
    pub symlink_target: Option<String>,
    pub is_hidden: bool,
    pub git_status: Option<String>,
}

/// The kind of an entry in one word: a link before a directory before a
/// file, and `other` for anything else.
pub open spec fn kind_name(md: EntryMetadata) -> Seq<char> {
    if md.is_symlink {
        "symlink"@
    } else if md.is_dir {
        "dir"@
    } else if md.is_file {
        "file"@
    } else {
        "other"@
    }
}

/// The kind of an entry in one word.
pub fn file_type_of(md: &EntryMetadata) -> (r: &'static str)
    ensures
        r@ == kind_name(*md),
{
    if md.is_symlink {
        "symlink"
    } else if md.is_dir {
        "dir"
    } else if md.is_file {
        "file"
    } else {
        "other"
    }
}

/// Whether a name starts with a dot.
pub fn is_hidden(name: &str) -> (r: bool)
    ensures
        r == (name@.len() > 0 && name@[0] == '.'),
{
    !name.is_empty() && name.get_char(0) == '.'
}

/// The target of a link: the recorded one before the one read from the
/// file system; nothing for what is no link.
pub open spec fn link_target(md: EntryMetadata, recorded: Option<Seq<char>>, read: Option<Seq<char>>) -> Option<
    Seq<char>,
> {
    if md.is_symlink {
        if recorded.is_some() {
            recorded
        } else {
            read
        }
    } else {
        None
    }
}

/// Writes an entry out: the path, what was looked up, and the metadata in
/// the forms a reader expects.
pub fn to_serializable(
    path: &str,
    metadata: Option<EntryMetadata>,
    facts: EntryFacts,
    git_status: Option<String>,
) -> (e: SerializableEntry)
    ensures
        ({
            let md = match metadata {
                Some(m) => m,
                None => no_metadata(),
            };
            &&& e.path@ == path@
            &&& e.name@ == facts.name@
            &&& opt_view(e.extension) == opt_view(facts.extension)
            &&& e.file_type@ == kind_name(md)
            &&& e.size_bytes == md.size
            &&& e.modified@ == required_time(md.modified)
            &&& opt_view(e.created) == optional_time(md.created)
            &&& opt_view(e.accessed) == optional_time(md.accessed)
            &&& e.mode_octal@ == octal_mode(md.permissions)
            &&& opt_view(e.owner_user) == opt_view(facts.owner_user)
            &&& opt_view(e.owner_group) == opt_view(facts.owner_group)
            &&& e.inode == facts.inode
            &&& e.hard_links == facts.hard_links
            &&& opt_view(e.symlink_target) == link_target(
                md,
                opt_view(facts.recorded_target),
                opt_view(facts.read_target),
            )
            &&& e.is_hidden == (facts.name@.len() > 0 && facts.name@[0] == '.')
            &&& opt_view(e.git_status) == opt_view(git_status)
        }),
{
    let md = match metadata {
        Some(m) => m,
        None => EntryMetadata::default(),
    };
    let hidden = is_hidden(facts.name.as_str());
    let symlink_target = if md.is_symlink {
        match facts.recorded_target {
            Some(t) => Some(t),
            None => facts.read_target,
        }
    } else {
        None
    };
    SerializableEntry {
        path: path.to_owned(),
        name: facts.name,
        extension: facts.extension,
        file_type: file_type_of(&md).to_owned(),
        size_bytes: md.size,
        modified: fmt_ts_required(md.modified),
        created: fmt_ts_opt(md.created),
        accessed: fmt_ts_opt(md.accessed),
        mode_octal: mode_to_octal(md.permissions),
        owner_user: facts.owner_user,
        owner_group: facts.owner_group,
        inode: facts.inode,
        hard_links: facts.hard_links,
        symlink_target,
        is_hidden: hidden,
        git_status,
    }
}

} // verus!
