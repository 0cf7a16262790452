//! Archive paths: which files are archives, and the paths inside them.

use crate::text::{
    chars_of, concat3, ends_with, lemma_text_before_connected, lemma_text_before_irreflexive,
    lemma_text_before_transitive, lowercase, same_text, string_of,
    text_before, text_lt, texts, to_lowercase,
};
use vstd::prelude::*;
use vstd::string::*;

verus! {

/// Whether a text ends like the name of a zip or tar archive.
pub open spec fn has_ending(lower: Seq<char>) -> bool {
    ".zip"@.is_suffix_of(lower) || ".tar"@.is_suffix_of(lower) || ".tar.gz"@.is_suffix_of(lower)
        || ".tgz"@.is_suffix_of(lower)
}

/// Whether a path, case aside, ends like a zip or tar archive.
pub open spec fn is_archive_name(path: Seq<char>) -> bool {
    has_ending(lowercase(path))
}

/// Whether the path names an archive the tool can list.
pub fn is_archive_path_str(path: &str) -> (r: bool)
    ensures
        r == is_archive_name(path@),
{
    let lower = to_lowercase(path);
    has_archive_ending(lower.as_str())
}

/// Whether a path in lowercase ends in `.zip`, `.tar`, `.tar.gz` or `.tgz`.
pub fn has_archive_ending(lower: &str) -> (r: bool)
    ensures
        r == has_ending(lower@),
{
    ends_with(lower, ".zip") || ends_with(lower, ".tar") || ends_with(lower, ".tar.gz") || ends_with(
        lower,
        ".tgz",
    )
}

/// A text with every backslash turned into a slash.
pub open spec fn slashed(s: Seq<char>) -> Seq<char> {
    s.map_values(|c: char| if c == '\\' { '/' } else { c })
}

/// A text without the `./` it starts with, however many.
pub open spec fn undotted(s: Seq<char>) -> Seq<char>
    decreases s.len(),
{
    if s.len() >= 2 && s[0] == '.' && s[1] == '/' {
        undotted(s.skip(2))
    } else {
        s
    }
}

/// A text with every run of slashes turned into one slash.
pub open spec fn squeezed(s: Seq<char>) -> Seq<char>
    decreases s.len(),
{
    if s.len() == 0 {
        s
    } else if s.len() >= 2 && s[s.len() - 1] == '/' && s[s.len() - 2] == '/' {
        squeezed(s.drop_last())
    } else {
        squeezed(s.drop_last()).push(s.last())
    }
}

/// A text without the slashes it starts with.
pub open spec fn left_trimmed(s: Seq<char>) -> Seq<char>
    decreases s.len(),
{
    if s.len() > 0 && s[0] == '/' {
        left_trimmed(s.skip(1))
    } else {
        s
    }
}

/// A text without the slashes it ends with.
pub open spec fn right_trimmed(s: Seq<char>) -> Seq<char>
    decreases s.len(),
{
    if s.len() > 0 && s.last() == '/' {
        right_trimmed(s.drop_last())
    } else {
        s
    }
}

/// The path of an archive member in its normal form: slashes only, no
/// leading `./`, no doubled slash, no slash at either end.
pub open spec fn normal_path(s: Seq<char>) -> Seq<char> {
    right_trimmed(left_trimmed(squeezed(undotted(slashed(s)))))
}

/// The characters from `from` on.
pub fn tail_from(v: &Vec<char>, from: usize) -> (r: Vec<char>)
    requires
        from <= v@.len(),
    ensures
        r@ == v@.skip(from as int),
{
    let mut out: Vec<char> = Vec::new();
    let mut i: usize = from;
    while i < v.len()
        invariant
            from <= i <= v@.len(),
            out@ == v@.subrange(from as int, i as int),
        decreases v@.len() - i,
    {
        out.push(v[i]);
        assert(out@ =~= v@.subrange(from as int, i + 1));
        i += 1;
    }
    assert(out@ =~= v@.skip(from as int));
    out
}

/// Brings the path of an archive member into its normal form.
pub fn normalize_internal_path(s: &str) -> (r: String)
    ensures
        r@ == normal_path(s@),
{
    let raw = chars_of(s);
    // backslashes become slashes
    let mut p: Vec<char> = Vec::new();
    let mut i: usize = 0;
    while i < raw.len()
        invariant
            i <= raw@.len(),
            p@ == slashed(raw@.take(i as int)),
        decreases raw@.len() - i,
    {
        let c = raw[i];
        p.push(if c == '\\' { '/' } else { c });
        assert(p@ =~= slashed(raw@.take(i + 1)));
        i += 1;
    }
    assert(raw@.take(raw@.len() as int) =~= raw@);
    // leading "./" go
    let mut start: usize = 0;
    assert(p@.skip(0) =~= p@);
    while p.len() - start >= 2 && p[start] == '.' && p[start + 1] == '/'
        invariant
            start <= p@.len(),
            undotted(p@) == undotted(p@.skip(start as int)),
        decreases p@.len() - start,
    {
        proof {
            assert(p@.skip(start as int).skip(2) =~= p@.skip(start + 2));
        }
        start += 2;
    }
    let q = tail_from(&p, start);
    assert(q@ == undotted(p@));
    // runs of slashes shrink to one
    let mut out: Vec<char> = Vec::new();
    let mut k: usize = 0;
    while k < q.len()
        invariant
            k <= q@.len(),
            out@ == squeezed(q@.take(k as int)),
        decreases q@.len() - k,
    {
        proof {
            assert(q@.take(k + 1).drop_last() =~= q@.take(k as int));
        }
        if !(k > 0 && q[k] == '/' && q[k - 1] == '/') {
            out.push(q[k]);
        }
        k += 1;
    }
    assert(q@.take(q@.len() as int) =~= q@);
    // slashes at the ends go
    let mut first: usize = 0;
    assert(out@.skip(0) =~= out@);
    while first < out.len() && out[first] == '/'
        invariant
            first <= out@.len(),
            left_trimmed(out@) == left_trimmed(out@.skip(first as int)),
        decreases out@.len() - first,
    {
        proof {
            assert(out@.skip(first as int).skip(1) =~= out@.skip(first + 1));
        }
        first += 1;
    }
    let mut t = tail_from(&out, first);
    assert(t@ == left_trimmed(out@));
    let ghost whole = t@;
    while t.len() > 0 && t[t.len() - 1] == '/'
        invariant
            right_trimmed(whole) == right_trimmed(t@),
        decreases t@.len(),
    {
        t.pop();
    }
    string_of(&t)
}

/// The mode of a directory whose archive records none.
pub const DEFAULT_DIR_MODE: u32 = 0o755;

/// The mode of a file whose archive records none.
pub const DEFAULT_FILE_MODE: u32 = 0o644;

/// The bits of a mode that say what kind of file it is.
pub const S_IFMT: u32 = 0o170000;

/// The kind bits of a symbolic link.
pub const S_IFLNK: u32 = 0o120000;

/// One member of an archive as it is listed.
#[derive(Debug)]
pub struct ArchiveEntry {
    pub path: String,
    pub size: u64,
    pub modified: u64,
    pub is_dir: bool,
    pub is_file: bool,
    pub is_symlink: bool,
    pub permissions: u32,
    pub uid: u32,
    pub gid: u32,
    /// The archive the member was read from; `None` for a directory that
    /// was made up for members below it.
    pub archive_source: Option<String>,
    /// Where a symbolic link points.
    pub symlink_target: Option<String>,
}

/// What an archive entry holds.
pub struct ArchiveEntryView {
    pub path: Seq<char>,
    pub size: u64,
    pub modified: u64,
    pub is_dir: bool,
    pub is_file: bool,
    pub is_symlink: bool,
    pub permissions: u32,
    pub uid: u32,
    pub gid: u32,
    pub archive_source: Option<Seq<char>>,
    pub symlink_target: Option<Seq<char>>,
}

/// What an optional text holds.
pub open spec fn opt_text(t: Option<String>) -> Option<Seq<char>> {
    match t {
        Some(s) => Some(s@),
        None => None,
    }
}

impl View for ArchiveEntry {
    type V = ArchiveEntryView;

    open spec fn view(&self) -> ArchiveEntryView {
        ArchiveEntryView {
            path: self.path@,
            size: self.size,
            modified: self.modified,
            is_dir: self.is_dir,
            is_file: self.is_file,
            is_symlink: self.is_symlink,
            permissions: self.permissions,
            uid: self.uid,
            gid: self.gid,
            archive_source: opt_text(self.archive_source),
            symlink_target: opt_text(self.symlink_target),
        }
    }
}

/// What the archive entries of a list hold.
pub open spec fn archive_views(s: Seq<ArchiveEntry>) -> Seq<ArchiveEntryView> {
    s.map_values(|e: ArchiveEntry| e@)
}

/// A directory entry at `path` with nothing known of it.
pub open spec fn directory_entry(path: Seq<char>, source: Option<Seq<char>>) -> ArchiveEntryView {
    ArchiveEntryView {
        path,
        size: 0,
        modified: 0,
        is_dir: true,
        is_file: false,
        is_symlink: false,
        permissions: DEFAULT_DIR_MODE,
        uid: 0,
        gid: 0,
        archive_source: source,
        symlink_target: None,
    }
}

/// The entry that stands for the archive itself.
pub fn root_entry(root_name: &str, source: &str) -> (e: ArchiveEntry)
    ensures
        e@ == directory_entry(root_name@, Some(source@)),
{
    ArchiveEntry {
        path: root_name.to_owned(),
        size: 0,
        modified: 0,
        is_dir: true,
        is_file: false,
        is_symlink: false,
        permissions: DEFAULT_DIR_MODE,
        uid: 0,
        gid: 0,
        archive_source: Some(source.to_owned()),
        symlink_target: None,
    }
}

/// The mode recorded, or the usual one of a directory or a file.
pub open spec fn mode_or_default(mode: Option<u32>, is_dir: bool) -> u32 {
    match mode {
        Some(m) => m,
        None => if is_dir {
            DEFAULT_DIR_MODE
        } else {
            DEFAULT_FILE_MODE
        },
    }
}

/// What a member of a zip archive is listed as; `None` for a member whose
/// normal path is empty. Directories have no size, no member has a date,
/// and a member is a symbolic link where its recorded mode says so.
pub open spec fn zip_listing(
    root: Seq<char>,
    source: Seq<char>,
    raw_name: Seq<char>,
    is_dir: bool,
    size: u64,
    unix_mode: Option<u32>,
) -> Option<ArchiveEntryView> {
    let name = normal_path(raw_name);
    if name.len() == 0 {
        None
    } else {
        Some(
            ArchiveEntryView {
                path: root + "/"@ + name,
                size: if is_dir {
                    0
                } else {
                    size
                },
                modified: 0,
                is_dir,
                is_file: !is_dir,
                is_symlink: unix_mode.is_some() && unix_mode.unwrap() & S_IFMT == S_IFLNK,
                permissions: mode_or_default(unix_mode, is_dir),
                uid: 0,
                gid: 0,
                archive_source: Some(source),
                symlink_target: None,
            },
        )
    }
}

/// What an optional archive entry holds.
pub open spec fn opt_entry(e: Option<ArchiveEntry>) -> Option<ArchiveEntryView> {
    match e {
        Some(x) => Some(x@),
        None => None,
    }
}

/// Lists one member of a zip archive.
pub fn zip_entry(root_name: &str, source: &str, raw_name: &str, is_dir: bool, size: u64, unix_mode: Option<
    u32,
>) -> (e: Option<ArchiveEntry>)
    ensures
        opt_entry(e) == zip_listing(root_name@, source@, raw_name@, is_dir, size, unix_mode),
{
    let name = normalize_internal_path(raw_name);
    if name.as_str().is_empty() {
        return None;
    }
    let permissions = match unix_mode {
        Some(m) => m,
        None => if is_dir {
            DEFAULT_DIR_MODE
        } else {
            DEFAULT_FILE_MODE
        },
    };
    let is_symlink = match unix_mode {
        Some(m) => m & S_IFMT == S_IFLNK,
        None => false,
    };
    Some(
        ArchiveEntry {
            path: concat3(root_name, "/", name.as_str()),
            size: if is_dir {
                0
            } else {
                size
            },
            modified: 0,
            is_dir,
            is_file: !is_dir,
            is_symlink,
            permissions,
            uid: 0,
            gid: 0,
            archive_source: Some(source.to_owned()),
            symlink_target: None,
        },
    )
}

/// What the header of a member of a tar archive says; what could not be
/// read is `None`.
#[derive(Debug)]
pub struct TarHeader {
    pub is_dir: bool,
    pub is_symlink: bool,
    pub size: Option<u64>,
    pub mtime: Option<u64>,
    pub mode: Option<u32>,
    pub uid: Option<u64>,
    pub gid: Option<u64>,
    pub link_name: Option<String>,
}

/// A number, or zero where there is none.
pub open spec fn or_zero(n: Option<u64>) -> u64 {
    match n {
        Some(v) => v,
        None => 0,
    }
}

/// What a member of a tar archive is listed as; `None` for a member whose
/// normal path is empty. Owner ids keep their low 32 bits, and only a
/// symbolic link has a target.
pub open spec fn tar_listing(root: Seq<char>, source: Seq<char>, raw_path: Seq<char>, h: TarHeader) -> Option<
    ArchiveEntryView,
> {
    let name = normal_path(raw_path);
    if name.len() == 0 {
        None
    } else {
        Some(
            ArchiveEntryView {
                path: root + "/"@ + name,
                size: if h.is_dir {
                    0
                } else {
                    or_zero(h.size)
                },
                modified: or_zero(h.mtime),
                is_dir: h.is_dir,
                is_file: !(h.is_dir || h.is_symlink),
                is_symlink: h.is_symlink,
                permissions: mode_or_default(h.mode, h.is_dir),
                uid: (or_zero(h.uid) & 0xffff_ffff) as u32,
                gid: (or_zero(h.gid) & 0xffff_ffff) as u32,
                archive_source: Some(source),
                symlink_target: if h.is_symlink {
                    opt_text(h.link_name)
                } else {
                    None
                },
            },
        )
    }
}

/// A number, or zero where there is none.
pub fn number_or_zero(n: Option<u64>) -> (r: u64)
    ensures
        r == or_zero(n),
{
    match n {
        Some(v) => v,
        None => 0,
    }
}

/// The low 32 bits of a number.
pub fn low_bits(n: u64) -> (r: u32)
    ensures
        r == (n & 0xffff_ffff) as u32,
{
    let low = n & 0xffff_ffff;
    assert(low <= 0xffff_ffff) by (bit_vector)
        requires
            low == n & 0xffff_ffff,
    ;
    low as u32
}

/// Lists one member of a tar archive.
pub fn tar_entry(root_name: &str, source: &str, raw_path: &str, header: TarHeader) -> (e: Option<
    ArchiveEntry,
>)
    ensures
        opt_entry(e) == tar_listing(root_name@, source@, raw_path@, header),
{
    let name = normalize_internal_path(raw_path);
    if name.as_str().is_empty() {
        return None;
    }
    let permissions = match header.mode {
        Some(m) => m,
        None => if header.is_dir {
            DEFAULT_DIR_MODE
        } else {
            DEFAULT_FILE_MODE
        },
    };
    let size = if header.is_dir {
        0
    } else {
        number_or_zero(header.size)
    };
    let modified = number_or_zero(header.mtime);
    let uid = low_bits(number_or_zero(header.uid));
    let gid = low_bits(number_or_zero(header.gid));
    let is_dir = header.is_dir;
    let is_symlink = header.is_symlink;
    let ghost link = opt_text(header.link_name);
    let symlink_target = if is_symlink {
        header.link_name
    } else {
        None
    };
    Some(
        ArchiveEntry {
            path: concat3(root_name, "/", name.as_str()),
            size,
            modified,
            is_dir,
            is_file: !(is_dir || is_symlink),
            is_symlink,
            permissions,
            uid,
            gid,
            archive_source: Some(source.to_owned()),
            symlink_target,
        },
    )
}

/// The parent of a path as `std::path::Path::parent` finds it.
pub uninterp spec fn parent_path(path: Seq<char>) -> Option<Seq<char>>;

/// Whether two texts name the same path as `std::path::Path::eq` sees it.
pub uninterp spec fn paths_equal(a: Seq<char>, b: Seq<char>) -> bool;

/// Calls `std::path::Path::parent` and turns the path into a string. The
/// claims: the parent depends on the path alone, found by the path rules of
/// the platform the library is built for, and it is a proper beginning of
/// the path.
#[verifier::external_body]
pub(crate) fn parent_of(path: &str) -> (r: Option<String>)
    ensures
        opt_text(r) == parent_path(path@),
        match r {
            Some(p) => p@.len() < path@.len() && p@.is_prefix_of(path@),
            None => true,
        },
{
    match std::path::Path::new(path).parent() {
        Some(p) => Some(p.to_string_lossy().into_owned()),
        None => None,
    }
}

/// Calls `std::path::Path::eq`. The claim: the answer depends on the two
/// texts alone, by the path rules of the platform the library is built
/// for.
#[verifier::external_body]
pub(crate) fn same_path(a: &str, b: &str) -> (r: bool)
    ensures
        r == paths_equal(a@, b@),
{
    std::path::Path::new(a) == std::path::Path::new(b)
}

/// Whether the texts of a list rise strictly in byte order.
pub open spec fn rising(list: Seq<Seq<char>>) -> bool {
    forall|i: int, j: int| 0 <= i < j < list.len() ==> text_before(#[trigger] list[i], #[trigger] list[j])
}

/// Whether a text is a proper beginning of one of the texts of a list.
pub open spec fn begins_one_of(t: Seq<char>, list: Seq<Seq<char>>) -> bool {
    exists|k: int| 0 <= k < list.len() && t.len() < (#[trigger] list[k]).len() && t.is_prefix_of(list[k])
}

/// Puts a text into a rising list at its place in byte order; a list that
/// holds the text stays as it is.
pub fn insert_rising(list: &mut Vec<String>, s: String)
    requires
        rising(texts(old(list)@)),
    ensures
        texts(final(list)@) == with_text(texts(old(list)@), s@),
        rising(texts(final(list)@)),
        texts(final(list)@).contains(s@),
        forall|t: Seq<char>|
            texts(final(list)@).contains(t) ==> texts(old(list)@).contains(t) || t == s@,
        forall|k: int|
            0 <= k < old(list)@.len() ==> texts(final(list)@).contains(#[trigger] texts(old(list)@)[k]),
{
    let ghost before = texts(list@);
    let mut i: usize = 0;
    while i < list.len() && text_lt(list[i].as_str(), s.as_str())
        invariant
            i <= list@.len(),
            before == texts(list@),
            *list == *old(list),
            forall|k: int| 0 <= k < i ==> text_before(#[trigger] before[k], s@),
        decreases list@.len() - i,
    {
        i += 1;
    }
    proof {
        // from here on nothing comes before the text
        assert forall|k: int| i <= k < before.len() implies !text_before(#[trigger] before[k], s@) by {
            assert(before[i as int] == list@[i as int]@);
            if k > i && text_before(before[k], s@) {
                lemma_text_before_transitive(before[i as int], before[k], s@);
            }
        }
        lemma_texts_before(before, s@, i as int);
    }
    if i < list.len() && !text_lt(s.as_str(), list[i].as_str()) {
        proof {
            assert(before[i as int] == list@[i as int]@);
            lemma_text_before_connected(before[i as int], s@);
            assert(before.contains(s@));
        }
        return;
    }
    proof {
        assert forall|k: int| 0 <= k < before.len() implies #[trigger] before[k] != s@ by {
            lemma_text_before_irreflexive(s@);
            if k >= i {
                assert(before[i as int] == list@[i as int]@);
                if k > i {
                    lemma_text_before_transitive(s@, before[i as int], before[k]);
                }
            }
        }
        assert(!before.contains(s@));
    }
    list.insert(i, s);
    let ghost after = texts(list@);
    assert(after =~= before.insert(i as int, s@));
    assert(after[i as int] == s@);
    assert forall|a: int, b: int| 0 <= a < b < after.len() implies text_before(
        #[trigger] after[a],
        #[trigger] after[b],
    ) by {
        if b == i {
            assert(after[a] == before[a]);
        } else if a == i {
            assert(after[b] == before[b - 1]);
            if b - 1 > i {
                assert(text_before(before[i as int], before[b - 1]));
                lemma_text_before_transitive(s@, before[i as int], before[b - 1]);
            }
        } else {
            let x = if a < i { a } else { a - 1 };
            let y = if b < i { b } else { b - 1 };
            assert(after[a] == before[x] && after[b] == before[y]);
        }
    }
    assert forall|t: Seq<char>| after.contains(t) implies before.contains(t) || t == s@ by {
        let w = choose|w: int| 0 <= w < after.len() && after[w] == t;
        if w < i {
            assert(before[w] == t);
        } else if w > i {
            assert(before[w - 1] == t);
        }
    }
    assert forall|k: int| 0 <= k < before.len() implies after.contains(#[trigger] before[k]) by {
        if k < i {
            assert(after[k] == before[k]);
        } else {
            assert(after[k + 1] == before[k]);
        }
    }
}

/// Whether a list of entries holds one at the path.
pub fn holds_path(entries: &Vec<ArchiveEntry>, upto: usize, path: &str) -> (r: bool)
    requires
        upto <= entries@.len(),
    ensures
        r == exists|k: int| 0 <= k < upto && (#[trigger] entries@[k]).path@ == path@,
{
    let mut i: usize = 0;
    while i < upto
        invariant
            i <= upto <= entries@.len(),
            forall|k: int| 0 <= k < i ==> (#[trigger] entries@[k]).path@ != path@,
        decreases upto - i,
    {
        if same_text(entries[i].path.as_str(), path) {
            return true;
        }
        i += 1;
    }
    false
}

/// The paths of the entries of a list.
pub open spec fn paths_of(s: Seq<ArchiveEntry>) -> Seq<Seq<char>> {
    s.map_values(|e: ArchiveEntry| e.path@)
}

/// Adds an entry for every directory that lies above a member, below the
/// root, and has no entry of its own. The directories above the members
/// are gathered in rising byte order, each once, and `add_directories`
/// adds an entry for each that has none. So the entries that were there
/// stay as they are and in front; the directories follow in rising byte
/// order of their paths, each a proper beginning of the path of an entry
/// that was there, none at the path of one. Entries whose paths are at
/// most one character long lie below no directory.
pub fn synthesize_directory_entries(entries: &mut Vec<ArchiveEntry>, root_prefix: &str)
    ensures
        archive_views(final(entries)@) == archive_views(old(entries)@) + made_up(
            paths_of(old(entries)@),
            directories_above(paths_of(old(entries)@), root_prefix@, old(entries)@.len() as int),
        ),
        all_short(paths_of(old(entries)@)) ==> archive_views(final(entries)@) == archive_views(
            old(entries)@,
        ),
        final(entries)@.len() >= old(entries)@.len(),
        archive_views(final(entries)@).take(old(entries)@.len() as int) == archive_views(old(entries)@),
        forall|k: int|
            old(entries)@.len() <= k < final(entries)@.len() ==> {
                let e = #[trigger] final(entries)@[k];
                &&& e@ == directory_entry(e.path@, None)
                &&& begins_one_of(e.path@, paths_of(old(entries)@))
                &&& !paths_of(old(entries)@).contains(e.path@)
            },
        rising(paths_of(final(entries)@).skip(old(entries)@.len() as int)),
{
    let ghost given = entries@;
    let ghost given_paths = paths_of(entries@);
    let n = entries.len();
    let mut dirs: Vec<String> = Vec::new();
    let mut i: usize = 0;
    while i < n
        invariant
            i <= n,
            n == entries@.len(),
            entries@ == given,
            given_paths == paths_of(given),
            rising(texts(dirs@)),
            forall|k: int| 0 <= k < dirs@.len() ==> begins_one_of(#[trigger] texts(dirs@)[k], given_paths),
            all_short(given_paths) ==> dirs@.len() == 0,
            texts(dirs@) == directories_above(given_paths, root_prefix@, i as int),
        decreases n - i,
    {
        let mut current = entries[i].path.clone();
        let ghost member = entries@[i as int].path@;
        let ghost start = texts(dirs@);
        assert(given_paths[i as int] == member);
        loop
            invariant
                climbed(start, member, root_prefix@) == climbed(texts(dirs@), current@, root_prefix@),
                start == directories_above(given_paths, root_prefix@, i as int),
                i < n,
                n == entries@.len(),
                entries@ == given,
                given_paths == paths_of(given),
                member == given_paths[i as int],
                current@.len() <= member.len(),
                current@.is_prefix_of(member),
                rising(texts(dirs@)),
                forall|k: int|
                    0 <= k < dirs@.len() ==> begins_one_of(#[trigger] texts(dirs@)[k], given_paths),
                all_short(given_paths) ==> dirs@.len() == 0,
            ensures
                texts(dirs@) == climbed(start, member, root_prefix@),
            decreases current@.len(),
        {
            let parent = parent_of(current.as_str());
            let is_root = match &parent {
                Some(p) => same_path(p.as_str(), root_prefix),
                None => false,
            };
            let ghost held = texts(dirs@);
            let ghost found = opt_text(parent);
            assert(next_above(current@, root_prefix@) == climbs_to(found, is_root));
            match note_parent(&mut dirs, parent, is_root) {
                Some(next) => {
                    proof {
                        assert(found == Some(next@));
                        assert(climbed(held, current@, root_prefix@) == climbed(
                            with_text(held, next@),
                            next@,
                            root_prefix@,
                        ));
                        assert(next@.is_prefix_of(member)) by {
                            assert(member.subrange(0, next@.len() as int) =~= current@.subrange(
                                0,
                                next@.len() as int,
                            ));
                        }
                        assert(begins_one_of(next@, given_paths));
                        assert forall|k: int| 0 <= k < dirs@.len() implies begins_one_of(
                            #[trigger] texts(dirs@)[k],
                            given_paths,
                        ) by {
                            let t = texts(dirs@)[k];
                            assert(texts(dirs@).contains(t));
                            if held.contains(t) {
                                let w = choose|w: int| 0 <= w < held.len() && held[w] == t;
                                assert(begins_one_of(held[w], given_paths));
                            }
                        }
                    }
                    current = next;
                },
                None => {
                    assert(climbed(held, current@, root_prefix@) == held);
                    break ;
                },
            }
        }
        i += 1;
    }
    add_directories(entries, &dirs);
    proof {
        let all = texts(dirs@);
        assert forall|k: int| n <= k < entries@.len() implies begins_one_of(
            (#[trigger] entries@[k]).path@,
            given_paths,
        ) by {
            let w = choose|w: int| 0 <= w < all.len() && all[w] == entries@[k].path@;
            assert(begins_one_of(all[w], given_paths));
        }
        if all_short(given_paths) {
            assert(all =~= Seq::<Seq<char>>::empty());
            assert(made_up(given_paths, all) =~= Seq::<ArchiveEntryView>::empty());
            assert(archive_views(given) + made_up(given_paths, all) =~= archive_views(given));
        }
    }
}

/// How many texts of a list come before a text in byte order.
pub open spec fn texts_before(list: Seq<Seq<char>>, s: Seq<char>) -> nat
    decreases list.len(),
{
    if list.len() == 0 {
        0
    } else {
        texts_before(list.drop_last(), s) + if text_before(list.last(), s) {
            1nat
        } else {
            0nat
        }
    }
}

/// A rising list with a text put in: the list itself where it holds the
/// text, else the list with the text after all that come before it.
pub open spec fn with_text(list: Seq<Seq<char>>, s: Seq<char>) -> Seq<Seq<char>> {
    if list.contains(s) {
        list
    } else {
        list.insert(texts_before(list, s) as int, s)
    }
}

/// Where the first `i` texts of a list come before a text and the others
/// do not, `i` texts come before it.
pub proof fn lemma_texts_before(list: Seq<Seq<char>>, s: Seq<char>, i: int)
    requires
        0 <= i <= list.len(),
        forall|k: int| 0 <= k < i ==> text_before(#[trigger] list[k], s),
        forall|k: int| i <= k < list.len() ==> !text_before(#[trigger] list[k], s),
    ensures
        texts_before(list, s) == i,
    decreases list.len(),
{
    if list.len() > 0 {
        let rest = list.drop_last();
        let j = if i == list.len() {
            i - 1
        } else {
            i
        };
        assert forall|k: int| 0 <= k < j implies text_before(#[trigger] rest[k], s) by {
            assert(rest[k] == list[k]);
        }
        assert forall|k: int| j <= k < rest.len() implies !text_before(#[trigger] rest[k], s) by {
            assert(rest[k] == list[k]);
        }
        lemma_texts_before(rest, s, j);
        assert(list.last() == list[list.len() - 1]);
    }
}

/// Where a climb goes after a parent was found: nowhere, where there is no
/// parent, or the parent is the root or the empty path; else to the parent.
pub open spec fn climbs_to(parent: Option<Seq<char>>, is_root: bool) -> Option<Seq<char>> {
    match parent {
        Some(p) => if is_root || p.len() == 0 {
            None
        } else {
            Some(p)
        },
        None => None,
    }
}

/// Takes note of the parent that was found for a path: a parent that the
/// climb goes on to is put into the rising list of directories and handed
/// back; otherwise the list stays and the climb ends.
pub fn note_parent(dirs: &mut Vec<String>, parent: Option<String>, is_root: bool) -> (next: Option<String>)
    requires
        rising(texts(old(dirs)@)),
    ensures
        opt_text(next) == climbs_to(opt_text(parent), is_root),
        texts(final(dirs)@) == match climbs_to(opt_text(parent), is_root) {
            Some(p) => with_text(texts(old(dirs)@), p),
            None => texts(old(dirs)@),
        },
        rising(texts(final(dirs)@)),
        forall|t: Seq<char>|
            texts(final(dirs)@).contains(t) ==> texts(old(dirs)@).contains(t) || Some(t) == opt_text(
                next,
            ),
{
    match parent {
        Some(p) => {
            if is_root || p.as_str().is_empty() {
                None
            } else {
                insert_rising(dirs, p.clone());
                Some(p)
            }
        },
        None => None,
    }
}

/// Passing a directory that has no entry among the paths as the entry made
/// up for it, as a function.
pub open spec fn maker(paths: Seq<Seq<char>>) -> spec_fn(Seq<char>) -> Option<ArchiveEntryView> {
    |d: Seq<char>|
        if paths.contains(d) {
            None
        } else {
            Some(directory_entry(d, None))
        }
}

/// The entries made up for the directories that have no entry among the
/// paths, in the order of the directories.
pub open spec fn made_up(paths: Seq<Seq<char>>, dirs: Seq<Seq<char>>) -> Seq<ArchiveEntryView> {
    dirs.filter_map(maker(paths))
}

/// Where the climb from a path goes next: to its parent, unless it has
/// none or the parent is the root or the empty path.
pub open spec fn next_above(path: Seq<char>, root: Seq<char>) -> Option<Seq<char>> {
    climbs_to(
        parent_path(path),
        match parent_path(path) {
            Some(p) => paths_equal(p, root),
            None => false,
        },
    )
}

/// A rising list with the directories put in that lie above a path and
/// below the root.
pub open spec fn climbed(list: Seq<Seq<char>>, path: Seq<char>, root: Seq<char>) -> Seq<Seq<char>>
    decreases path.len(),
{
    match next_above(path, root) {
        Some(p) => if p.len() < path.len() {
            climbed(with_text(list, p), p, root)
        } else {
            list
        },
        None => list,
    }
}

/// The directories that lie above the first `n` paths and below the root,
/// in rising byte order, each once.
pub open spec fn directories_above(paths: Seq<Seq<char>>, root: Seq<char>, n: int) -> Seq<Seq<char>>
    decreases n,
{
    if n <= 0 {
        Seq::empty()
    } else {
        climbed(directories_above(paths, root, n - 1), paths[n - 1], root)
    }
}

/// Whether no path is longer than one character.
pub open spec fn all_short(paths: Seq<Seq<char>>) -> bool {
    forall|k: int| 0 <= k < paths.len() ==> (#[trigger] paths[k]).len() <= 1
}

/// Adds a directory entry for each directory of the list that has no entry
/// yet, in the order of the list. The entries that were there stay as they
/// are and in front.
pub fn add_directories(entries: &mut Vec<ArchiveEntry>, dirs: &Vec<String>)
    ensures
        archive_views(final(entries)@) == archive_views(old(entries)@) + made_up(
            paths_of(old(entries)@),
            texts(dirs@),
        ),
        final(entries)@.len() >= old(entries)@.len(),
        archive_views(final(entries)@).take(old(entries)@.len() as int) == archive_views(old(entries)@),
        forall|k: int|
            old(entries)@.len() <= k < final(entries)@.len() ==> {
                let e = #[trigger] final(entries)@[k];
                &&& e@ == directory_entry(e.path@, None)
                &&& !paths_of(old(entries)@).contains(e.path@)
                &&& exists|w: int| 0 <= w < dirs@.len() && texts(dirs@)[w] == e.path@
            },
        rising(texts(dirs@)) ==> rising(paths_of(final(entries)@).skip(old(entries)@.len() as int)),
{
    let ghost given = entries@;
    let ghost given_paths = paths_of(entries@);
    let ghost all = texts(dirs@);
    let n = entries.len();
    let mut d: usize = 0;
    assert(all.take(0).filter_map(maker(given_paths)) =~= Seq::<ArchiveEntryView>::empty());
    assert(archive_views(entries@) =~= archive_views(given) + Seq::<ArchiveEntryView>::empty());
    assert(paths_of(entries@).skip(n as int) =~= Seq::<Seq<char>>::empty());
    while d < dirs.len()
        invariant
            d <= dirs@.len(),
            n == given.len(),
            all == texts(dirs@),
            given_paths == paths_of(given),
            entries@.len() >= n,
            archive_views(entries@) == archive_views(given) + all.take(d as int).filter_map(
                maker(given_paths),
            ),
            entries@.take(n as int) == given,
            forall|k: int|
                n <= k < entries@.len() ==> {
                    let e = #[trigger] entries@[k];
                    &&& e@ == directory_entry(e.path@, None)
                    &&& !given_paths.contains(e.path@)
                    &&& exists|w: int| 0 <= w < d && all[w] == e.path@
                },
            rising(all) ==> rising(paths_of(entries@).skip(n as int)),
        decreases dirs@.len() - d,
    {
        let path = &dirs[d];
        assert(all[d as int] == path@);
        let ghost before = entries@;
        let known = holds_path(entries, n, path.as_str());
        proof {
            all.lemma_filter_map_take_succ(maker(given_paths), d as int);
            if known {
                let w = choose|w: int| 0 <= w < n && (#[trigger] entries@[w]).path@ == path@;
                assert(entries@[w] == given[w]);
                assert(given_paths[w] == path@);
            } else {
                assert forall|w: int| 0 <= w < given_paths.len() implies given_paths[w] != path@ by {
                    assert(entries@[w] == given[w]);
                }
            }
        }
        if !known {
            let e = ArchiveEntry {
                path: path.clone(),
                size: 0,
                modified: 0,
                is_dir: true,
                is_file: false,
                is_symlink: false,
                permissions: DEFAULT_DIR_MODE,
                uid: 0,
                gid: 0,
                archive_source: None,
                symlink_target: None,
            };
            assert(e@ == directory_entry(path@, None));
            entries.push(e);
            assert(entries@.take(n as int) =~= before.take(n as int));
            assert(archive_views(entries@) =~= archive_views(before).push(directory_entry(path@, None)));
            let ghost tail = paths_of(entries@).skip(n as int);
            assert(rising(all) ==> rising(tail)) by {
                if rising(all) {
                    assert forall|a: int, b: int| 0 <= a < b < tail.len() implies text_before(
                        #[trigger] tail[a],
                        #[trigger] tail[b],
                    ) by {
                        let old_tail = paths_of(before).skip(n as int);
                        if b < tail.len() - 1 {
                            assert(tail[a] == old_tail[a] && tail[b] == old_tail[b]);
                        } else {
                            assert(tail[b] == path@);
                            assert(tail[a] == before[n + a].path@);
                            let w = choose|w: int| 0 <= w < d && all[w] == before[n + a].path@;
                            assert(text_before(all[w], all[d as int]));
                        }
                    }
                }
            }
            assert forall|k: int| n <= k < entries@.len() implies {
                let x = #[trigger] entries@[k];
                &&& x@ == directory_entry(x.path@, None)
                &&& !given_paths.contains(x.path@)
                &&& exists|w: int| 0 <= w < d + 1 && all[w] == x.path@
            } by {
                if k < before.len() {
                    assert(entries@[k] == before[k]);
                    let w = choose|w: int| 0 <= w < d && all[w] == before[k].path@;
                    assert(0 <= w < d + 1 && all[w] == entries@[k].path@);
                } else {
                    assert(all[d as int] == entries@[k].path@);
                }
            }
        } else {
            assert forall|k: int| n <= k < entries@.len() implies {
                let x = #[trigger] entries@[k];
                exists|w: int| 0 <= w < d + 1 && all[w] == x.path@
            } by {
                let w = choose|w: int| 0 <= w < d && all[w] == entries@[k].path@;
                assert(0 <= w < d + 1 && all[w] == entries@[k].path@);
            }
        }
        d += 1;
    }
    assert(all.take(all.len() as int) =~= all);
    assert(archive_views(entries@).take(n as int) =~= archive_views(given));
}

} // verus!
