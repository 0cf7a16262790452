//! File modes as text: the symbolic, octal, binary, verbose and compact
//! forms, plain or cut into segments that a painter colours by role.

use crate::formatter::{digit_text, octal_char};
use crate::text::same_text;
use vstd::prelude::*;
use vstd::string::*;

verus! {

/// The bits of a mode that say what kind of file it is.
pub const KIND_MASK: u32 = 0o170000;

/// The kind bits of a symbolic link.
pub const KIND_LINK: u32 = 0o120000;

/// The kind bits of a directory.
pub const KIND_DIR: u32 = 0o040000;

/// What a segment of a painted mode stands for.
#[derive(Debug, Clone, Copy, PartialEq, Eq, Structural)]
pub enum Role {
    /// Text that is not coloured.
    Plain,
    /// The kind of a link or directory.
    Dir,
    /// A permission that is not granted, or the kind of a plain file.
    Absent,
    /// Read permission, or the owner's part.
    Read,
    /// Write permission, or the group's part.
    Write,
    /// Execute permission, or the part of all others.
    Exec,
}

/// A piece of text with the role it is coloured by.
#[derive(Debug)]
pub struct Segment {
    pub text: String,
    pub role: Role,
}

/// What a list of segments holds.
pub open spec fn segment_views(s: Seq<Segment>) -> Seq<(Seq<char>, Role)> {
    s.map_values(|g: Segment| (g.text@, g.role))
}

/// Whether the mode is that of a symbolic link.
pub open spec fn is_link(mode: u32) -> bool {
    mode & KIND_MASK == KIND_LINK
}

/// Whether the mode is that of a directory.
pub open spec fn is_dir(mode: u32) -> bool {
    mode & KIND_MASK == KIND_DIR
}

/// The letter of a file's kind.
pub open spec fn kind_letter(mode: u32) -> Seq<char> {
    if is_link(mode) {
        "l"@
    } else if is_dir(mode) {
        "d"@
    } else {
        "-"@
    }
}

/// The role a file's kind is coloured by.
pub open spec fn kind_role(mode: u32) -> Role {
    if is_link(mode) || is_dir(mode) {
        Role::Dir
    } else {
        Role::Absent
    }
}

/// `yes` where any of the masked bits is set, else `no`.
pub open spec fn mark(mode: u32, mask: u32, yes: Seq<char>, no: Seq<char>) -> Seq<char> {
    if mode & mask != 0 {
        yes
    } else {
        no
    }
}

/// A text followed by the three permission letters of one class, given
/// the masks of its bits.
pub open spec fn with_rwx3(text: Seq<char>, mode: u32, r: u32, w: u32, x: u32) -> Seq<char> {
    text + mark(mode, r, "r"@, "-"@) + mark(mode, w, "w"@, "-"@) + mark(mode, x, "x"@, "-"@)
}

/// A text followed by the nine permission letters of a mode.
pub open spec fn with_rwx9(text: Seq<char>, mode: u32) -> Seq<char> {
    with_rwx3(
        with_rwx3(with_rwx3(text, mode, 0o400, 0o200, 0o100), mode, 0o40, 0o20, 0o10),
        mode,
        0o4,
        0o2,
        0o1,
    )
}

/// The execute letter of a class with its special bit: `x` or `-`, and
/// `low` or `high` where the special bit is set.
pub open spec fn special(mode: u32, x: u32, bit: u32, low: Seq<char>, high: Seq<char>) -> Seq<char> {
    if mode & x != 0 {
        if mode & bit != 0 {
            low
        } else {
            "x"@
        }
    } else {
        if mode & bit != 0 {
            high
        } else {
            "-"@
        }
    }
}

/// A text followed by the three octal digits of the permission bits.
pub open spec fn with_octal3(text: Seq<char>, mode: u32) -> Seq<char> {
    text + seq![octal_char(((mode & 0o777) >> 6) & 7)] + seq![octal_char(((mode & 0o777) >> 3) & 7)]
        + seq![octal_char((mode & 0o777) & 7)]
}

/// The three octal digits of the permission bits.
pub open spec fn octal3(mode: u32) -> Seq<char> {
    with_octal3(Seq::empty(), mode)
}

/// A text followed by the nine binary digits of the permission bits.
pub open spec fn with_binary9(text: Seq<char>, mode: u32) -> Seq<char> {
    text + mark(mode, 0o400, "1"@, "0"@) + mark(mode, 0o200, "1"@, "0"@) + mark(
        mode,
        0o100,
        "1"@,
        "0"@,
    ) + mark(mode, 0o40, "1"@, "0"@) + mark(mode, 0o20, "1"@, "0"@) + mark(mode, 0o10, "1"@, "0"@)
        + mark(mode, 0o4, "1"@, "0"@) + mark(mode, 0o2, "1"@, "0"@) + mark(mode, 0o1, "1"@, "0"@)
}

/// The kind letter followed by all nine permission letters.
pub open spec fn symbolic10(mode: u32) -> Seq<char> {
    with_rwx9(kind_letter(mode), mode)
}

/// The mode in the plain form named by `format`; the symbolic form for a
/// name that is not known and where none is given.
pub open spec fn plain_permissions(mode: u32, format: Option<Seq<char>>) -> Seq<char> {
    let name = match format {
        Some(f) => f,
        None => "symbolic"@,
    };
    if name == "octal"@ {
        with_octal3(kind_letter(mode), mode)
    } else if name == "binary"@ {
        with_binary9(kind_letter(mode), mode)
    } else if name == "extended"@ {
        kind_letter(mode) + mark(mode, 0o400, "r"@, "-"@) + mark(mode, 0o200, "w"@, "-"@) + special(
            mode,
            0o100,
            0o4000,
            "s"@,
            "S"@,
        ) + mark(mode, 0o40, "r"@, "-"@) + mark(mode, 0o20, "w"@, "-"@) + special(
            mode,
            0o10,
            0o2000,
            "s"@,
            "S"@,
        ) + mark(mode, 0o4, "r"@, "-"@) + mark(mode, 0o2, "w"@, "-"@) + special(
            mode,
            0o1,
            0o1000,
            "t"@,
            "T"@,
        )
    } else if name == "verbose"@ {
        let kind = if is_link(mode) {
            "type:link"@
        } else if is_dir(mode) {
            "type:dir"@
        } else {
            "type:file"@
        };
        let owner = with_rwx3(kind + " owner:"@, mode, 0o400, 0o200, 0o100);
        let group = with_rwx3(owner + " group:"@, mode, 0o40, 0o20, 0o10);
        with_rwx3(group + " others:"@, mode, 0o4, 0o2, 0o1)
    } else if name == "compact"@ {
        octal3(mode)
    } else if name == "descriptive"@ {
        (if is_link(mode) {
            "symbolic link"@
        } else if is_dir(mode) {
            "directory"@
        } else {
            "regular file"@
        }) + "\n"@ + mark(mode, 0o400, "read"@, "not read"@) + "\n"@ + mark(
            mode,
            0o200,
            " & write"@,
            ""@,
        ) + "\n"@ + mark(mode, 0o100, " & execute"@, ""@)
    } else {
        kind_letter(mode) + symbolic10(mode) + symbolic10(mode) + symbolic10(mode)
    }
}

/// One of two texts, by a condition.
pub fn pick(cond: bool, yes: &'static str, no: &'static str) -> (r: &'static str)
    ensures
        r@ == if cond {
            yes@
        } else {
            no@
        },
{
    if cond {
        yes
    } else {
        no
    }
}

/// The letter of a file's kind.
pub fn kind_text(mode: u32) -> (r: &'static str)
    ensures
        r@ == kind_letter(mode),
{
    if mode & KIND_MASK == KIND_LINK {
        "l"
    } else if mode & KIND_MASK == KIND_DIR {
        "d"
    } else {
        "-"
    }
}

/// Appends the three permission letters of one class.
pub fn push_rwx3(out: &mut String, mode: u32, r: u32, w: u32, x: u32)
    ensures
        final(out)@ == with_rwx3(old(out)@, mode, r, w, x),
{
    out.append(pick(mode & r != 0, "r", "-"));
    out.append(pick(mode & w != 0, "w", "-"));
    out.append(pick(mode & x != 0, "x", "-"));
}

/// Appends the three octal digits of the permission bits.
pub fn push_octal3(out: &mut String, mode: u32)
    ensures
        final(out)@ == with_octal3(old(out)@, mode),
{
    let perms = mode & 0o777;
    out.append(digit_text((perms >> 6) & 7));
    out.append(digit_text((perms >> 3) & 7));
    out.append(digit_text(perms & 7));
}

/// Appends the nine binary digits of the permission bits.
pub fn push_binary9(out: &mut String, mode: u32)
    ensures
        final(out)@ == with_binary9(old(out)@, mode),
{
    out.append(pick(mode & 0o400 != 0, "1", "0"));
    out.append(pick(mode & 0o200 != 0, "1", "0"));
    out.append(pick(mode & 0o100 != 0, "1", "0"));
    out.append(pick(mode & 0o40 != 0, "1", "0"));
    out.append(pick(mode & 0o20 != 0, "1", "0"));
    out.append(pick(mode & 0o10 != 0, "1", "0"));
    out.append(pick(mode & 0o4 != 0, "1", "0"));
    out.append(pick(mode & 0o2 != 0, "1", "0"));
    out.append(pick(mode & 0o1 != 0, "1", "0"));
}

/// The execute letter of a class with its special bit.
pub fn special_text(mode: u32, x: u32, bit: u32, low: &'static str, high: &'static str) -> (r:
    &'static str)
    ensures
        r@ == special(mode, x, bit, low@, high@),
{
    if mode & x != 0 {
        if mode & bit != 0 {
            low
        } else {
            "x"
        }
    } else {
        if mode & bit != 0 {
            high
        } else {
            "-"
        }
    }
}

/// The kind letter followed by all nine permission letters, whatever the
/// class asked for.
pub fn triplet_no_color(mode: u32, _shift: u32) -> (r: String)
    ensures
        r@ == symbolic10(mode),
{
    let mut out = kind_text(mode).to_owned();
    push_rwx3(&mut out, mode, 0o400, 0o200, 0o100);
    push_rwx3(&mut out, mode, 0o40, 0o20, 0o10);
    push_rwx3(&mut out, mode, 0o4, 0o2, 0o1);
    out
}

/// The bit-by-bit form of a mode.
fn extended_permissions(mode: u32) -> (r: String)
    ensures
        r@ == plain_permissions(mode, Some("extended"@)),
{
    proof {
        reveal_strlit("extended");
        reveal_strlit("octal");
        reveal_strlit("binary");
        assert("extended"@.len() == 8 && "octal"@.len() == 5 && "binary"@.len() == 6);
    }
    let mut out = kind_text(mode).to_owned();
    out.append(pick(mode & 0o400 != 0, "r", "-"));
    out.append(pick(mode & 0o200 != 0, "w", "-"));
    out.append(special_text(mode, 0o100, 0o4000, "s", "S"));
    out.append(pick(mode & 0o40 != 0, "r", "-"));
    out.append(pick(mode & 0o20 != 0, "w", "-"));
    out.append(special_text(mode, 0o10, 0o2000, "s", "S"));
    out.append(pick(mode & 0o4 != 0, "r", "-"));
    out.append(pick(mode & 0o2 != 0, "w", "-"));
    out.append(special_text(mode, 0o1, 0o1000, "t", "T"));
    out
}

/// The wordy form of a mode.
fn verbose_permissions(mode: u32) -> (r: String)
    ensures
        r@ == plain_permissions(mode, Some("verbose"@)),
{
    proof {
        reveal_strlit("extended");
        reveal_strlit("octal");
        reveal_strlit("binary");
        reveal_strlit("verbose");
        assert("extended"@.len() == 8 && "octal"@.len() == 5 && "binary"@.len() == 6);
        assert("verbose"@.len() == 7);
    }
    let mut out = if mode & KIND_MASK == KIND_LINK {
        "type:link".to_owned()
    } else if mode & KIND_MASK == KIND_DIR {
        "type:dir".to_owned()
    } else {
        "type:file".to_owned()
    };
    out.append(" owner:");
    push_rwx3(&mut out, mode, 0o400, 0o200, 0o100);
    out.append(" group:");
    push_rwx3(&mut out, mode, 0o40, 0o20, 0o10);
    out.append(" others:");
    push_rwx3(&mut out, mode, 0o4, 0o2, 0o1);
    out
}

/// The form of a mode in words, one per line.
fn descriptive_permissions(mode: u32) -> (r: String)
    ensures
        r@ == plain_permissions(mode, Some("descriptive"@)),
{
    proof {
        reveal_strlit("extended");
        reveal_strlit("octal");
        reveal_strlit("binary");
        reveal_strlit("verbose");
        reveal_strlit("compact");
        reveal_strlit("descriptive");
        assert("extended"@.len() == 8 && "octal"@.len() == 5 && "binary"@.len() == 6);
        assert("verbose"@.len() == 7 && "compact"@.len() == 7 && "descriptive"@.len() == 11);
    }
    let mut out = if mode & KIND_MASK == KIND_LINK {
        "symbolic link".to_owned()
    } else if mode & KIND_MASK == KIND_DIR {
        "directory".to_owned()
    } else {
        "regular file".to_owned()
    };
    out.append("\n");
    out.append(pick(mode & 0o400 != 0, "read", "not read"));
    out.append("\n");
    out.append(pick(mode & 0o200 != 0, " & write", ""));
    out.append("\n");
    out.append(pick(mode & 0o100 != 0, " & execute", ""));
    out
}

/// The mode as text without colour, in the form named by `format`.
pub fn format_permissions_no_color(mode: u32, format: Option<&str>) -> (r: String)
    ensures
        r@ == plain_permissions(
            mode,
            match format {
                Some(f) => Some(f@),
                None => None,
            },
        ),
{
    let name = match format {
        Some(f) => f,
        None => "symbolic",
    };
    if same_text(name, "octal") {
        let mut out = kind_text(mode).to_owned();
        push_octal3(&mut out, mode);
        out
    } else if same_text(name, "binary") {
        let mut out = kind_text(mode).to_owned();
        push_binary9(&mut out, mode);
        out
    } else if same_text(name, "extended") {
        extended_permissions(mode)
    } else if same_text(name, "verbose") {
        verbose_permissions(mode)
    } else if same_text(name, "compact") {
        let mut out = String::new();
        push_octal3(&mut out, mode);
        out
    } else if same_text(name, "descriptive") {
        descriptive_permissions(mode)
    } else {
        let mut out = kind_text(mode).to_owned();
        let part = triplet_no_color(mode, 6);
        out.append(part.as_str());
        let part = triplet_no_color(mode, 3);
        out.append(part.as_str());
        let part = triplet_no_color(mode, 0);
        out.append(part.as_str());
        out
    }
}

/// A segment of the text and role given.
pub fn segment(text: &str, role: Role) -> (s: Segment)
    ensures
        s.text@ == text@,
        s.role == role,
{
    Segment { text: text.to_owned(), role }
}

/// The role of a permission: its own where it is granted.
pub open spec fn granted(mode: u32, mask: u32, role: Role) -> Role {
    if mode & mask != 0 {
        role
    } else {
        Role::Absent
    }
}

/// The three segments of one class: the permissions of the class whose
/// lowest bit is bit `shift` of the mode.
pub open spec fn triplet_segments(mode: u32, shift: u32) -> Seq<(Seq<char>, Role)> {
    seq![
        if (mode >> ((shift + 2) as u32)) & 1u32 != 0 {
            ("r"@, Role::Read)
        } else {
            ("-"@, Role::Absent)
        },
        if (mode >> ((shift + 1) as u32)) & 1u32 != 0 {
            ("w"@, Role::Write)
        } else {
            ("-"@, Role::Absent)
        },
        if (mode >> shift) & 1u32 != 0 {
            ("x"@, Role::Exec)
        } else {
            ("-"@, Role::Absent)
        },
    ]
}

/// The segment of a file's kind.
pub open spec fn kind_segment(mode: u32) -> (Seq<char>, Role) {
    (kind_letter(mode), kind_role(mode))
}

/// The symbolic form in segments.
pub open spec fn symbolic_segments(mode: u32) -> Seq<(Seq<char>, Role)> {
    seq![kind_segment(mode)] + triplet_segments(mode, 6) + triplet_segments(mode, 3)
        + triplet_segments(mode, 0)
}

/// The octal form in segments: one digit for each class.
pub open spec fn octal_segments(mode: u32) -> Seq<(Seq<char>, Role)> {
    seq![
        kind_segment(mode),
        (seq![octal_char(((mode & 0o777) >> 6) & 7)], Role::Read),
        (seq![octal_char(((mode & 0o777) >> 3) & 7)], Role::Write),
        (seq![octal_char((mode & 0o777) & 7)], Role::Exec),
    ]
}

/// One binary digit as a segment: a set bit has the role of its class.
pub open spec fn bit_segment(mode: u32, mask: u32, role: Role) -> (Seq<char>, Role) {
    if mode & mask != 0 {
        ("1"@, role)
    } else {
        ("0"@, Role::Absent)
    }
}

/// The binary form in segments.
pub open spec fn binary_segments(mode: u32) -> Seq<(Seq<char>, Role)> {
    seq![
        kind_segment(mode),
        bit_segment(mode, 0o400, Role::Read),
        bit_segment(mode, 0o200, Role::Read),
        bit_segment(mode, 0o100, Role::Read),
        bit_segment(mode, 0o40, Role::Write),
        bit_segment(mode, 0o20, Role::Write),
        bit_segment(mode, 0o10, Role::Write),
        bit_segment(mode, 0o4, Role::Exec),
        bit_segment(mode, 0o2, Role::Exec),
        bit_segment(mode, 0o1, Role::Exec),
    ]
}

/// The wordy form in segments, blanks between them.
pub open spec fn verbose_segments(mode: u32) -> Seq<(Seq<char>, Role)> {
    seq![
        if is_link(mode) {
            ("type:link"@, Role::Dir)
        } else if is_dir(mode) {
            ("type:dir "@, Role::Dir)
        } else {
            ("type:file"@, Role::Absent)
        },
        (" "@, Role::Plain),
        (with_rwx3("owner:"@, mode, 0o400, 0o200, 0o100), Role::Read),
        (" "@, Role::Plain),
        (with_rwx3("group:"@, mode, 0o40, 0o20, 0o10), Role::Write),
        (" "@, Role::Plain),
        (with_rwx3("others:"@, mode, 0o4, 0o2, 0o1), Role::Exec),
    ]
}

/// The mode in segments, in the form named by `format`: the plain text as
/// one segment where colours are off, else the coloured form, which is the
/// symbolic one for a name that is not known and where none is given.
pub open spec fn painted_permissions(mode: u32, format: Option<Seq<char>>, no_color: bool) -> Seq<
    (Seq<char>, Role),
> {
    let name = match format {
        Some(f) => f,
        None => "symbolic"@,
    };
    if no_color {
        seq![(plain_permissions(mode, format), Role::Plain)]
    } else if name == "octal"@ {
        octal_segments(mode)
    } else if name == "binary"@ {
        binary_segments(mode)
    } else if name == "verbose"@ {
        verbose_segments(mode)
    } else if name == "compact"@ {
        seq![(octal3(mode), Role::Read)]
    } else {
        symbolic_segments(mode)
    }
}

/// The segment of a file's kind.
pub fn kind_part(mode: u32) -> (s: Segment)
    ensures
        (s.text@, s.role) == kind_segment(mode),
{
    let role = if mode & KIND_MASK == KIND_LINK || mode & KIND_MASK == KIND_DIR {
        Role::Dir
    } else {
        Role::Absent
    };
    segment(kind_text(mode), role)
}

/// Appends the three segments of one class.
pub fn triplet(out: &mut Vec<Segment>, mode: u32, shift: u32)
    requires
        shift <= 29,
    ensures
        segment_views(final(out)@) == segment_views(old(out)@) + triplet_segments(mode, shift),
{
    let r = if (mode >> (shift + 2)) & 1u32 != 0 {
        segment("r", Role::Read)
    } else {
        segment("-", Role::Absent)
    };
    let w = if (mode >> (shift + 1)) & 1u32 != 0 {
        segment("w", Role::Write)
    } else {
        segment("-", Role::Absent)
    };
    let x = if (mode >> shift) & 1u32 != 0 {
        segment("x", Role::Exec)
    } else {
        segment("-", Role::Absent)
    };
    out.push(r);
    out.push(w);
    out.push(x);
    assert(segment_views(out@) =~= segment_views(old(out)@) + triplet_segments(mode, shift));
}

/// The symbolic form in segments.
pub fn format_symbolic_permissions(mode: u32) -> (r: Vec<Segment>)
    ensures
        segment_views(r@) == symbolic_segments(mode),
{
    let mut out: Vec<Segment> = Vec::new();
    out.push(kind_part(mode));
    assert(segment_views(out@) =~= seq![kind_segment(mode)]);
    triplet(&mut out, mode, 6);
    triplet(&mut out, mode, 3);
    triplet(&mut out, mode, 0);
    out
}

/// The octal form in segments.
pub fn format_octal_permissions(mode: u32) -> (r: Vec<Segment>)
    ensures
        segment_views(r@) == octal_segments(mode),
{
    let perms = mode & 0o777;
    let mut out: Vec<Segment> = Vec::new();
    out.push(kind_part(mode));
    out.push(segment(digit_text((perms >> 6) & 7), Role::Read));
    out.push(segment(digit_text((perms >> 3) & 7), Role::Write));
    out.push(segment(digit_text(perms & 7), Role::Exec));
    assert(segment_views(out@) =~= octal_segments(mode));
    out
}

/// One binary digit as a segment.
pub fn bit_part(mode: u32, mask: u32, role: Role) -> (s: Segment)
    ensures
        (s.text@, s.role) == bit_segment(mode, mask, role),
{
    if mode & mask != 0 {
        segment("1", role)
    } else {
        segment("0", Role::Absent)
    }
}

/// The binary form in segments.
pub fn format_binary_permissions(mode: u32) -> (r: Vec<Segment>)
    ensures
        segment_views(r@) == binary_segments(mode),
{
    let mut out: Vec<Segment> = Vec::new();
    out.push(kind_part(mode));
    out.push(bit_part(mode, 0o400, Role::Read));
    out.push(bit_part(mode, 0o200, Role::Read));
    out.push(bit_part(mode, 0o100, Role::Read));
    out.push(bit_part(mode, 0o40, Role::Write));
    out.push(bit_part(mode, 0o20, Role::Write));
    out.push(bit_part(mode, 0o10, Role::Write));
    out.push(bit_part(mode, 0o4, Role::Exec));
    out.push(bit_part(mode, 0o2, Role::Exec));
    out.push(bit_part(mode, 0o1, Role::Exec));
    assert(segment_views(out@) =~= binary_segments(mode));
    out
}

/// The permissions of one class after a label, as a segment.
pub fn class_part(label: &str, mode: u32, r: u32, w: u32, x: u32, role: Role) -> (s: Segment)
    ensures
        s.text@ == with_rwx3(label@, mode, r, w, x),
        s.role == role,
{
    let mut text = label.to_owned();
    push_rwx3(&mut text, mode, r, w, x);
    Segment { text, role }
}

/// The wordy form in segments.
pub fn format_verbose_permissions(mode: u32) -> (r: Vec<Segment>)
    ensures
        segment_views(r@) == verbose_segments(mode),
{
    let mut out: Vec<Segment> = Vec::new();
    let kind = if mode & KIND_MASK == KIND_LINK {
        segment("type:link", Role::Dir)
    } else if mode & KIND_MASK == KIND_DIR {
        segment("type:dir ", Role::Dir)
    } else {
        segment("type:file", Role::Absent)
    };
    out.push(kind);
    out.push(segment(" ", Role::Plain));
    out.push(class_part("owner:", mode, 0o400, 0o200, 0o100, Role::Read));
    out.push(segment(" ", Role::Plain));
    out.push(class_part("group:", mode, 0o40, 0o20, 0o10, Role::Write));
    out.push(segment(" ", Role::Plain));
    out.push(class_part("others:", mode, 0o4, 0o2, 0o1, Role::Exec));
    assert(segment_views(out@) =~= verbose_segments(mode));
    out
}

/// The compact form in segments.
pub fn format_compact_permissions(mode: u32) -> (r: Vec<Segment>)
    ensures
        segment_views(r@) == seq![(octal3(mode), Role::Read)],
{
    let mut text = String::new();
    push_octal3(&mut text, mode);
    let mut out: Vec<Segment> = Vec::new();
    out.push(Segment { text, role: Role::Read });
    assert(segment_views(out@) =~= seq![(octal3(mode), Role::Read)]);
    out
}

/// The mode in segments, in the form named by `format`, for a painter that
/// has colours switched off or on.
pub fn colorize_permissions(mode: u32, format: Option<&str>, no_color: bool) -> (r: Vec<Segment>)
    ensures
        segment_views(r@) == painted_permissions(
            mode,
            match format {
                Some(f) => Some(f@),
                None => None,
            },
            no_color,
        ),
{
    if no_color {
        let text = format_permissions_no_color(mode, format);
        let mut out: Vec<Segment> = Vec::new();
        out.push(Segment { text, role: Role::Plain });
        assert(segment_views(out@) =~= seq![(text@, Role::Plain)]);
        return out;
    }
    let name = match format {
        Some(f) => f,
        None => "symbolic",
    };
    if same_text(name, "octal") {
        format_octal_permissions(mode)
    } else if same_text(name, "binary") {
        format_binary_permissions(mode)
    } else if same_text(name, "verbose") {
        format_verbose_permissions(mode)
    } else if same_text(name, "compact") {
        format_compact_permissions(mode)
    } else {
        format_symbolic_permissions(mode)
    }
}

/// Whether output is coloured.
#[derive(Debug, Clone, Copy, PartialEq, Eq, Structural)]
pub struct ColorState {
    pub no_color: bool,
}

impl ColorState {
    /// The state for a run that was asked for colours or for none.
    pub fn new(no_color: bool) -> (c: Self)
        ensures
            c.no_color == no_color,
    {
        ColorState { no_color }
    }

    /// Whether colours are on.
    pub fn is_enabled(&self) -> (r: bool)
        ensures
            r == !self.no_color,
    {
        !self.no_color
    }
}

/// Whether anyone may execute a file of the mode.
pub fn is_executable(mode: u32) -> (r: bool)
    ensures
        r == (mode & 0o111 != 0),
{
    mode & 0o111 != 0
}

} // verus!
