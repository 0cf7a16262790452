use lla::permissions::{
    colorize_permissions, format_binary_permissions, format_compact_permissions,
    format_octal_permissions, format_permissions_no_color, format_symbolic_permissions,
    format_verbose_permissions, is_executable, triplet, triplet_no_color, ColorState, Role,
    Segment,
};
use lla::sizemap::SizeMapFormatter;

const FILE: u32 = 0o100644;
const DIR: u32 = 0o040755;
const LINK: u32 = 0o120777;

fn parts(segments: &[Segment]) -> Vec<(&str, Role)> {
    segments.iter().map(|s| (s.text.as_str(), s.role)).collect()
}

fn text(segments: &[Segment]) -> String {
    segments.iter().map(|s| s.text.as_str()).collect()
}

#[test]
fn plain_forms_of_a_mode() {
    assert_eq!(format_permissions_no_color(FILE, Some("octal")), "-644");
    assert_eq!(format_permissions_no_color(DIR, Some("octal")), "d755");
    assert_eq!(format_permissions_no_color(LINK, Some("octal")), "l777");
    assert_eq!(format_permissions_no_color(FILE, Some("binary")), "-110100100");
    assert_eq!(format_permissions_no_color(DIR, Some("binary")), "d111101101");
    assert_eq!(format_permissions_no_color(FILE, Some("compact")), "644");
    assert_eq!(format_permissions_no_color(0o7, Some("compact")), "007");
    assert_eq!(
        format_permissions_no_color(FILE, Some("verbose")),
        "type:file owner:rw- group:r-- others:r--"
    );
    assert_eq!(
        format_permissions_no_color(DIR, Some("verbose")),
        "type:dir owner:rwx group:r-x others:r-x"
    );
    assert_eq!(
        format_permissions_no_color(LINK, Some("verbose")),
        "type:link owner:rwx group:rwx others:rwx"
    );
}

#[test]
fn the_extended_form_shows_the_special_bits() {
    assert_eq!(format_permissions_no_color(FILE, Some("extended")), "-rw-r--r--");
    assert_eq!(format_permissions_no_color(0o104755, Some("extended")), "-rwsr-xr-x");
    assert_eq!(format_permissions_no_color(0o104655, Some("extended")), "-rwSr-xr-x");
    assert_eq!(format_permissions_no_color(0o102755, Some("extended")), "-rwxr-sr-x");
    assert_eq!(format_permissions_no_color(0o102745, Some("extended")), "-rwxr-Sr-x");
    assert_eq!(format_permissions_no_color(0o041777, Some("extended")), "drwxrwxrwt");
    assert_eq!(format_permissions_no_color(0o041776, Some("extended")), "drwxrwxrwT");
}

#[test]
fn the_descriptive_form_spells_the_owner_out() {
    assert_eq!(
        format_permissions_no_color(FILE, Some("descriptive")),
        "regular file\nread\n & write\n"
    );
    assert_eq!(
        format_permissions_no_color(DIR, Some("descriptive")),
        "directory\nread\n & write\n & execute"
    );
    assert_eq!(
        format_permissions_no_color(0o120000, Some("descriptive")),
        "symbolic link\nnot read\n\n"
    );
}

#[test]
fn the_symbolic_form_repeats_all_letters_for_each_class() {
    assert_eq!(triplet_no_color(FILE, 6), "-rw-r--r--");
    assert_eq!(triplet_no_color(FILE, 0), "-rw-r--r--");
    assert_eq!(triplet_no_color(DIR, 3), "drwxr-xr-x");
    let whole = "--rw-r--r---rw-r--r---rw-r--r--";
    assert_eq!(format_permissions_no_color(FILE, None), whole);
    assert_eq!(format_permissions_no_color(FILE, Some("symbolic")), whole);
    assert_eq!(format_permissions_no_color(FILE, Some("unheard of")), whole);
}

#[test]
fn the_symbolic_form_in_segments() {
    let s = format_symbolic_permissions(FILE);
    assert_eq!(text(&s), "-rw-r--r--");
    assert_eq!(
        parts(&s),
        vec![
            ("-", Role::Absent),
            ("r", Role::Read),
            ("w", Role::Write),
            ("-", Role::Absent),
            ("r", Role::Read),
            ("-", Role::Absent),
            ("-", Role::Absent),
            ("r", Role::Read),
            ("-", Role::Absent),
            ("-", Role::Absent),
        ]
    );
    let d = format_symbolic_permissions(DIR);
    assert_eq!(text(&d), "drwxr-xr-x");
    assert_eq!(d[0].role, Role::Dir);
    assert_eq!(d[3].role, Role::Exec);
    assert_eq!(format_symbolic_permissions(LINK)[0].text, "l");
    let mut out = Vec::new();
    triplet(&mut out, 0o5, 0);
    assert_eq!(text(&out), "r-x");
    triplet(&mut out, 0o5, 29);
    assert_eq!(text(&out), "r-x---");
}

#[test]
fn the_other_forms_in_segments() {
    assert_eq!(
        parts(&format_octal_permissions(FILE)),
        vec![("-", Role::Absent), ("6", Role::Read), ("4", Role::Write), ("4", Role::Exec)]
    );
    let b = format_binary_permissions(DIR);
    assert_eq!(text(&b), "d111101101");
    assert_eq!(b[1].role, Role::Read);
    assert_eq!(b[5].role, Role::Absent);
    assert_eq!(b[6].role, Role::Write);
    assert_eq!(b[9].role, Role::Exec);
    assert_eq!(
        parts(&format_verbose_permissions(DIR)),
        vec![
            ("type:dir ", Role::Dir),
            (" ", Role::Plain),
            ("owner:rwx", Role::Read),
            (" ", Role::Plain),
            ("group:r-x", Role::Write),
            (" ", Role::Plain),
            ("others:r-x", Role::Exec),
        ]
    );
    assert_eq!(format_verbose_permissions(FILE)[0].text, "type:file");
    assert_eq!(format_verbose_permissions(LINK)[0].text, "type:link");
    assert_eq!(parts(&format_compact_permissions(DIR)), vec![("755", Role::Read)]);
}

#[test]
fn painting_picks_the_form_by_name() {
    assert_eq!(text(&colorize_permissions(FILE, Some("octal"), false)), "-644");
    assert_eq!(text(&colorize_permissions(FILE, Some("binary"), false)), "-110100100");
    assert_eq!(text(&colorize_permissions(FILE, Some("compact"), false)), "644");
    assert_eq!(text(&colorize_permissions(FILE, Some("verbose"), false)).len(), 40);
    assert_eq!(text(&colorize_permissions(FILE, None, false)), "-rw-r--r--");
    assert_eq!(text(&colorize_permissions(FILE, Some("extended"), false)), "-rw-r--r--");
    assert_eq!(
        parts(&colorize_permissions(FILE, Some("octal"), true)),
        vec![("-644", Role::Plain)]
    );
    assert_eq!(
        parts(&colorize_permissions(0o104755, Some("extended"), true)),
        vec![("-rwsr-xr-x", Role::Plain)]
    );
}

#[test]
fn a_file_is_executable_where_any_class_may_execute_it() {
    assert!(!is_executable(FILE));
    assert!(is_executable(DIR));
    assert!(is_executable(0o100));
    assert!(is_executable(0o010));
    assert!(is_executable(0o001));
    assert!(!is_executable(0o666));
}

#[test]
fn colours_are_on_unless_switched_off() {
    assert!(ColorState::new(false).is_enabled());
    assert!(!ColorState::new(true).is_enabled());
    assert!(SizeMapFormatter::new(true).show_icons);
    assert!(!SizeMapFormatter::new(false).show_icons);
}
