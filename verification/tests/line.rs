use dirlist::calendar::MonthNames;
use dirlist::line::{
    align_right, render_line, render_line_dated, type_marker, EntryView, DATE_WIDTH, NAME_WIDTH,
    SIZE_WIDTH,
};
use dirlist::style::Color;

const RW_R_R: &str = "\x1b[1;33mr\x1b[0m\x1b[1;31mw\x1b[0m\x1b[1;32m \x1b[0m\
\x1b[1;33mr\x1b[0m\x1b[1;31m \x1b[0m\x1b[1;32m \x1b[0m\
\x1b[1;33mr\x1b[0m\x1b[1;31m \x1b[0m\x1b[1;32m \x1b[0m";

fn notes() -> EntryView {
    EntryView {
        name: "notes.txt".to_string(),
        is_directory: false,
        permission_bits: 0o644,
        size_bytes: 42,
        owner_id: 1000,
        owner_name: Some("alice".to_string()),
        group_id: 50,
        group_name: Some("staff".to_string()),
        modified_at: 16 * 3600,
    }
}

/// What stays of a line once its control sequences are taken out.
fn shown(line: &str) -> String {
    let mut out = String::new();
    let mut inside = false;
    for c in line.chars() {
        if inside {
            inside = c != 'm';
        } else if c == '\x1b' {
            inside = true;
        } else {
            out.push(c);
        }
    }
    out
}

#[test]
fn column_widths() {
    assert_eq!(SIZE_WIDTH, 22);
    assert_eq!(DATE_WIDTH, 7);
    assert_eq!(NAME_WIDTH, 10);
}

#[test]
fn marker_is_a_dot_for_a_directory_and_d_for_the_rest() {
    assert_eq!(type_marker(true), "\x1b[1;34m.\x1b[0m");
    assert_eq!(type_marker(false), "\x1b[1;34md\x1b[0m");
}

#[test]
fn size_is_set_to_the_right_of_22_columns() {
    let field = align_right(Color::Green, true, "42", SIZE_WIDTH);
    assert_eq!(field, format!("{}\x1b[1;32m42\x1b[0m", " ".repeat(20)));
    assert_eq!(shown(&field), format!("{:>22}", "42"));
}

#[test]
fn every_size_fills_22_columns_and_ends_in_its_digits() {
    for size in [0u64, 9, 10, 4096, 1 << 40, u64::MAX - 1, u64::MAX] {
        let digits = size.to_string();
        let field = align_right(Color::Green, true, &digits, SIZE_WIDTH);
        let visible = shown(&field);
        assert_eq!(visible.chars().count(), 22);
        assert_eq!(visible.trim_start_matches(' '), digits);
        assert_eq!(visible, format!("{:>22}", digits));
    }
}

#[test]
fn a_text_wider_than_its_column_is_not_cut() {
    assert_eq!(
        align_right(Color::Purple, false, "a-rather-long-name", NAME_WIDTH),
        "\x1b[35ma-rather-long-name\x1b[0m"
    );
    assert_eq!(align_right(Color::Purple, false, "ten-chars!", NAME_WIDTH), "\x1b[35mten-chars!\x1b[0m");
    assert_eq!(align_right(Color::Blue, false, "", 0), "\x1b[34m\x1b[0m");
}

#[test]
fn width_counts_chars_not_bytes() {
    assert_eq!(align_right(Color::Purple, false, "żółw", 6), "  \x1b[35mżółw\x1b[0m");
}

#[test]
fn one_regular_file_gives_the_expected_line() {
    let expected = format!(
        "\x1b[1;34md\x1b[0m{} {}\x1b[1;32m42\x1b[0m \x1b[1;33malice\x1b[0m \x1b[1;33mstaff\x1b[0m   \x1b[34m1 Jan\x1b[0m  \x1b[35mnotes.txt\x1b[0m",
        RW_R_R,
        " ".repeat(20)
    );
    let line = render_line(&notes(), &MonthNames::english()).unwrap();
    assert_eq!(line, expected);
    assert_eq!(
        shown(&line),
        format!("drw r  r   {:>22} alice staff {:>7} {:>10}", "42", "1 Jan", "notes.txt")
    );
}

#[test]
fn a_directory_line_starts_with_a_dot() {
    let mut entry = notes();
    entry.is_directory = true;
    entry.permission_bits = 0o40755;
    entry.size_bytes = 4096;
    entry.name = "src".to_string();
    let line = render_line(&entry, &MonthNames::english()).unwrap();
    assert_eq!(
        shown(&line),
        format!(".rwxr xr x {:>22} alice staff {:>7} {:>10}", "4096", "1 Jan", "src")
    );
}

#[test]
fn an_unresolved_owner_or_group_shows_its_number() {
    let mut entry = notes();
    entry.owner_name = None;
    entry.group_name = None;
    let line = render_line(&entry, &MonthNames::english()).unwrap();
    assert!(line.contains(" \x1b[1;33m1000\x1b[0m \x1b[1;33m50\x1b[0m "));
    assert_eq!(
        shown(&line),
        format!("drw r  r   {:>22} 1000 50 {:>7} {:>10}", "42", "1 Jan", "notes.txt")
    );
}

#[test]
fn the_given_date_is_used_as_it_is() {
    let line = render_line_dated(&notes(), "30 Dec");
    assert!(line.contains("  \x1b[34m30 Dec\x1b[0m "));
    let line = render_line_dated(&notes(), "0 mois11");
    assert!(line.contains(" \x1b[34m0 mois11\x1b[0m "));
    assert_eq!(
        render_line_dated(&notes(), "1 Jan"),
        render_line(&notes(), &MonthNames::english()).unwrap()
    );
}

#[test]
fn an_entry_whose_time_has_no_date_has_no_line() {
    let mut entry = notes();
    entry.modified_at = i64::MAX;
    assert_eq!(render_line(&entry, &MonthNames::english()), None);
}
