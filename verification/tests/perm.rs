use dirlist::line::paint_text;
use dirlist::perm::{colorize_perm, test_mask, triad, Class};
use dirlist::style::Color;

fn bold(code: &str, glyph: &str) -> String {
    format!("\x1b[1;{}m{}\x1b[0m", code, glyph)
}

fn expected_triad(read: bool, write: bool, execute: bool) -> String {
    let r = if read { "r" } else { " " };
    let w = if write { "w" } else { " " };
    let x = if execute { "x" } else { " " };
    format!("{}{}{}", bold("33", r), bold("31", w), bold("32", x))
}

#[test]
fn paint_wraps_text_in_control_sequences() {
    assert_eq!(paint_text(Color::Yellow, true, "r"), "\x1b[1;33mr\x1b[0m");
    assert_eq!(paint_text(Color::Blue, false, "1 Jan"), "\x1b[34m1 Jan\x1b[0m");
    assert_eq!(paint_text(Color::Purple, false, "a"), "\x1b[35ma\x1b[0m");
    assert_eq!(paint_text(Color::Red, true, "w"), "\x1b[1;31mw\x1b[0m");
    assert_eq!(paint_text(Color::Green, true, ""), "\x1b[1;32m\x1b[0m");
}

#[test]
fn paint_agrees_with_ansiterm() {
    assert_eq!(
        paint_text(Color::Green, true, "42"),
        ansiterm::Colour::Green.bold().paint("42").to_string()
    );
    assert_eq!(
        paint_text(Color::Purple, false, "notes.txt"),
        ansiterm::Colour::Purple.paint("notes.txt").to_string()
    );
}

#[test]
fn mode_644_shows_rw_r_r() {
    let (owner, group, other) = colorize_perm(0o644);
    assert_eq!(owner, expected_triad(true, true, false));
    assert_eq!(group, expected_triad(true, false, false));
    assert_eq!(other, expected_triad(true, false, false));
}

#[test]
fn mode_zero_shows_painted_spaces() {
    let (owner, group, other) = colorize_perm(0);
    assert_eq!(owner, "\x1b[1;33m \x1b[0m\x1b[1;31m \x1b[0m\x1b[1;32m \x1b[0m");
    assert_eq!(group, owner);
    assert_eq!(other, owner);
}

#[test]
fn mode_777_shows_every_letter() {
    let (owner, group, other) = colorize_perm(0o777);
    assert_eq!(owner, expected_triad(true, true, true));
    assert_eq!(group, expected_triad(true, true, true));
    assert_eq!(other, expected_triad(true, true, true));
}

#[test]
fn every_pattern_shows_exactly_its_bits() {
    for mode in 0u32..=0o777 {
        let (owner, group, other) = colorize_perm(mode);
        let bit = |n: u32| mode & (1 << n) != 0;
        assert_eq!(owner, expected_triad(bit(8), bit(7), bit(6)), "mode {:o}", mode);
        assert_eq!(group, expected_triad(bit(5), bit(4), bit(3)), "mode {:o}", mode);
        assert_eq!(other, expected_triad(bit(2), bit(1), bit(0)), "mode {:o}", mode);
    }
}

#[test]
fn bits_above_the_lowest_nine_are_ignored() {
    assert_eq!(colorize_perm(0o100644), colorize_perm(0o644));
    assert_eq!(colorize_perm(0o40755), colorize_perm(0o755));
    assert_eq!(colorize_perm(u32::MAX), colorize_perm(0o777));
}

#[test]
fn triad_picks_the_class() {
    assert_eq!(triad(0o750, Class::Owner), expected_triad(true, true, true));
    assert_eq!(triad(0o750, Class::Group), expected_triad(true, false, true));
    assert_eq!(triad(0o750, Class::Other), expected_triad(false, false, false));
}

#[test]
fn mask_test_is_at_least_one_not_equality() {
    assert!(test_mask(0o644, 1 << 8));
    assert!(!test_mask(0o644, 1 << 6));
    assert!(test_mask(0o400, 0o600));
    assert!(!test_mask(0o044, 0o600));
    assert!(!test_mask(0, u32::MAX));
}
