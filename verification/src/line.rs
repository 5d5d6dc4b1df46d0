//! One line of a listing: the fields of an entry, in fixed columns.

use crate::calendar::{date_text, format_date, MonthNames};
use crate::decimal::{decimal, decimal_digits, is_digit, lemma_decimal_len_u64, lemma_decimal_round_trip};
use crate::identity::{label_text, name_or_id};
use crate::perm::{colorize_perm, lemma_triad_visible, triad_glyphs, triad_text, Class};
use crate::style::{
    complete, esc, lemma_visible_join, lemma_visible_painted, lemma_visible_plain,
    option_text, paint,
    paint_bold, painted, plain, visible, Color,
};
use vstd::prelude::*;

verus! {

/// The least width of the size column, in chars that show.
pub const SIZE_WIDTH: usize = 22;

/// The least width of the date column, in chars that show.
pub const DATE_WIDTH: usize = 7;

/// The least width of the name column, in chars that show.
pub const NAME_WIDTH: usize = 10;

/// What a listing shows of one directory entry. The names of owner and
/// group are absent where no name is known for the number.
#[derive(Clone, Debug, PartialEq, Eq)]
pub struct EntryView {
    pub name: String,
    pub is_directory: bool,
    pub permission_bits: u32,
    pub size_bytes: u64,
    pub owner_id: u32,
    pub owner_name: Option<String>,
    pub group_id: u32,
    pub group_name: Option<String>,
    pub modified_at: i64,
}

/// The char of the file-type column: a dot for a directory, `d` for
/// anything else.
pub open spec fn marker_glyph(is_directory: bool) -> char {
    if is_directory {
        '.'
    } else {
        'd'
    }
}

/// The file-type column: its glyph in bold blue.
pub open spec fn marker_text(is_directory: bool) -> Seq<char> {
    painted(Color::Blue, true, seq![marker_glyph(is_directory)])
}

/// A run of `n` spaces.
pub open spec fn spaces(n: nat) -> Seq<char> {
    Seq::new(n, |i: int| ' ')
}

/// How many spaces bring a text of `shown` chars up to `width`.
pub open spec fn pad_len(shown: nat, width: nat) -> nat {
    if shown < width {
        (width - shown) as nat
    } else {
        0
    }
}

/// A text set to the right of a column: the spaces that the column's width
/// asks for, then the text, painted. The width counts the chars of the text,
/// not those of the control sequences around it; a text wider than the
/// column is not cut.
pub open spec fn aligned(color: Color, bold: bool, text: Seq<char>, width: nat) -> Seq<char> {
    spaces(pad_len(text.len(), width)) + painted(color, bold, text)
}

/// The line of an entry whose day and month read `date`: marker and the
/// three triads with nothing between them, then size, owner, group, date
/// and name, each after one space.
pub open spec fn line_text(entry: EntryView, date: Seq<char>) -> Seq<char> {
    marker_text(entry.is_directory) + triad_text(entry.permission_bits, Class::Owner) + triad_text(
        entry.permission_bits,
        Class::Group,
    ) + triad_text(entry.permission_bits, Class::Other) + seq![' '] + aligned(
        Color::Green,
        true,
        decimal_digits(entry.size_bytes as nat),
        SIZE_WIDTH as nat,
    ) + seq![' '] + painted(
        Color::Yellow,
        true,
        label_text(option_text(entry.owner_name), entry.owner_id),
    ) + seq![' '] + painted(
        Color::Yellow,
        true,
        label_text(option_text(entry.group_name), entry.group_id),
    ) + seq![' '] + aligned(Color::Blue, false, date, DATE_WIDTH as nat) + seq![' '] + aligned(
        Color::Purple,
        false,
        entry.name@,
        NAME_WIDTH as nat,
    )
}

/// The line of an entry; `None` where its modification time has no date.
pub open spec fn entry_line(entry: EntryView, months: Seq<Seq<char>>) -> Option<Seq<char>> {
    match date_text(entry.modified_at, months) {
        Some(date) => Some(line_text(entry, date)),
        None => None,
    }
}

/// Paints a text, bold or not.
pub fn paint_text(color: Color, bold: bool, text: &str) -> (out: String)
    ensures
        out@ == painted(color, bold, text@),
{
    if bold {
        paint_bold(color, text)
    } else {
        paint(color, text)
    }
}

/// The file-type column of an entry.
pub fn type_marker(is_directory: bool) -> (text: String)
    ensures
        text@ == marker_text(is_directory),
{
    proof {
        reveal_strlit(".");
        reveal_strlit("d");
    }
    let glyph = if is_directory {
        "."
    } else {
        "d"
    };
    assert(glyph@ =~= seq![marker_glyph(is_directory)]);
    paint_bold(Color::Blue, glyph)
}

/// A run of `n` spaces.
fn blank(n: usize) -> (text: String)
    ensures
        text@ == spaces(n as nat),
{
    let mut text = String::new();
    let mut written: usize = 0;
    proof {
        reveal_strlit(" ");
    }
    assert(text@ =~= spaces(0));
    while written < n
        invariant
            written <= n,
            text@ == spaces(written as nat),
            " "@ == seq![' '],
        decreases n - written,
    {
        text.append(" ");
        written += 1;
        assert(text@ =~= spaces(written as nat));
    }
    text
}

/// Sets a text to the right of a column `width` chars wide and paints it.
pub fn align_right(color: Color, bold: bool, text: &str, width: usize) -> (out: String)
    ensures
        out@ == aligned(color, bold, text@, width as nat),
{
    let shown = text.unicode_len();
    let pad = if shown < width {
        width - shown
    } else {
        0
    };
    blank(pad).concat(paint_text(color, bold, text).as_str())
}

/// Writes the line of `entry`, with `date` for its day and month.
pub fn render_line_dated(entry: &EntryView, date: &str) -> (line: String)
    ensures
        line@ == line_text(*entry, date@),
{
    proof {
        reveal_strlit(" ");
    }
    let triads = colorize_perm(entry.permission_bits);
    let size = decimal(entry.size_bytes);
    let owner = name_or_id(&entry.owner_name, entry.owner_id);
    let group = name_or_id(&entry.group_name, entry.group_id);
    let mut line = type_marker(entry.is_directory);
    line.append(triads.0.as_str());
    line.append(triads.1.as_str());
    line.append(triads.2.as_str());
    line.append(" ");
    line.append(align_right(Color::Green, true, size.as_str(), SIZE_WIDTH).as_str());
    line.append(" ");
    line.append(paint_bold(Color::Yellow, owner.as_str()).as_str());
    line.append(" ");
    line.append(paint_bold(Color::Yellow, group.as_str()).as_str());
    line.append(" ");
    line.append(align_right(Color::Blue, false, date, DATE_WIDTH).as_str());
    line.append(" ");
    line.append(align_right(Color::Purple, false, entry.name.as_str(), NAME_WIDTH).as_str());
    assert(line@ =~= line_text(*entry, date@));
    line
}

/// Writes the line of `entry`, its modification time read nine hours ahead
/// of UTC; `None` where that time has no date.
pub fn render_line(entry: &EntryView, months: &MonthNames) -> (line: Option<String>)
    ensures
        option_text(line) == entry_line(*entry, months@),
{
    match format_date(entry.modified_at, months) {
        Some(date) => Some(render_line_dated(entry, date.as_str())),
        None => None,
    }
}

/// A text with the spaces in front of it that bring it up to `width`.
pub open spec fn set_right(text: Seq<char>, width: nat) -> Seq<char> {
    spaces(pad_len(text.len(), width)) + text
}

/// What shows of a line, column by column.
pub open spec fn line_shown(entry: EntryView, date: Seq<char>) -> Seq<char> {
    seq![marker_glyph(entry.is_directory)] + triad_glyphs(entry.permission_bits, Class::Owner)
        + triad_glyphs(entry.permission_bits, Class::Group) + triad_glyphs(
        entry.permission_bits,
        Class::Other,
    ) + seq![' '] + set_right(decimal_digits(entry.size_bytes as nat), SIZE_WIDTH as nat) + seq![
        ' ',
    ] + label_text(option_text(entry.owner_name), entry.owner_id) + seq![' '] + label_text(
        option_text(entry.group_name),
        entry.group_id,
    ) + seq![' '] + set_right(date, DATE_WIDTH as nat) + seq![' '] + set_right(
        entry.name@,
        NAME_WIDTH as nat,
    )
}

/// The decimal notation of a number holds no escape char.
proof fn lemma_decimal_plain(n: nat)
    ensures
        plain(decimal_digits(n)),
{
    lemma_decimal_round_trip(n);
    let digits = decimal_digits(n);
    assert forall|i: int| 0 <= i < digits.len() implies digits[i] != esc() by {
        assert(is_digit(digits[i]));
    }
}

/// What shows of an aligned text is the text set to the right of its
/// column: as wide as the column, or as the text where that is wider.
pub proof fn lemma_aligned_visible(color: Color, bold: bool, text: Seq<char>, width: nat)
    requires
        plain(text),
    ensures
        visible(aligned(color, bold, text, width)) == set_right(text, width),
        complete(aligned(color, bold, text, width)),
        text.len() < width ==> set_right(text, width).len() == width,
        text.len() >= width ==> set_right(text, width) == text,
{
    let pad = spaces(pad_len(text.len(), width));
    lemma_visible_plain(pad);
    lemma_visible_painted(color, bold, text);
    lemma_visible_join(pad, painted(color, bold, text));
    if text.len() >= width {
        assert(pad + text =~= text);
    }
}

/// The size column of every entry shows 22 chars: spaces, then the decimal
/// digits of the size and nothing else.
pub proof fn lemma_size_column(size: u64)
    ensures
        ({
            let digits = decimal_digits(size as nat);
            let column = visible(aligned(Color::Green, true, digits, SIZE_WIDTH as nat));
            &&& column.len() == 22
            &&& digits.len() <= 20
            &&& column == spaces((22 - digits.len()) as nat) + digits
        }),
{
    let digits = decimal_digits(size as nat);
    lemma_decimal_len_u64(size);
    lemma_decimal_plain(size as nat);
    lemma_aligned_visible(Color::Green, true, digits, SIZE_WIDTH as nat);
}

/// What shows of a line is its columns in a row, given that the names of
/// owner, group and file and the date hold no escape char of their own.
pub proof fn lemma_line_visible(entry: EntryView, date: Seq<char>)
    requires
        plain(label_text(option_text(entry.owner_name), entry.owner_id)),
        plain(label_text(option_text(entry.group_name), entry.group_id)),
        plain(date),
        plain(entry.name@),
    ensures
        visible(line_text(entry, date)) == line_shown(entry, date),
        complete(line_text(entry, date)),
{
    let mode = entry.permission_bits;
    let gap = seq![' '];
    let owner = label_text(option_text(entry.owner_name), entry.owner_id);
    let group = label_text(option_text(entry.group_name), entry.group_id);
    let digits = decimal_digits(entry.size_bytes as nat);
    let size = aligned(Color::Green, true, digits, SIZE_WIDTH as nat);
    let name = aligned(Color::Purple, false, entry.name@, NAME_WIDTH as nat);
    lemma_visible_painted(Color::Blue, true, seq![marker_glyph(entry.is_directory)]);
    lemma_triad_visible(mode, Class::Owner);
    lemma_triad_visible(mode, Class::Group);
    lemma_triad_visible(mode, Class::Other);
    lemma_visible_plain(gap);
    lemma_decimal_plain(entry.size_bytes as nat);
    lemma_aligned_visible(Color::Green, true, digits, SIZE_WIDTH as nat);
    lemma_visible_painted(Color::Yellow, true, owner);
    lemma_visible_painted(Color::Yellow, true, group);
    lemma_aligned_visible(Color::Blue, false, date, DATE_WIDTH as nat);
    lemma_aligned_visible(Color::Purple, false, entry.name@, NAME_WIDTH as nat);
    // Column after column: each is complete, so what shows adds up.
    let mut line = marker_text(entry.is_directory);
    lemma_visible_join(line, triad_text(mode, Class::Owner));
    line = line + triad_text(mode, Class::Owner);
    lemma_visible_join(line, triad_text(mode, Class::Group));
    line = line + triad_text(mode, Class::Group);
    lemma_visible_join(line, triad_text(mode, Class::Other));
    line = line + triad_text(mode, Class::Other);
    lemma_visible_join(line, gap);
    line = line + gap;
    lemma_visible_join(line, size);
    line = line + size;
    lemma_visible_join(line, gap);
    line = line + gap;
    lemma_visible_join(line, painted(Color::Yellow, true, owner));
    line = line + painted(Color::Yellow, true, owner);
    lemma_visible_join(line, gap);
    line = line + gap;
    lemma_visible_join(line, painted(Color::Yellow, true, group));
    line = line + painted(Color::Yellow, true, group);
    lemma_visible_join(line, gap);
    line = line + gap;
    lemma_visible_join(line, aligned(Color::Blue, false, date, DATE_WIDTH as nat));
    line = line + aligned(Color::Blue, false, date, DATE_WIDTH as nat);
    lemma_visible_join(line, gap);
    line = line + gap;
    lemma_visible_join(line, name);
}

} // verus!
