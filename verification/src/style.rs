//! Terminal colors: what a painted piece of text looks like, char by char.

use vstd::prelude::*;

verus! {

/// The foreground colors that a listing uses.
#[derive(Clone, Copy, Debug, PartialEq, Eq, Structural)]
pub enum Color {
    Red,
    Green,
    Yellow,
    Blue,
    Purple,
}

/// The escape character that opens every control sequence.
pub open spec fn esc() -> char {
    '\x1b'
}

/// The last digit of a color's foreground code (`31` for red up to `35` for
/// purple).
pub open spec fn color_digit(color: Color) -> char {
    match color {
        Color::Red => '1',
        Color::Green => '2',
        Color::Yellow => '3',
        Color::Blue => '4',
        Color::Purple => '5',
    }
}

/// The control sequence that switches a style on: `ESC [ 3x m`, with `1;`
/// before the color code where the text is bold.
pub open spec fn style_prefix(color: Color, bold: bool) -> Seq<char> {
    if bold {
        seq![esc(), '[', '1', ';', '3', color_digit(color), 'm']
    } else {
        seq![esc(), '[', '3', color_digit(color), 'm']
    }
}

/// The control sequence that switches every style off: `ESC [ 0 m`.
pub open spec fn style_suffix() -> Seq<char> {
    seq![esc(), '[', '0', 'm']
}

/// Painted text: the style's prefix, the text itself, the reset sequence.
pub open spec fn painted(color: Color, bold: bool, text: Seq<char>) -> Seq<char> {
    style_prefix(color, bold) + text + style_suffix()
}

/// Calls `ansiterm::Colour::paint` on `text` and renders the outcome with
/// `to_string`. Trusted: the result is the foreground code of `color` as a
/// control sequence, then `text` unchanged, then the reset sequence.
#[verifier::external_body]
pub(crate) fn paint(color: Color, text: &str) -> (out: String)
    ensures
        out@ == painted(color, false, text@),
{
    let ink = match color {
        Color::Red => ansiterm::Colour::Red,
        Color::Green => ansiterm::Colour::Green,
        Color::Yellow => ansiterm::Colour::Yellow,
        Color::Blue => ansiterm::Colour::Blue,
        Color::Purple => ansiterm::Colour::Purple,
    };
    ink.paint(text).to_string()
}

/// Calls `ansiterm::Colour::bold`, then `ansiterm::Style::paint` on `text`,
/// and renders the outcome with `to_string`. Trusted: the result is the bold
/// code and the foreground code of `color` in one control sequence, then
/// `text` unchanged, then the reset sequence.
#[verifier::external_body]
pub(crate) fn paint_bold(color: Color, text: &str) -> (out: String)
    ensures
        out@ == painted(color, true, text@),
{
    let ink = match color {
        Color::Red => ansiterm::Colour::Red,
        Color::Green => ansiterm::Colour::Green,
        Color::Yellow => ansiterm::Colour::Yellow,
        Color::Blue => ansiterm::Colour::Blue,
        Color::Purple => ansiterm::Colour::Purple,
    };
    ink.bold().paint(text).to_string()
}

/// The text of a string that may be absent, as its chars.
pub open spec fn option_text(string: Option<String>) -> Option<Seq<char>> {
    match string {
        Some(text) => Some(text@),
        None => None,
    }
}

/// The texts of a row of strings, each as its chars.
pub open spec fn texts(strings: Seq<String>) -> Seq<Seq<char>> {
    Seq::new(strings.len(), |i: int| strings[i]@)
}

/// Whether a text holds no escape char, so that all of it shows.
pub open spec fn plain(text: Seq<char>) -> bool {
    forall|i: int| 0 <= i < text.len() ==> text[i] != esc()
}

/// What shows of `text` on a terminal, read from a point inside a control
/// sequence (`inside`) or outside one. A control sequence runs from an
/// escape char to the next `m`, and nothing of it shows.
pub open spec fn visible_from(text: Seq<char>, inside: bool) -> Seq<char>
    decreases text.len(),
{
    if text.len() == 0 {
        seq![]
    } else if inside {
        visible_from(text.drop_first(), text[0] != 'm')
    } else if text[0] == esc() {
        visible_from(text.drop_first(), true)
    } else {
        seq![text[0]] + visible_from(text.drop_first(), false)
    }
}

/// Whether the end of `text` lies inside a control sequence, read from a
/// point inside one (`inside`) or outside.
pub open spec fn inside_after(text: Seq<char>, inside: bool) -> bool
    decreases text.len(),
{
    if text.len() == 0 {
        inside
    } else if inside {
        inside_after(text.drop_first(), text[0] != 'm')
    } else {
        inside_after(text.drop_first(), text[0] == esc())
    }
}

/// What shows of `text` on a terminal.
pub open spec fn visible(text: Seq<char>) -> Seq<char> {
    visible_from(text, false)
}

/// Whether every control sequence of `text` comes to its end.
pub open spec fn complete(text: Seq<char>) -> bool {
    !inside_after(text, false)
}

/// What shows of two texts in a row is what shows of the first, then what
/// shows of the second read from where the first ends.
pub proof fn lemma_visible_concat(first: Seq<char>, second: Seq<char>, inside: bool)
    ensures
        visible_from(first + second, inside) == visible_from(first, inside) + visible_from(
            second,
            inside_after(first, inside),
        ),
        inside_after(first + second, inside) == inside_after(second, inside_after(first, inside)),
    decreases first.len(),
{
    if first.len() == 0 {
        assert(first + second =~= second);
        assert(visible_from(first, inside) + visible_from(second, inside) =~= visible_from(
            second,
            inside,
        ));
    } else {
        let next = if inside {
            first[0] != 'm'
        } else {
            first[0] == esc()
        };
        assert((first + second).drop_first() =~= first.drop_first() + second);
        assert((first + second)[0] == first[0]);
        lemma_visible_concat(first.drop_first(), second, next);
        let rest = visible_from(first.drop_first(), next);
        let tail = visible_from(second, inside_after(first, inside));
        assert((seq![first[0]] + rest) + tail =~= seq![first[0]] + (rest + tail));
    }
}

/// A text without an escape char shows as it is.
pub proof fn lemma_visible_plain(text: Seq<char>)
    requires
        plain(text),
    ensures
        visible(text) == text,
        complete(text),
    decreases text.len(),
{
    if text.len() > 0 {
        let rest = text.drop_first();
        assert forall|i: int| 0 <= i < rest.len() implies rest[i] != esc() by {
            assert(rest[i] == text[i + 1]);
        }
        lemma_visible_plain(rest);
        assert(seq![text[0]] + rest =~= text);
    }
}

/// Inside a control sequence nothing shows up to and with the first `m`.
proof fn lemma_hidden_until_m(text: Seq<char>)
    requires
        text.len() >= 1,
        text.last() == 'm',
        forall|i: int| 0 <= i < text.len() - 1 ==> text[i] != 'm',
    ensures
        visible_from(text, true) == Seq::<char>::empty(),
        !inside_after(text, true),
    decreases text.len(),
{
    if text.len() > 1 {
        let rest = text.drop_first();
        assert(rest.last() == text.last());
        assert forall|i: int| 0 <= i < rest.len() - 1 implies rest[i] != 'm' by {
            assert(rest[i] == text[i + 1]);
        }
        assert(text[0] != 'm');
        lemma_hidden_until_m(rest);
    } else {
        let rest = text.drop_first();
        assert(text[0] == 'm');
        assert(visible_from(rest, false) == Seq::<char>::empty());
        assert(!inside_after(rest, false));
    }
}

/// Painted text shows as the text alone, given that the text itself holds
/// no escape char; its control sequences are complete.
pub proof fn lemma_visible_painted(color: Color, bold: bool, text: Seq<char>)
    requires
        plain(text),
    ensures
        visible(painted(color, bold, text)) == text,
        complete(painted(color, bold, text)),
{
    let prefix = style_prefix(color, bold);
    let suffix = style_suffix();
    assert(visible(prefix) == Seq::<char>::empty() && complete(prefix)) by {
        lemma_hidden_until_m(prefix.drop_first());
    }
    assert(visible(suffix) == Seq::<char>::empty() && complete(suffix)) by {
        lemma_hidden_until_m(suffix.drop_first());
    }
    lemma_visible_plain(text);
    lemma_visible_concat(prefix, text, false);
    lemma_visible_concat(prefix + text, suffix, false);
    assert(visible(painted(color, bold, text)) =~= text);
}

/// Where the control sequences of a first text are complete, what shows of
/// two texts in a row is what shows of each.
pub proof fn lemma_visible_join(first: Seq<char>, second: Seq<char>)
    requires
        complete(first),
    ensures
        visible(first + second) == visible(first) + visible(second),
        complete(first + second) == complete(second),
{
    lemma_visible_concat(first, second, false);
}

} // verus!
