//! Permission bits: from the nine low bits of a mode to three colored triads.

use crate::style::{
    complete, lemma_visible_join, lemma_visible_painted, paint_bold, painted, plain, visible, Color,
};
use vstd::arithmetic::power2::pow2;
use vstd::bits::lemma_u32_shr_is_div;
use vstd::prelude::*;

verus! {

/// Whom a permission is granted to.
#[derive(Clone, Copy, Debug, PartialEq, Eq, Structural)]
pub enum Class {
    Owner,
    Group,
    Other,
}

/// What a permission allows.
#[derive(Clone, Copy, Debug, PartialEq, Eq, Structural)]
pub enum Access {
    Read,
    Write,
    Execute,
}

/// Whether bit number `bit` of `mode` is set; bit 0 is the least significant.
pub open spec fn has_bit(mode: u32, bit: nat) -> bool {
    (mode as nat / pow2(bit)) % 2 == 1
}

/// The number of the bit that grants `access` to `class`: owner 8, 7, 6;
/// group 5, 4, 3; other 2, 1, 0; each for read, write, execute.
pub open spec fn permission_bit(class: Class, access: Access) -> nat {
    let base: nat = match class {
        Class::Owner => 6,
        Class::Group => 3,
        Class::Other => 0,
    };
    let offset: nat = match access {
        Access::Read => 2,
        Access::Write => 1,
        Access::Execute => 0,
    };
    base + offset
}

/// The letter that shows a granted permission.
pub open spec fn access_letter(access: Access) -> char {
    match access {
        Access::Read => 'r',
        Access::Write => 'w',
        Access::Execute => 'x',
    }
}

/// The color of a permission's place in a triad, granted or not.
pub open spec fn access_color(access: Access) -> Color {
    match access {
        Access::Read => Color::Yellow,
        Access::Write => Color::Red,
        Access::Execute => Color::Green,
    }
}

/// The char at a permission's place: its letter where the bit is set, a
/// space where it is not.
pub open spec fn glyph(mode: u32, class: Class, access: Access) -> char {
    if has_bit(mode, permission_bit(class, access)) {
        access_letter(access)
    } else {
        ' '
    }
}

/// The three chars of a triad as they appear on screen.
pub open spec fn triad_glyphs(mode: u32, class: Class) -> Seq<char> {
    seq![
        glyph(mode, class, Access::Read),
        glyph(mode, class, Access::Write),
        glyph(mode, class, Access::Execute),
    ]
}

/// One place of a triad with its color: bold, and painted also where the
/// glyph is a space.
pub open spec fn painted_glyph(mode: u32, class: Class, access: Access) -> Seq<char> {
    painted(access_color(access), true, seq![glyph(mode, class, access)])
}

/// A triad as it is written: read, write and execute, each painted by
/// itself, nothing between them.
pub open spec fn triad_text(mode: u32, class: Class) -> Seq<char> {
    painted_glyph(mode, class, Access::Read) + painted_glyph(mode, class, Access::Write)
        + painted_glyph(mode, class, Access::Execute)
}

/// Testing a mode against the mask of a single bit, for "at least one",
/// tells whether that bit is set.
pub proof fn lemma_single_bit_mask(mode: u32, bit: u32)
    requires
        bit < 32,
    ensures
        ((mode & (1u32 << bit)) >= 1) == has_bit(mode, bit as nat),
{
    assert(((mode & (1u32 << bit)) >= 1) == ((mode >> bit) % 2 == 1)) by (bit_vector)
        requires
            bit < 32,
    ;
    lemma_u32_shr_is_div(mode, bit);
}

/// Whether `mode` holds a bit of `mask`. The test is "at least one", not
/// "equal to the mask".
pub fn test_mask(mode: u32, mask: u32) -> (set: bool)
    ensures
        set == ((mode & mask) >= 1),
{
    (mode & mask) >= 1
}

/// The number of the bit that grants `access` to `class`.
fn bit_index(class: Class, access: Access) -> (bit: u32)
    ensures
        bit == permission_bit(class, access),
        bit < 9,
{
    let base: u32 = match class {
        Class::Owner => 6,
        Class::Group => 3,
        Class::Other => 0,
    };
    let offset: u32 = match access {
        Access::Read => 2,
        Access::Write => 1,
        Access::Execute => 0,
    };
    base + offset
}

/// One place of a triad, painted.
fn paint_glyph(mode: u32, class: Class, access: Access) -> (text: String)
    ensures
        text@ == painted_glyph(mode, class, access),
{
    let bit = bit_index(class, access);
    let granted = test_mask(mode, 1u32 << bit);
    proof {
        lemma_single_bit_mask(mode, bit);
        reveal_strlit("r");
        reveal_strlit("w");
        reveal_strlit("x");
        reveal_strlit(" ");
    }
    let letter = match access {
        Access::Read => "r",
        Access::Write => "w",
        Access::Execute => "x",
    };
    let shown = if granted {
        letter
    } else {
        " "
    };
    assert(shown@ =~= seq![glyph(mode, class, access)]);
    let color = match access {
        Access::Read => Color::Yellow,
        Access::Write => Color::Red,
        Access::Execute => Color::Green,
    };
    paint_bold(color, shown)
}

/// The triad of one class: three painted places in the order read, write,
/// execute.
pub fn triad(mode: u32, class: Class) -> (text: String)
    ensures
        text@ == triad_text(mode, class),
{
    let read = paint_glyph(mode, class, Access::Read);
    let write = paint_glyph(mode, class, Access::Write);
    let execute = paint_glyph(mode, class, Access::Execute);
    read.concat(write.as_str()).concat(execute.as_str())
}

/// The triads of owner, group and other, in this order. Bits above the
/// lowest nine play no part.
pub fn colorize_perm(mode: u32) -> (triads: (String, String, String))
    ensures
        triads.0@ == triad_text(mode, Class::Owner),
        triads.1@ == triad_text(mode, Class::Group),
        triads.2@ == triad_text(mode, Class::Other),
{
    (triad(mode, Class::Owner), triad(mode, Class::Group), triad(mode, Class::Other))
}

/// Whether two modes are written as the same three triads.
pub open spec fn same_triads(a: u32, b: u32) -> bool {
    &&& triad_text(a, Class::Owner) == triad_text(b, Class::Owner)
    &&& triad_text(a, Class::Group) == triad_text(b, Class::Group)
    &&& triad_text(a, Class::Other) == triad_text(b, Class::Other)
}

/// A place of a triad holds its letter exactly where the bit is set, and a
/// space exactly where it is not.
pub proof fn lemma_glyph_tells_the_bit(mode: u32, class: Class, access: Access)
    ensures
        glyph(mode, class, access) == access_letter(access) <==> has_bit(
            mode,
            permission_bit(class, access),
        ),
        glyph(mode, class, access) == ' ' <==> !has_bit(mode, permission_bit(class, access)),
        plain(seq![glyph(mode, class, access)]),
{
}

/// What shows of a triad is its three glyphs, and nothing of its colors
/// reaches past its end.
pub proof fn lemma_triad_visible(mode: u32, class: Class)
    ensures
        visible(triad_text(mode, class)) == triad_glyphs(mode, class),
        triad_glyphs(mode, class).len() == 3,
        complete(triad_text(mode, class)),
{
    let read = painted_glyph(mode, class, Access::Read);
    let write = painted_glyph(mode, class, Access::Write);
    let execute = painted_glyph(mode, class, Access::Execute);
    lemma_glyph_tells_the_bit(mode, class, Access::Read);
    lemma_glyph_tells_the_bit(mode, class, Access::Write);
    lemma_glyph_tells_the_bit(mode, class, Access::Execute);
    lemma_visible_painted(Color::Yellow, true, seq![glyph(mode, class, Access::Read)]);
    lemma_visible_painted(Color::Red, true, seq![glyph(mode, class, Access::Write)]);
    lemma_visible_painted(Color::Green, true, seq![glyph(mode, class, Access::Execute)]);
    lemma_visible_join(read, write);
    lemma_visible_join(read + write, execute);
    assert(visible(triad_text(mode, class)) =~= triad_glyphs(mode, class));
}

/// A bit is set exactly where the mode, shifted down to it, is odd.
proof fn lemma_has_bit_shifted(mode: u32, bit: u32)
    requires
        bit < 32,
    ensures
        has_bit(mode, bit as nat) == ((mode >> bit) % 2 == 1),
{
    lemma_u32_shr_is_div(mode, bit);
}

/// Whether two modes grant the same to a class.
pub open spec fn same_grants(a: u32, b: u32, class: Class) -> bool {
    &&& has_bit(a, permission_bit(class, Access::Read)) == has_bit(
        b,
        permission_bit(class, Access::Read),
    )
    &&& has_bit(a, permission_bit(class, Access::Write)) == has_bit(
        b,
        permission_bit(class, Access::Write),
    )
    &&& has_bit(a, permission_bit(class, Access::Execute)) == has_bit(
        b,
        permission_bit(class, Access::Execute),
    )
}

/// The triad of a class is the same for two modes exactly when they grant
/// the same to that class.
pub proof fn lemma_triad_tells_its_bits(a: u32, b: u32, class: Class)
    ensures
        triad_text(a, class) == triad_text(b, class) <==> same_grants(a, b, class),
{
    lemma_triad_visible(a, class);
    lemma_triad_visible(b, class);
    if triad_text(a, class) == triad_text(b, class) {
        let shown_a = triad_glyphs(a, class);
        let shown_b = triad_glyphs(b, class);
        assert(shown_a[0] == shown_b[0]);
        assert(shown_a[1] == shown_b[1]);
        assert(shown_a[2] == shown_b[2]);
    }
}

/// The three triads show exactly the nine low bits of a mode: two modes are
/// written alike if and only if they agree in those bits.
pub proof fn lemma_triads_tell_the_nine_bits(a: u32, b: u32)
    ensures
        same_triads(a, b) <==> a % 512 == b % 512,
{
    lemma_triad_tells_its_bits(a, b, Class::Owner);
    lemma_triad_tells_its_bits(a, b, Class::Group);
    lemma_triad_tells_its_bits(a, b, Class::Other);
    lemma_has_bit_shifted(a, 0);
    lemma_has_bit_shifted(a, 1);
    lemma_has_bit_shifted(a, 2);
    lemma_has_bit_shifted(a, 3);
    lemma_has_bit_shifted(a, 4);
    lemma_has_bit_shifted(a, 5);
    lemma_has_bit_shifted(a, 6);
    lemma_has_bit_shifted(a, 7);
    lemma_has_bit_shifted(a, 8);
    lemma_has_bit_shifted(b, 0);
    lemma_has_bit_shifted(b, 1);
    lemma_has_bit_shifted(b, 2);
    lemma_has_bit_shifted(b, 3);
    lemma_has_bit_shifted(b, 4);
    lemma_has_bit_shifted(b, 5);
    lemma_has_bit_shifted(b, 6);
    lemma_has_bit_shifted(b, 7);
    lemma_has_bit_shifted(b, 8);
    assert(a % 512 == b % 512 <==> {
        &&& ((a >> 0u32) % 2 == 1) == ((b >> 0u32) % 2 == 1)
        &&& ((a >> 1u32) % 2 == 1) == ((b >> 1u32) % 2 == 1)
        &&& ((a >> 2u32) % 2 == 1) == ((b >> 2u32) % 2 == 1)
        &&& ((a >> 3u32) % 2 == 1) == ((b >> 3u32) % 2 == 1)
        &&& ((a >> 4u32) % 2 == 1) == ((b >> 4u32) % 2 == 1)
        &&& ((a >> 5u32) % 2 == 1) == ((b >> 5u32) % 2 == 1)
        &&& ((a >> 6u32) % 2 == 1) == ((b >> 6u32) % 2 == 1)
        &&& ((a >> 7u32) % 2 == 1) == ((b >> 7u32) % 2 == 1)
        &&& ((a >> 8u32) % 2 == 1) == ((b >> 8u32) % 2 == 1)
    }) by (bit_vector);
}

} // verus!
