//! Names of users and groups: what to make of a lookup in the system's
//! identity database, and what to show where it found nothing.

use crate::decimal::{decimal, decimal_digits, lemma_decimal_injective, lemma_decimal_round_trip};
use crate::style::option_text;
use vstd::prelude::*;
use vstd::utf8::{decode_utf8, valid_utf8};

verus! {

/// The size of the lookup buffer where the system recommends none.
pub const DEFAULT_BUFFER_LEN: usize = 512;

/// The buffer size for a lookup, from the system's hint.
pub open spec fn buffer_len(hint: i64) -> int {
    if 0 <= hint <= usize::MAX {
        hint as int
    } else {
        DEFAULT_BUFFER_LEN as int
    }
}

/// The name that a lookup gave: present where the call reported success
/// (status zero), an entry was found and its name is UTF-8.
pub open spec fn lookup_name(status: i32, found: bool, name: Seq<u8>) -> Option<Seq<char>> {
    if status == 0 && found && valid_utf8(name) {
        Some(decode_utf8(name))
    } else {
        None
    }
}

/// What stands for an owner or a group on a line: the name where there is
/// one, else the number in decimal notation.
pub open spec fn label_text(name: Option<Seq<char>>, id: u32) -> Seq<char> {
    match name {
        Some(text) => text,
        None => decimal_digits(id as nat),
    }
}

/// Calls `String::from_utf8` and drops the error's detail. Trusted: the call
/// succeeds on well-formed UTF-8 and on nothing else, and the string holds
/// the chars that the bytes encode.
#[verifier::external_body]
fn utf8_text(bytes: Vec<u8>) -> (text: Option<String>)
    ensures
        text is Some <==> valid_utf8(bytes@),
        text matches Some(t) ==> t@ == decode_utf8(bytes@),
{
    String::from_utf8(bytes).ok()
}

/// How many bytes to set aside for a lookup: the system's hint where it is
/// a size, the default where the hint is negative (none is known) or beyond
/// what this machine can address.
pub fn lookup_buffer_len(hint: i64) -> (len: usize)
    ensures
        len == buffer_len(hint),
{
    if hint < 0 {
        DEFAULT_BUFFER_LEN
    } else if hint as u64 <= usize::MAX as u64 {
        hint as usize
    } else {
        DEFAULT_BUFFER_LEN
    }
}

/// Reads the outcome of a lookup by number: `status` is what the call
/// returned, `found` tells whether it handed back an entry, `name` holds the
/// bytes of the entry's name.
pub fn resolve_lookup(status: i32, found: bool, name: Vec<u8>) -> (resolved: Option<String>)
    ensures
        option_text(resolved) == lookup_name(status, found, name@),
{
    if status == 0 && found {
        utf8_text(name)
    } else {
        None
    }
}

/// The text for an owner or a group: its name, or its number where the
/// lookup found no name.
pub fn name_or_id(name: &Option<String>, id: u32) -> (label: String)
    ensures
        label@ == label_text(option_text(*name), id),
{
    match name {
        Some(text) => text.clone(),
        None => decimal(id as u64),
    }
}

/// Without a name the label is the number and nothing else: it is made of
/// decimal digits, and two numbers get the same label only if they are the
/// same number.
pub proof fn lemma_label_without_name(a: u32, b: u32)
    ensures
        label_text(None, a) == decimal_digits(a as nat),
        label_text(None, a).len() >= 1,
        label_text(None, a) == label_text(None, b) ==> a == b,
{
    lemma_decimal_round_trip(a as nat);
    if label_text(None, a) == label_text(None, b) {
        lemma_decimal_injective(a as nat, b as nat);
    }
}

} // verus!
