//! Row identifiers: 128-bit UUIDs and their text.

use vstd::arithmetic::power::pow;
use vstd::prelude::*;
use crate::number::digit;

verus! {

/// The places of the hyphens in an identifier's text.
pub open spec fn is_hyphen_place(i: int) -> bool {
    i == 8 || i == 13 || i == 18 || i == 23
}

/// How many hyphens stand before place `i`.
pub open spec fn hyphens_before(i: int) -> int {
    if i <= 8 {
        0
    } else if i <= 13 {
        1
    } else if i <= 18 {
        2
    } else if i <= 23 {
        3
    } else {
        4
    }
}

/// The text of an identifier: thirty-two hexadecimal digits, the highest first, in five groups.
pub open spec fn id_text(id: u128) -> Seq<char> {
    Seq::new(
        36,
        |i: int|
            if is_hyphen_place(i) {
                '-'
            } else {
                digit((id as int / pow(16, (31 - (i - hyphens_before(i))) as nat)) % 16)
            },
    )
}

/// The identifier a text stands for, in any of the forms UUIDs are written in.
pub uninterp spec fn id_value(text: Seq<char>) -> Option<u128>;

/// Prints an identifier with `uuid::Uuid`'s `Display`: lower-case hexadecimal digits in groups
/// of eight, four, four, four and twelve, joined by hyphens. `uuid::Uuid::parse_str` reads that
/// text back as the same identifier.
#[verifier::external_body]
pub(crate) fn print_id(id: u128) -> (r: String)
    ensures
        r@ == id_text(id),
        id_value(r@) == Some(id),
{
    uuid::Uuid::from_u128(id).to_string()
}

/// Reads an identifier with `uuid::Uuid::parse_str`. Whether and as which identifier a text
/// reads is a function of the text; its grammar is that of the `uuid` crate.
#[verifier::external_body]
pub(crate) fn parse_id(text: &str) -> (r: Option<u128>)
    ensures
        r == id_value(text@),
{
    uuid::Uuid::parse_str(text).ok().map(|id| id.as_u128())
}

/// The texts of a list of identifiers.
pub open spec fn id_texts(ids: Seq<u128>) -> Seq<Seq<char>> {
    Seq::new(ids.len(), |i: int| id_text(ids[i]))
}

/// The texts of a list of identifiers.
pub fn print_ids(ids: &Vec<u128>) -> (r: Vec<String>)
    ensures
        crate::text::texts(r@) == id_texts(ids@),
        r@.len() == ids@.len(),
        forall|i: int| 0 <= i < ids@.len() ==> id_value(#[trigger] r@[i]@) == Some(ids@[i]),
{
    let mut out: Vec<String> = Vec::new();
    let mut i: usize = 0;
    while i < ids.len()
        invariant
            i <= ids@.len(),
            crate::text::texts(out@) =~= id_texts(ids@).take(i as int),
            out@.len() == i,
            forall|k: int| 0 <= k < i ==> id_value(#[trigger] out@[k]@) == Some(ids@[k]),
        decreases ids@.len() - i,
    {
        let ghost before = out@;
        let text: String = print_id(ids[i]);
        let ghost held = text@;
        out.push(text);
        i += 1;
        assert(crate::text::texts(out@) =~= crate::text::texts(before).push(held));
    }
    assert(id_texts(ids@).take(i as int) =~= id_texts(ids@));
    out
}

/// An identifier's text is thirty-six characters: groups of eight, four, four, four and twelve
/// hexadecimal digits, in lower case, with hyphens between them.
pub proof fn identifiers_are_grouped_digits(id: u128)
    ensures
        id_text(id).len() == 36,
        id_text(id)[8] == '-' && id_text(id)[13] == '-' && id_text(id)[18] == '-' && id_text(
            id,
        )[23] == '-',
        forall|i: int|
            0 <= i < 36 && i != 8 && i != 13 && i != 18 && i != 23 ==> (48 <= #[trigger] id_text(
                id,
            )[i] as int <= 57 || 97 <= id_text(id)[i] as int <= 102),
        id_text(id)[35] == digit(id as int % 16),
{
    vstd::arithmetic::power::lemma_pow0(16);
    assert(id as int / 1 == id as int);
}

} // verus!
