//! ASCII case folding for fragment text, and the law that a later case
//! modifier wins over an earlier one.

use vstd::prelude::*;

verus! {

pub open spec fn lower_byte(b: u8) -> u8 {
    if 'A' as u8 <= b <= 'Z' as u8 {
        (b + 32) as u8
    } else {
        b
    }
}

pub open spec fn upper_byte(b: u8) -> u8 {
    if 'a' as u8 <= b <= 'z' as u8 {
        (b - 32) as u8
    } else {
        b
    }
}

pub open spec fn lower_bytes(s: Seq<u8>) -> Seq<u8> {
    s.map_values(|b: u8| lower_byte(b))
}

pub open spec fn upper_bytes(s: Seq<u8>) -> Seq<u8> {
    s.map_values(|b: u8| upper_byte(b))
}

/// Case-folds `text` to lowercase, ASCII letters only.
pub fn to_lower(text: &Vec<u8>) -> (r: Vec<u8>)
    ensures
        r@ == lower_bytes(text@),
{
    let mut r: Vec<u8> = Vec::new();
    let mut i: usize = 0;
    while i < text.len()
        invariant
            i <= text@.len(),
            r@ == lower_bytes(text@).take(i as int),
        decreases text@.len() - i,
    {
        let b = text[i];
        if 'A' as u8 <= b && b <= 'Z' as u8 {
            r.push(b + 32);
        } else {
            r.push(b);
        }
        assert(r@ =~= lower_bytes(text@).take(i + 1));
        i = i + 1;
    }
    assert(r@ =~= lower_bytes(text@));
    r
}

/// Case-folds `text` to uppercase, ASCII letters only.
pub fn to_upper(text: &Vec<u8>) -> (r: Vec<u8>)
    ensures
        r@ == upper_bytes(text@),
{
    let mut r: Vec<u8> = Vec::new();
    let mut i: usize = 0;
    while i < text.len()
        invariant
            i <= text@.len(),
            r@ == upper_bytes(text@).take(i as int),
        decreases text@.len() - i,
    {
        let b = text[i];
        if 'a' as u8 <= b && b <= 'z' as u8 {
            r.push(b - 32);
        } else {
            r.push(b);
        }
        assert(r@ =~= upper_bytes(text@).take(i + 1));
        i = i + 1;
    }
    assert(r@ =~= upper_bytes(text@));
    r
}

/// Conflicting case modifiers on one fragment: the one applied last wins.
/// Folding to lowercase and then to uppercase gives the same text as
/// folding to uppercase alone.
pub proof fn lemma_upper_after_lower(s: Seq<u8>)
    ensures
        upper_bytes(lower_bytes(s)) == upper_bytes(s),
{
    assert forall|i: int| 0 <= i < s.len() implies upper_byte(lower_byte(s[i])) == upper_byte(
        s[i],
    ) by {}
    assert(upper_bytes(lower_bytes(s)) =~= upper_bytes(s));
}

/// The mirror of [`lemma_upper_after_lower`]: folding to uppercase and
/// then to lowercase gives the same text as folding to lowercase alone.
pub proof fn lemma_lower_after_upper(s: Seq<u8>)
    ensures
        lower_bytes(upper_bytes(s)) == lower_bytes(s),
{
    assert forall|i: int| 0 <= i < s.len() implies lower_byte(upper_byte(s[i])) == lower_byte(
        s[i],
    ) by {}
    assert(lower_bytes(upper_bytes(s)) =~= lower_bytes(s));
}

} // verus!
