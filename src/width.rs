use vstd::prelude::*;
use unicode_width::UnicodeWidthChar;

verus! {

/// The display width that the Unicode width tables give a character,
/// `None` for a control character.
pub uninterp spec fn table_width(c: char) -> Option<usize>;

/// Relies on `unicode_width::UnicodeWidthChar::width`: a table lookup on the
/// character alone. Printable ASCII is one column wide; the C0 and C1 control
/// codes have no width; every character from U+00A0 on has one.
#[verifier::external_body]
pub fn char_width(c: char) -> (r: Option<usize>)
    ensures
        r == table_width(c),
        0x20 <= c as u32 && (c as u32) < 0x7f ==> r == Some(1usize),
        (c as u32) < 0x20 || (0x7f <= c as u32 && (c as u32) < 0xa0) ==> r is None,
        0xa0 <= c as u32 ==> r is Some,
{
    UnicodeWidthChar::width(c)
}

/// Whether a character has a display width.
pub open spec fn measurable(c: char) -> bool {
    table_width(c) is Some
}

/// The display width of a character, in terminal cells.
pub open spec fn width_of(c: char) -> nat {
    match table_width(c) {
        Some(w) => w as nat,
        None => 0,
    }
}

/// The display width of a run of characters: the sum of their widths.
pub open spec fn text_width(s: Seq<char>) -> nat
    decreases s.len(),
{
    if s.len() == 0 {
        0
    } else {
        text_width(s.drop_last()) + width_of(s.last())
    }
}

/// Every character of `s` has a display width.
pub open spec fn all_measurable(s: Seq<char>) -> bool {
    forall|i: int| 0 <= i < s.len() ==> measurable(#[trigger] s[i])
}

/// The width of a concatenation is the sum of the widths.
pub proof fn lemma_text_width_concat(a: Seq<char>, b: Seq<char>)
    ensures
        text_width(a + b) == text_width(a) + text_width(b),
    decreases b.len(),
{
    if b.len() == 0 {
        assert(a + b =~= a);
    } else {
        lemma_text_width_concat(a, b.drop_last());
        assert((a + b).drop_last() =~= a + b.drop_last());
        assert((a + b).last() == b.last());
    }
}

/// The width of one character.
pub proof fn lemma_text_width_single(c: char)
    ensures
        text_width(seq![c]) == width_of(c),
{
    assert(seq![c].drop_last() =~= Seq::<char>::empty());
    assert(text_width(Seq::<char>::empty()) == 0);
}

/// A prefix is never wider than the whole.
pub proof fn lemma_prefix_width_bounded(s: Seq<char>, i: int)
    requires
        0 <= i <= s.len(),
    ensures
        text_width(s.subrange(0, i)) <= text_width(s),
{
    lemma_text_width_concat(s.subrange(0, i), s.subrange(i, s.len() as int));
    assert(s.subrange(0, i) + s.subrange(i, s.len() as int) =~= s);
}

/// Widening a prefix by one character adds that character's width.
pub proof fn lemma_prefix_width_step(s: Seq<char>, i: int)
    requires
        0 <= i < s.len(),
    ensures
        text_width(s.subrange(0, i + 1)) == text_width(s.subrange(0, i)) + width_of(s[i]),
{
    assert(s.subrange(0, i + 1).drop_last() =~= s.subrange(0, i));
}

} // verus!
