//! Grapheme clusters and display widths, from `unicode-segmentation` and
//! `unicode-width`.

use unicode_segmentation::UnicodeSegmentation;
use unicode_width::{UnicodeWidthChar, UnicodeWidthStr};
use vstd::prelude::*;

verus! {

/// The extended grapheme clusters of a text, in order.
pub uninterp spec fn grapheme_clusters(s: Seq<char>) -> Seq<Seq<char>>;

/// Display width of a string (`UnicodeWidthStr::width`).
pub uninterp spec fn display_width(s: Seq<char>) -> nat;

/// Display width of a string with East Asian ambiguous characters counted
/// as wide (`UnicodeWidthStr::width_cjk`).
pub uninterp spec fn display_width_cjk(s: Seq<char>) -> nat;

/// Display width of one char (`UnicodeWidthChar::width`); `None` for
/// control characters.
pub uninterp spec fn char_display_width(c: char) -> Option<usize>;

/// The concatenation of a sequence of texts.
pub open spec fn concat(parts: Seq<Seq<char>>) -> Seq<char>
    decreases parts.len(),
{
    if parts.len() == 0 {
        Seq::empty()
    } else {
        concat(parts.drop_last()) + parts.last()
    }
}

/// The views of a vector of strings.
pub open spec fn views(v: Seq<String>) -> Seq<Seq<char>> {
    v.map_values(|s: String| s@)
}

/// `str::graphemes(true)`, collected. The clusters are non-empty and, in
/// order, make up the whole text.
#[verifier::external_body]
pub(crate) fn graphemes(s: &str) -> (g: Vec<String>)
    ensures
        views(g@) == grapheme_clusters(s@),
        concat(views(g@)) == s@,
        forall|i: int| 0 <= i < g@.len() ==> (#[trigger] g@[i])@.len() > 0,
{
    s.graphemes(true).map(str::to_owned).collect()
}

/// `UnicodeWidthStr::width`.
#[verifier::external_body]
pub(crate) fn str_width(s: &str) -> (w: usize)
    ensures
        w == display_width(s@),
{
    UnicodeWidthStr::width(s)
}

/// `UnicodeWidthStr::width_cjk`.
#[verifier::external_body]
pub(crate) fn str_width_cjk(s: &str) -> (w: usize)
    ensures
        w == display_width_cjk(s@),
{
    UnicodeWidthStr::width_cjk(s)
}

/// `UnicodeWidthChar::width`: `None` for control characters, otherwise a
/// width the crate's tables give, which is at most 3.
#[verifier::external_body]
pub(crate) fn char_width(c: char) -> (w: Option<usize>)
    ensures
        w == char_display_width(c),
        w matches Some(x) ==> x <= 3,
{
    UnicodeWidthChar::width(c)
}

/// Width of one grapheme cluster, with ambiguous-width characters counted as
/// wide when asked to.
pub open spec fn spec_grapheme_width(g: Seq<char>, ambiguous_width_wide: bool) -> nat {
    if ambiguous_width_wide { display_width_cjk(g) } else { display_width(g) }
}

pub fn grapheme_width(grapheme: &str, ambiguous_width_wide: bool) -> (w: usize)
    ensures
        w == spec_grapheme_width(grapheme@, ambiguous_width_wide),
{
    if ambiguous_width_wide {
        str_width_cjk(grapheme)
    } else {
        str_width(grapheme)
    }
}

pub proof fn lemma_concat_len(parts: Seq<Seq<char>>, k: int)
    requires
        0 <= k <= parts.len(),
    ensures
        concat(parts.take(k)).len() <= concat(parts).len(),
        concat(parts) == concat(parts.take(k)) + concat(parts.skip(k)),
    decreases parts.len(),
{
    if k == parts.len() {
        assert(parts.take(k) =~= parts);
        assert(parts.skip(k) =~= Seq::<Seq<char>>::empty());
        assert(concat(parts) =~= concat(parts) + Seq::<char>::empty());
    } else {
        lemma_concat_len(parts.drop_last(), k);
        assert(parts.drop_last().take(k) =~= parts.take(k));
        assert(parts.skip(k).drop_last() =~= parts.drop_last().skip(k));
        assert(parts.skip(k).last() == parts.last());
        assert(concat(parts) =~= concat(parts.take(k)) + concat(parts.skip(k)));
    }
}

} // verus!
