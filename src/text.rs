//! Small character-level helpers on CSS and markup text.

use vstd::prelude::*;

verus! {

/// What `str::to_lowercase` makes of the characters `s`.
pub uninterp spec fn lower_of(s: Seq<char>) -> Seq<char>;

/// Every character of `s` is ASCII.
pub open spec fn all_ascii(s: Seq<char>) -> bool {
    forall|i: int| 0 <= i < s.len() ==> (#[trigger] s[i] as u32) < 128
}

/// An ASCII letter in lower case; any other character as it is.
pub open spec fn ascii_lower_char(c: char) -> char {
    if 'A' <= c && c <= 'Z' {
        ((c as u32) + 32) as char
    } else {
        c
    }
}

/// Relies on `str::to_lowercase`: the lower-case form of a tag name, which depends on its
/// characters alone; an ASCII text is lower-cased letter by letter, as the Unicode lower-case
/// mapping that it documents does for ASCII.
#[verifier::external_body]
pub(crate) fn lowercase(s: &str) -> (r: String)
    ensures
        r@ == lower_of(s@),
        all_ascii(s@) ==> r@ == s@.map_values(|c: char| ascii_lower_char(c)),
{
    s.to_lowercase()
}

/// Whether a colon stands in `s` outside `[...]` attribute brackets, given whether the text
/// before `s` left an attribute bracket open.
pub open spec fn marker_after(s: Seq<char>, in_brackets: bool) -> bool
    decreases s.len(),
{
    if s.len() == 0 {
        false
    } else if in_brackets {
        marker_after(s.drop_first(), s[0] != ']')
    } else if s[0] == '[' {
        marker_after(s.drop_first(), true)
    } else if s[0] == ':' {
        true
    } else {
        marker_after(s.drop_first(), false)
    }
}

/// The selector text `s` holds a pseudo-class or pseudo-element marker: a `:` (alone or as
/// `::`) outside attribute brackets.
pub open spec fn has_pseudo_marker(s: Seq<char>) -> bool {
    marker_after(s, false)
}

/// Whether the text `s` ends in the unit `px`.
pub open spec fn ends_with_px(s: Seq<char>) -> bool {
    s.len() >= 2 && s[s.len() - 2] == 'p' && s[s.len() - 1] == 'x'
}

/// Whether the text `s` ends in a percent sign.
pub open spec fn ends_with_percent(s: Seq<char>) -> bool {
    s.len() >= 1 && s[s.len() - 1] == '%'
}

/// `s` with a trailing `px` taken off.
pub open spec fn strip_px(s: Seq<char>) -> Seq<char> {
    s.subrange(0, s.len() - 2)
}

/// Whether the selector text `s` holds a pseudo-class or pseudo-element marker.
pub fn contains_pseudo_marker(s: &str) -> (r: bool)
    ensures
        r == has_pseudo_marker(s@),
{
    let n = s.unicode_len();
    let mut in_brackets = false;
    let mut i: usize = 0;
    assert(s@.skip(0) =~= s@);
    while i < n
        invariant
            n == s@.len(),
            i <= n,
            has_pseudo_marker(s@) == marker_after(s@.skip(i as int), in_brackets),
        decreases n - i,
    {
        let c = s.get_char(i);
        assert(s@.skip(i as int)[0] == c);
        assert(s@.skip(i as int).drop_first() =~= s@.skip(i + 1));
        if in_brackets {
            in_brackets = c != ']';
        } else if c == '[' {
            in_brackets = true;
        } else if c == ':' {
            return true;
        }
        i += 1;
    }
    assert(s@.skip(n as int).len() == 0);
    false
}

/// The text `s` ends in `px`.
pub fn has_px_suffix(s: &str) -> (r: bool)
    ensures
        r == ends_with_px(s@),
{
    let n = s.unicode_len();
    n >= 2 && s.get_char(n - 2) == 'p' && s.get_char(n - 1) == 'x'
}

/// The text `s` ends in `%`.
pub fn has_percent_suffix(s: &str) -> (r: bool)
    ensures
        r == ends_with_percent(s@),
{
    let n = s.unicode_len();
    n >= 1 && s.get_char(n - 1) == '%'
}

/// The number in front of a `px` unit.
pub fn without_px(s: &str) -> (r: String)
    requires
        ends_with_px(s@),
    ensures
        r@ == strip_px(s@),
{
    let n = s.unicode_len();
    String::from_str(s.substring_char(0, n - 2))
}

/// Whether `a` and `b` hold the same characters.
pub fn same_text(a: &str, b: &str) -> (r: bool)
    ensures
        r == (a@ == b@),
{
    let n = a.unicode_len();
    if n != b.unicode_len() {
        return false;
    }
    let mut i: usize = 0;
    while i < n
        invariant
            n == a@.len(),
            n == b@.len(),
            i <= n,
            forall|k: int| 0 <= k < i ==> #[trigger] a@[k] == b@[k],
        decreases n - i,
    {
        if a.get_char(i) != b.get_char(i) {
            return false;
        }
        i += 1;
    }
    assert(a@ =~= b@);
    true
}

} // verus!
