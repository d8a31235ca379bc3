use vstd::prelude::*;

verus! {

/// The characters of `s`, in order.
pub fn chars_of(s: &str) -> (v: Vec<char>)
    ensures
        v@ == s@,
{
    let mut v: Vec<char> = Vec::new();
    for c in it: s.chars()
        invariant
            v@ == it.seq().take(it.index() as int),
    {
        v.push(c);
    }
    v
}

/// `String`'s `FromIterator<char>` over a slice's characters: the string
/// holds exactly those characters, in order.
#[verifier::external_body]
pub(crate) fn string_from_chars(v: &[char]) -> (s: String)
    ensures
        s@ == v@,
{
    v.iter().collect()
}

/// `n` spaces.
pub open spec fn spaces(n: nat) -> Seq<char> {
    Seq::new(n, |_i: int| ' ')
}

/// Appends `n` spaces to `out`.
pub fn push_spaces(out: &mut Vec<char>, n: usize)
    ensures
        final(out)@ == old(out)@ + spaces(n as nat),
{
    let ghost start = out@;
    let mut i: usize = 0;
    while i < n
        invariant
            i <= n,
            out@ == start + spaces(i as nat),
        decreases n - i,
    {
        out.push(' ');
        i = i + 1;
        assert(start + spaces(i as nat) =~= (start + spaces((i - 1) as nat)).push(' '));
    }
}

/// Appends the characters of `s` to `out`.
pub fn push_str(out: &mut Vec<char>, s: &str)
    ensures
        final(out)@ == old(out)@ + s@,
{
    let ghost start = out@;
    for c in it: s.chars()
        invariant
            out@ == start + it.seq().take(it.index() as int),
    {
        out.push(c);
    }
}

/// What the standard library's `str::to_lowercase` returns for `s`.
pub uninterp spec fn lowercase(s: Seq<char>) -> Seq<char>;

/// `str::to_lowercase`; its result is named `lowercase`.
#[verifier::external_body]
pub(crate) fn to_lowercase(s: &str) -> (r: String)
    ensures
        r@ == lowercase(s@),
{
    s.to_lowercase()
}

/// The display width in columns that the `unicode-width` crate gives a
/// character (`None` for control characters).
pub uninterp spec fn char_width(c: char) -> Option<usize>;

/// The display width in columns that the `unicode-width` crate gives a string.
pub uninterp spec fn text_width(s: Seq<char>) -> usize;

/// `UnicodeWidthChar::width` of the `unicode-width` crate. Its result is
/// named `char_width`; the crate's source also shows that printable ASCII is
/// one column wide, that C0 and C1 control characters have no width, and that
/// widths come from a table of bytes.
#[verifier::external_body]
pub(crate) fn char_display_width(c: char) -> (r: Option<usize>)
    ensures
        r == char_width(c),
        0x20 <= c as u32 && (c as u32) < 0x7f ==> r == Some(1usize),
        (c as u32) < 0x20 || (0x7f <= c as u32 && (c as u32) < 0xa0) ==> r is None,
        r matches Some(w) ==> w <= 255,
{
    unicode_width::UnicodeWidthChar::width(c)
}

/// `UnicodeWidthStr::width` of the `unicode-width` crate; its result is named `text_width`.
#[verifier::external_body]
pub(crate) fn str_display_width(s: &str) -> (r: usize)
    ensures
        r == text_width(s@),
{
    unicode_width::UnicodeWidthStr::width(s)
}

/// The escape sequence that turns reverse video on (SGR 7).
pub open spec fn reverse_on() -> Seq<char> {
    seq!['\x1b', '[', '7', 'm']
}

/// The escape sequence that resets all attributes (SGR 0).
pub open spec fn attributes_off() -> Seq<char> {
    seq!['\x1b', '[', '0', 'm']
}

/// Texts for turning reverse video on (`on`) and resetting the attributes
/// (`off`) as the terminal back end writes them: each is its SGR sequence, or
/// empty where the console takes no ANSI sequences.
pub open spec fn rendition_texts(on: Seq<char>, off: Seq<char>) -> bool {
    &&& (on == reverse_on() || on.len() == 0)
    &&& (off == attributes_off() || off.len() == 0)
}

/// The `Display` text of the `crossterm` crate's `Attribute::Reverse`. Its
/// source writes `SetAttribute`'s ANSI form (CSI, the SGR number 7, `m`),
/// except on a Windows console without ANSI support, where it writes
/// nothing; which of the two depends on the console, so either may come back.
#[verifier::external_body]
pub(crate) fn reverse_on_text() -> (s: String)
    ensures
        s@ == reverse_on() || s@.len() == 0,
{
    format!("{}", crossterm::style::Attribute::Reverse)
}

/// The `Display` text of the `crossterm` crate's `Attribute::Reset`: CSI,
/// the SGR number 0 and `m`, or nothing on a Windows console without ANSI
/// support (see `reverse_on_text`).
#[verifier::external_body]
pub(crate) fn attributes_off_text() -> (s: String)
    ensures
        s@ == attributes_off() || s@.len() == 0,
{
    format!("{}", crossterm::style::Attribute::Reset)
}

/// A character's width, with no width counted as 0.
pub open spec fn width_or_zero(c: char) -> int {
    match char_width(c) {
        Some(w) => w as int,
        None => 0,
    }
}

/// The longest prefix of `s` whose widths, added to `used`, stay within
/// `limit`, followed by an ellipsis when some character did not fit.
pub open spec fn fit_prefix(s: Seq<char>, limit: int, used: int) -> Seq<char>
    decreases s.len(),
{
    if s.len() == 0 {
        Seq::<char>::empty()
    } else if used + width_or_zero(s[0]) > limit {
        seq!['\u{2026}']
    } else {
        seq![s[0]] + fit_prefix(s.drop_first(), limit, used + width_or_zero(s[0]))
    }
}

/// `s` padded with spaces to `max` display columns, or, when wider, cut to
/// fit in `max - 1` columns, ended with an ellipsis and padded.
pub open spec fn pad_or_truncate(s: Seq<char>, max: int) -> Seq<char> {
    if text_width(s) <= max {
        s + spaces((max - text_width(s)) as nat)
    } else {
        let out = fit_prefix(s, if max >= 1 { max - 1 } else { 0 }, 0);
        out + spaces(if max >= text_width(out) { (max - text_width(out)) as nat } else { 0 })
    }
}

/// Pads or cuts `s` to `max` display columns (see `pad_or_truncate`).
pub fn pad_or_truncate_text(s: &str, max: usize) -> (r: Vec<char>)
    ensures
        r@ == pad_or_truncate(s@, max as int),
{
    let w = str_display_width(s);
    if w <= max {
        let mut out = chars_of(s);
        push_spaces(&mut out, max - w);
        return out;
    }
    let limit = max.saturating_sub(1);
    let chars = chars_of(s);
    let mut out: Vec<char> = Vec::new();
    let mut used: usize = 0;
    let mut i: usize = 0;
    let mut done = false;
    assert(chars@.skip(0) =~= s@);
    assert(out@ + fit_prefix(s@, limit as int, 0) =~= fit_prefix(s@, limit as int, 0));
    while i < chars.len() && !done
        invariant
            i <= chars@.len(),
            chars@ == s@,
            used <= limit,
            limit == if max >= 1 { max - 1 } else { 0 },
            done ==> out@ == fit_prefix(s@, limit as int, 0),
            !done ==> out@ + fit_prefix(chars@.skip(i as int), limit as int, used as int)
                == fit_prefix(s@, limit as int, 0),
        decreases chars.len() - i, if done { 0int } else { 1int },
    {
        let c = chars[i];
        assert(chars@.skip(i as int).drop_first() =~= chars@.skip(i + 1));
        assert(chars@.skip(i as int)[0] == c);
        let cw = match char_display_width(c) {
            Some(x) => x,
            None => 0,
        };
        if cw > limit - used {
            let ghost before = out@;
            out.push('\u{2026}');
            assert(out@ =~= before + seq!['\u{2026}']);
            done = true;
        } else {
            let ghost before = out@;
            out.push(c);
            assert(out@ =~= before + seq![c]);
            assert(before + (seq![c] + fit_prefix(chars@.skip(i + 1), limit as int, used + cw))
                =~= out@ + fit_prefix(chars@.skip(i + 1), limit as int, used + cw));
            used = used + cw;
            i = i + 1;
        }
    }
    proof {
        if !done {
            assert(chars@.skip(i as int) =~= Seq::<char>::empty());
            assert(out@ =~= out@ + Seq::<char>::empty());
        }
    }
    let cut = string_from_chars(out.as_slice());
    let ow = str_display_width(cut.as_str());
    push_spaces(&mut out, max.saturating_sub(ow));
    out
}

} // verus!
