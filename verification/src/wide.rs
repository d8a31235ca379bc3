use vstd::prelude::*;
use crate::text::{chars_of, string_from_chars};

verus! {

/// The UTF-16 code units of one character.
pub open spec fn utf16_units(c: char) -> Seq<u16> {
    let v = c as u32;
    if v < 0x10000 {
        seq![v as u16]
    } else {
        seq![
            (0xd800 + (v - 0x10000) / 0x400) as u16,
            (0xdc00 + (v - 0x10000) % 0x400) as u16,
        ]
    }
}

/// The UTF-16 encoding of a string.
pub open spec fn utf16(s: Seq<char>) -> Seq<u16>
    decreases s.len(),
{
    if s.len() == 0 {
        Seq::<u16>::empty()
    } else {
        utf16(s.drop_last()) + utf16_units(s.last())
    }
}

/// A string as a NUL-terminated UTF-16 string, as Windows system calls take text.
pub fn wide_string(s: &str) -> (r: Vec<u16>)
    ensures
        r@ == utf16(s@).push(0),
{
    let chars = chars_of(s);
    let mut out: Vec<u16> = Vec::new();
    let mut i: usize = 0;
    assert(s@.take(0) =~= Seq::<char>::empty());
    while i < chars.len()
        invariant
            i <= chars@.len(),
            chars@ == s@,
            out@ == utf16(s@.take(i as int)),
        decreases chars.len() - i,
    {
        let c = chars[i];
        let v = c as u32;
        assert(s@.take(i + 1).drop_last() =~= s@.take(i as int));
        assert(s@.take(i + 1).last() == c);
        let ghost before = out@;
        if v < 0x10000 {
            out.push(v as u16);
            assert(out@ =~= before + utf16_units(c));
        } else {
            assert(v <= 0x10ffff) by {
                vstd::utf8::char_is_scalar(c);
            }
            let w = v - 0x10000;
            out.push((0xd800 + w / 0x400) as u16);
            out.push((0xdc00 + w % 0x400) as u16);
            assert(out@ =~= before + utf16_units(c));
        }
        i = i + 1;
    }
    assert(s@.take(i as int) =~= s@);
    out.push(0);
    out
}

/// The verbatim-path prefix `\\?\` that Windows puts before absolute paths.
pub open spec fn verbatim_prefix() -> Seq<char> {
    seq!['\\', '\\', '?', '\\']
}

/// A path's text without a leading `\\?\`.
pub open spec fn without_verbatim_prefix(p: Seq<char>) -> Seq<char> {
    if p.len() >= 4 && p.take(4) == verbatim_prefix() {
        p.skip(4)
    } else {
        p
    }
}

/// Removes a leading `\\?\` from a path's text (see `without_verbatim_prefix`).
pub fn strip_unc_prefix(p: &str) -> (r: String)
    ensures
        r@ == without_verbatim_prefix(p@),
{
    let chars = chars_of(p);
    let n = chars.len();
    let has = n >= 4 && chars[0] == '\\' && chars[1] == '\\' && chars[2] == '?' && chars[3] == '\\';
    if has {
        assert(p@.take(4) =~= verbatim_prefix());
        let mut out: Vec<char> = Vec::new();
        let mut i: usize = 4;
        while i < n
            invariant
                4 <= i <= n,
                n == chars@.len(),
                chars@ == p@,
                out@ == p@.subrange(4, i as int),
            decreases n - i,
        {
            out.push(chars[i]);
            i = i + 1;
            assert(out@ =~= p@.subrange(4, i as int));
        }
        assert(out@ =~= p@.skip(4));
        string_from_chars(out.as_slice())
    } else {
        proof {
            if p@.len() >= 4 && p@.take(4) == verbatim_prefix() {
                assert(p@.take(4)[0] == '\\');
                assert(p@.take(4)[1] == '\\');
                assert(p@.take(4)[2] == '?');
                assert(p@.take(4)[3] == '\\');
            }
        }
        string_from_chars(chars.as_slice())
    }
}

} // verus!
