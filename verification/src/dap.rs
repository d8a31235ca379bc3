use vstd::prelude::*;
use vstd::utf8::{valid_utf8, decode_utf8};
use crate::decimal::{decimal, push_decimal};

verus! {

/// The text of a message header: `Content-Length: ` and a space.
pub open spec fn length_label() -> Seq<u8> {
    seq![67u8, 111, 110, 116, 101, 110, 116, 45, 76, 101, 110, 103, 116, 104, 58, 32]
}

/// The blank line that ends a header: CR LF CR LF.
pub open spec fn header_terminator() -> Seq<u8> {
    seq![13u8, 10, 13, 10]
}

/// A debug-adapter message on the wire: the header announcing the payload's
/// length in bytes, then the payload.
pub open spec fn frame_bytes(payload: Seq<u8>) -> Seq<u8> {
    length_label() + decimal(payload.len()) + header_terminator() + payload
}

/// Frames a message payload for the debug adapter (see `frame_bytes`).
pub fn frame_message(payload: &[u8]) -> (r: Vec<u8>)
    ensures
        r@ == frame_bytes(payload@),
{
    let label: [u8; 16] = [67, 111, 110, 116, 101, 110, 116, 45, 76, 101, 110, 103, 116, 104, 58, 32];
    let mut out: Vec<u8> = Vec::new();
    let mut i: usize = 0;
    while i < 16
        invariant
            i <= 16,
            label@ == length_label(),
            out@ == length_label().take(i as int),
        decreases 16 - i,
    {
        out.push(label[i]);
        i = i + 1;
        assert(out@ =~= length_label().take(i as int));
    }
    assert(length_label().take(16) =~= length_label());
    push_decimal(&mut out, payload.len() as u64);
    out.push(13);
    out.push(10);
    out.push(13);
    out.push(10);
    let ghost head = out@;
    let mut j: usize = 0;
    while j < payload.len()
        invariant
            j <= payload@.len(),
            out@ == head + payload@.take(j as int),
        decreases payload.len() - j,
    {
        out.push(payload[j]);
        j = j + 1;
        assert(out@ =~= head + payload@.take(j as int));
    }
    assert(payload@.take(j as int) =~= payload@);
    assert(out@ =~= frame_bytes(payload@));
    out
}

/// The header terminator starts at index `i` of `buf`.
pub open spec fn terminator_at(buf: Seq<u8>, i: int) -> bool {
    &&& 0 <= i
    &&& i + 4 <= buf.len()
    &&& buf[i] == 13
    &&& buf[i + 1] == 10
    &&& buf[i + 2] == 13
    &&& buf[i + 3] == 10
}

/// The index of the first header terminator at or after `i`.
pub open spec fn terminator_from(buf: Seq<u8>, i: int) -> Option<int>
    decreases buf.len() - i,
{
    if i < 0 || i + 4 > buf.len() {
        None
    } else if terminator_at(buf, i) {
        Some(i)
    } else {
        terminator_from(buf, i + 1)
    }
}

proof fn lemma_terminator_from(buf: Seq<u8>, i: int)
    ensures
        terminator_from(buf, i) matches Some(h) ==> terminator_at(buf, h) && h >= i,
    decreases buf.len() - i,
{
    if !(i < 0 || i + 4 > buf.len()) && !terminator_at(buf, i) {
        lemma_terminator_from(buf, i + 1);
    }
}

/// Finds the first header terminator in `buf` (see `terminator_from`).
pub fn find_header_end(buf: &[u8]) -> (r: Option<usize>)
    ensures
        match r {
            Some(i) => terminator_from(buf@, 0) == Some(i as int),
            None => terminator_from(buf@, 0) is None,
        },
{
    let mut i: usize = 0;
    while i < buf.len() && buf.len() - i >= 4
        invariant
            i <= buf@.len(),
            terminator_from(buf@, 0) == terminator_from(buf@, i as int),
        decreases buf.len() - i,
    {
        if buf[i] == 13 && buf[i + 1] == 10 && buf[i + 2] == 13 && buf[i + 3] == 10 {
            return Some(i);
        }
        i = i + 1;
    }
    None
}

/// `String::from_utf8_lossy`: the text of `bytes` with each invalid sequence
/// replaced by U+FFFD.
pub uninterp spec fn lossy_text(bytes: Seq<u8>) -> Seq<char>;

/// The text of a header's bytes: their characters when they are valid
/// UTF-8, and otherwise what `String::from_utf8_lossy` makes of them.
pub open spec fn header_text(bytes: Seq<u8>) -> Seq<char> {
    if valid_utf8(bytes) {
        decode_utf8(bytes)
    } else {
        lossy_text(bytes)
    }
}

/// `String::from_utf8_lossy`. The standard library documents that valid
/// UTF-8 converts to its own characters, unchanged; on other input its
/// result is named `lossy_text`.
#[verifier::external_body]
fn utf8_lossy(bytes: &[u8]) -> (r: Vec<char>)
    ensures
        valid_utf8(bytes@) ==> r@ == decode_utf8(bytes@),
        !valid_utf8(bytes@) ==> r@ == lossy_text(bytes@),
{
    String::from_utf8_lossy(bytes).chars().collect()
}

/// The pieces of `s` between `sep` characters (at least one, empty pieces kept).
pub open spec fn split_chars(s: Seq<char>, sep: char) -> Seq<Seq<char>>
    decreases s.len(),
{
    if s.len() == 0 {
        seq![Seq::<char>::empty()]
    } else {
        let f = split_chars(s.drop_last(), sep);
        if s.last() == sep {
            f.push(Seq::<char>::empty())
        } else {
            f.update(f.len() - 1, f.last().push(s.last()))
        }
    }
}

/// `s` without one trailing carriage return.
pub open spec fn strip_cr(s: Seq<char>) -> Seq<char> {
    if s.len() > 0 && s.last() == '\r' {
        s.drop_last()
    } else {
        s
    }
}

/// The lines of `text` as `str::lines` yields them: split at each line feed,
/// a carriage return before a line feed dropped, and no empty line after a
/// final line feed.
pub open spec fn text_lines(text: Seq<char>) -> Seq<Seq<char>> {
    let pieces = split_chars(text, '\n');
    let n = pieces.len() as int;
    let body = Seq::new((n - 1) as nat, |i: int| strip_cr(pieces[i]));
    if pieces[n - 1].len() == 0 {
        body
    } else {
        body.push(pieces[n - 1])
    }
}

/// `c` with ASCII upper case turned to lower case.
pub open spec fn ascii_lower(c: char) -> char {
    if 'A' <= c <= 'Z' {
        ((c as u32) + 32) as char
    } else {
        c
    }
}

/// A character with the Unicode White_Space property, which `str::trim` removes.
pub open spec fn is_white_space(c: char) -> bool {
    ||| '\u{9}' <= c <= '\u{d}'
    ||| c == ' '
    ||| c == '\u{85}'
    ||| c == '\u{a0}'
    ||| c == '\u{1680}'
    ||| '\u{2000}' <= c <= '\u{200a}'
    ||| c == '\u{2028}'
    ||| c == '\u{2029}'
    ||| c == '\u{202f}'
    ||| c == '\u{205f}'
    ||| c == '\u{3000}'
}

/// `s` without leading white space.
pub open spec fn trim_start_text(s: Seq<char>) -> Seq<char>
    decreases s.len(),
{
    if s.len() > 0 && is_white_space(s[0]) {
        trim_start_text(s.drop_first())
    } else {
        s
    }
}

/// `s` without trailing white space.
pub open spec fn trim_end_text(s: Seq<char>) -> Seq<char>
    decreases s.len(),
{
    if s.len() > 0 && is_white_space(s.last()) {
        trim_end_text(s.drop_last())
    } else {
        s
    }
}

/// `s` without leading and trailing white space, as `str::trim` leaves it.
pub open spec fn trim_text(s: Seq<char>) -> Seq<char> {
    trim_end_text(trim_start_text(s))
}

/// An ASCII decimal digit character.
pub open spec fn is_digit_char(c: char) -> bool {
    '0' <= c <= '9'
}

/// The number that a digit string denotes.
pub open spec fn digit_chars_value(s: Seq<char>) -> nat
    decreases s.len(),
{
    if s.len() == 0 {
        0
    } else {
        digit_chars_value(s.drop_last()) * 10 + ((s.last() as u32) - 48) as nat
    }
}

/// The digits of unsigned number text: one leading `+` is allowed.
pub open spec fn unsigned_text(s: Seq<char>) -> Seq<char> {
    if s.len() > 0 && s[0] == '+' {
        s.skip(1)
    } else {
        s
    }
}

/// Every character of `d` is an ASCII digit.
pub open spec fn all_digit_chars(d: Seq<char>) -> bool {
    forall|i: int| 0 <= i < d.len() ==> is_digit_char(#[trigger] d[i])
}

/// How text parses as a `usize`: an optional `+`, then one or more ASCII
/// digits, the value fitting in `usize`.
pub open spec fn parse_usize_text(s: Seq<char>) -> Option<nat> {
    let d = unsigned_text(s);
    if d.len() > 0 && all_digit_chars(d) && digit_chars_value(d) <= usize::MAX {
        Some(digit_chars_value(d))
    } else {
        None
    }
}

/// The header field name that announces the payload length, in lower case.
pub open spec fn length_field() -> Seq<char> {
    seq!['c', 'o', 'n', 't', 'e', 'n', 't', '-', 'l', 'e', 'n', 'g', 't', 'h', ':']
}

/// The payload length a header line announces: its lower-case form starts
/// with `content-length:` and the rest, trimmed, parses as a `usize`.
pub open spec fn line_length(line: Seq<char>) -> Option<nat> {
    let lower = line.map_values(|c: char| ascii_lower(c));
    if lower.len() >= 15 && lower.take(15) == length_field() {
        parse_usize_text(trim_text(lower.skip(15)))
    } else {
        None
    }
}

/// The length announced by the first header line that announces one.
pub open spec fn first_length(lines: Seq<Seq<char>>) -> Option<nat>
    decreases lines.len(),
{
    if lines.len() == 0 {
        None
    } else {
        match line_length(lines[0]) {
            Some(n) => Some(n),
            None => first_length(lines.drop_first()),
        }
    }
}

/// The payload length a message header's text announces.
pub open spec fn header_length(text: Seq<char>) -> Option<nat> {
    first_length(text_lines(text))
}

/// A message found at the start of a byte buffer.
#[derive(Clone, Copy, Debug, PartialEq, Eq, Structural)]
pub struct Frame {
    /// The payload's length, as the header announced it.
    pub content_length: usize,
    /// Where the payload starts in the buffer.
    pub payload_start: usize,
    /// How many bytes of the buffer the message takes, header included.
    pub consumed: usize,
}

/// The message at the start of `buf`, if a whole one is there: the header
/// ends at the first blank line, announces the payload length, and the
/// payload has fully arrived. The header's bytes are read as text with
/// invalid UTF-8 replaced (`header_text`).
pub open spec fn frame_at_start(buf: Seq<u8>) -> Option<Frame> {
    match terminator_from(buf, 0) {
        None => None,
        Some(h) => match header_length(header_text(buf.take(h))) {
            None => None,
            Some(n) => if buf.len() < h + 4 + n {
                None
            } else {
                Some(Frame { content_length: n as usize, payload_start: (h + 4) as usize, consumed: (h + 4 + n) as usize })
            },
        },
    }
}

/// Decoding `buf` computes without overflow: when a length is announced,
/// the end of its payload is a `usize`.
pub open spec fn frame_fits(buf: Seq<u8>) -> bool {
    match terminator_from(buf, 0) {
        None => true,
        Some(h) => match header_length(header_text(buf.take(h))) {
            None => true,
            Some(n) => h + 4 + n <= usize::MAX,
        },
    }
}

} // verus!

verus! {

/// The characters of each vector.
pub open spec fn char_rows(v: Seq<Vec<char>>) -> Seq<Seq<char>> {
    v.map_values(|x: Vec<char>| x@)
}

fn split_chars_exec(s: &Vec<char>, sep: char) -> (r: Vec<Vec<char>>)
    ensures
        char_rows(r@) == split_chars(s@, sep),
{
    let mut done: Vec<Vec<char>> = Vec::new();
    let mut cur: Vec<char> = Vec::new();
    let mut i: usize = 0;
    assert(s@.take(0) =~= Seq::<char>::empty());
    assert(char_rows(done@).push(cur@) =~= split_chars(s@.take(0), sep));
    while i < s.len()
        invariant
            i <= s@.len(),
            char_rows(done@).push(cur@) == split_chars(s@.take(i as int), sep),
        decreases s.len() - i,
    {
        let c = s[i];
        let ghost prev = char_rows(done@).push(cur@);
        assert(s@.take(i + 1).drop_last() =~= s@.take(i as int));
        if c == sep {
            let finished = cur;
            done.push(finished);
            cur = Vec::new();
            assert(char_rows(done@).push(cur@) =~= prev.push(Seq::<char>::empty()));
        } else {
            cur.push(c);
            assert(char_rows(done@).push(cur@) =~= prev.update(prev.len() - 1, prev.last().push(c)));
        }
        i = i + 1;
    }
    assert(s@.take(s@.len() as int) =~= s@);
    done.push(cur);
    done
}

proof fn lemma_split_chars_nonempty(s: Seq<char>, sep: char)
    ensures
        split_chars(s, sep).len() >= 1,
    decreases s.len(),
{
    if s.len() > 0 {
        lemma_split_chars_nonempty(s.drop_last(), sep);
    }
}

fn strip_cr_exec(v: Vec<char>) -> (r: Vec<char>)
    ensures
        r@ == strip_cr(v@),
{
    let mut v = v;
    if v.len() > 0 && v[v.len() - 1] == '\r' {
        v.pop();
    }
    v
}

/// The lines of `text` (see `text_lines`).
pub fn lines_of(text: &Vec<char>) -> (r: Vec<Vec<char>>)
    ensures
        char_rows(r@) == text_lines(text@),
{
    let pieces = split_chars_exec(text, '\n');
    proof {
        lemma_split_chars_nonempty(text@, '\n');
    }
    let ghost pv = char_rows(pieces@);
    let n = pieces.len();
    let mut out: Vec<Vec<char>> = Vec::new();
    let mut i: usize = 0;
    while i + 1 < n
        invariant
            i + 1 <= n,
            n == pieces@.len(),
            pv == char_rows(pieces@),
            char_rows(out@) == Seq::new(i as nat, |k: int| strip_cr(pv[k])),
        decreases n - i,
    {
        let mut copy: Vec<char> = Vec::new();
        let mut j: usize = 0;
        while j < pieces[i].len()
            invariant
                i + 1 < n,
                n == pieces@.len(),
                j <= pieces@[i as int]@.len(),
                copy@ == pieces@[i as int]@.take(j as int),
            decreases pieces@[i as int]@.len() - j,
        {
            copy.push(pieces[i][j]);
            j = j + 1;
            assert(copy@ =~= pieces@[i as int]@.take(j as int));
        }
        assert(copy@ =~= pv[i as int]);
        let line = strip_cr_exec(copy);
        let ghost before = char_rows(out@);
        out.push(line);
        assert(char_rows(out@) =~= before.push(strip_cr(pv[i as int])));
        i = i + 1;
        assert(char_rows(out@) =~= Seq::new(i as nat, |k: int| strip_cr(pv[k])));
    }
    let last = &pieces[n - 1];
    if last.len() > 0 {
        let mut copy: Vec<char> = Vec::new();
        let mut j: usize = 0;
        while j < last.len()
            invariant
                j <= last@.len(),
                copy@ == last@.take(j as int),
            decreases last@.len() - j,
        {
            copy.push(last[j]);
            j = j + 1;
            assert(copy@ =~= last@.take(j as int));
        }
        assert(copy@ =~= pv[n - 1]);
        let ghost before = char_rows(out@);
        out.push(copy);
        assert(char_rows(out@) =~= before.push(pv[n - 1]));
    }
    out
}

fn is_white_space_char(c: char) -> (r: bool)
    ensures
        r == is_white_space(c),
{
    ('\u{9}' <= c && c <= '\u{d}') || c == ' ' || c == '\u{85}' || c == '\u{a0}' || c == '\u{1680}'
        || ('\u{2000}' <= c && c <= '\u{200a}') || c == '\u{2028}' || c == '\u{2029}' || c
        == '\u{202f}' || c == '\u{205f}' || c == '\u{3000}'
}

/// `s` trimmed of white space (see `trim_text`).
pub fn trim_chars(s: &Vec<char>) -> (r: Vec<char>)
    ensures
        r@ == trim_text(s@),
{
    let mut start: usize = 0;
    assert(s@.skip(0) =~= s@);
    while start < s.len() && is_white_space_char(s[start])
        invariant
            start <= s@.len(),
            trim_start_text(s@) == trim_start_text(s@.skip(start as int)),
        decreases s.len() - start,
    {
        assert(s@.skip(start as int).drop_first() =~= s@.skip(start + 1));
        start = start + 1;
    }
    let ghost front = s@.skip(start as int);
    assert(trim_start_text(s@) == front);
    let mut end: usize = s.len();
    assert(front.take(front.len() as int) =~= front);
    while end > start && is_white_space_char(s[end - 1])
        invariant
            start <= end <= s@.len(),
            front == s@.skip(start as int),
            trim_end_text(front) == trim_end_text(front.take(end - start)),
        decreases end,
    {
        assert(front.take(end - start).drop_last() =~= front.take(end - start - 1));
        end = end - 1;
    }
    let mut r: Vec<char> = Vec::new();
    let mut k: usize = start;
    while k < end
        invariant
            start <= k <= end,
            end <= s@.len(),
            front == s@.skip(start as int),
            r@ == front.take(k - start),
        decreases end - k,
    {
        r.push(s[k]);
        k = k + 1;
        assert(r@ =~= front.take(k - start));
    }
    r
}

proof fn lemma_digit_chars_prefix(s: Seq<char>, k: int)
    requires
        0 <= k <= s.len(),
        forall|i: int| 0 <= i < s.len() ==> is_digit_char(#[trigger] s[i]),
    ensures
        digit_chars_value(s.take(k)) <= digit_chars_value(s),
    decreases s.len(),
{
    if k < s.len() {
        assert(s.drop_last().take(k) =~= s.take(k));
        assert(s.take(s.len() as int) =~= s);
        lemma_digit_chars_prefix(s.drop_last(), k);
    } else {
        assert(s.take(k) =~= s);
    }
}

/// Parses text as a `usize` (see `parse_usize_text`).
pub fn parse_usize_chars(s: &Vec<char>) -> (r: Option<usize>)
    ensures
        match r {
            Some(v) => parse_usize_text(s@) == Some(v as nat),
            None => parse_usize_text(s@) is None,
        },
{
    let start: usize = if s.len() > 0 && s[0] == '+' {
        1
    } else {
        0
    };
    let ghost d = unsigned_text(s@);
    assert(d =~= s@.skip(start as int));
    if start == s.len() {
        return None;
    }
    let mut value: usize = 0;
    let mut i: usize = start;
    while i < s.len()
        invariant
            start <= i <= s@.len(),
            start == (if s@.len() > 0 && s@[0] == '+' { 1usize } else { 0usize }),
            d == s@.skip(start as int),
            d == unsigned_text(s@),
            forall|j: int| 0 <= j < i - start ==> is_digit_char(#[trigger] d[j]),
            value as nat == digit_chars_value(d.take(i - start)),
        decreases s.len() - i,
    {
        let c = s[i];
        if !('0' <= c && c <= '9') {
            assert(d[i - start] == c);
            assert(!is_digit_char(d[i - start]));
            assert(!all_digit_chars(d));
            return None;
        }
        assert(d.take(i + 1 - start).drop_last() =~= d.take(i - start));
        assert(d.take(i + 1 - start).last() == c);
        let digit = (c as u32 - 48) as usize;
        assert(digit_chars_value(d.take(i + 1 - start)) == value as nat * 10 + digit as nat);
        let next = match value.checked_mul(10) {
            Some(m) => m.checked_add(digit),
            None => None,
        };
        match next {
            Some(v) => {
                value = v;
            },
            None => {
                proof {
                    assert(value as nat * 10 + digit as nat > usize::MAX);
                    if all_digit_chars(d) {
                        lemma_digit_chars_prefix(d, i + 1 - start);
                    }
                }
                return None;
            },
        }
        i = i + 1;
    }
    assert(d.take(s.len() - start) =~= d);
    Some(value)
}

/// The payload length a header line announces (see `line_length`).
pub fn line_content_length(line: &Vec<char>) -> (r: Option<usize>)
    ensures
        match r {
            Some(v) => line_length(line@) == Some(v as nat),
            None => line_length(line@) is None,
        },
{
    let ghost lower_spec = line@.map_values(|c: char| ascii_lower(c));
    let mut lower: Vec<char> = Vec::new();
    let mut i: usize = 0;
    while i < line.len()
        invariant
            i <= line@.len(),
            lower@ == line@.take(i as int).map_values(|c: char| ascii_lower(c)),
        decreases line.len() - i,
    {
        let c = line[i];
        let l = if 'A' <= c && c <= 'Z' {
            ((c as u8) + 32) as char
        } else {
            c
        };
        assert(l == ascii_lower(c));
        lower.push(l);
        i = i + 1;
        assert(lower@ =~= line@.take(i as int).map_values(|c: char| ascii_lower(c)));
    }
    assert(line@.take(i as int) =~= line@);
    if lower.len() < 15 {
        return None;
    }
    let field: [char; 15] = ['c', 'o', 'n', 't', 'e', 'n', 't', '-', 'l', 'e', 'n', 'g', 't', 'h', ':'];
    let mut k: usize = 0;
    while k < 15
        invariant
            lower@ == line@.map_values(|c: char| ascii_lower(c)),
            k <= 15,
            15 <= lower@.len(),
            field@ == length_field(),
            forall|j: int| 0 <= j < k ==> lower@[j] == length_field()[j],
        decreases 15 - k,
    {
        if lower[k] != field[k] {
            assert(lower@.take(15)[k as int] != length_field()[k as int]);
            return None;
        }
        k = k + 1;
    }
    assert(lower@.take(15) =~= length_field());
    let mut rest: Vec<char> = Vec::new();
    let mut j: usize = 15;
    while j < lower.len()
        invariant
            15 <= j <= lower@.len(),
            rest@ == lower@.subrange(15, j as int),
        decreases lower.len() - j,
    {
        rest.push(lower[j]);
        j = j + 1;
        assert(rest@ =~= lower@.subrange(15, j as int));
    }
    assert(rest@ =~= lower@.skip(15));
    let trimmed = trim_chars(&rest);
    parse_usize_chars(&trimmed)
}

/// The payload length a message header's text announces (see `header_length`).
pub fn header_content_length(text: &Vec<char>) -> (r: Option<usize>)
    ensures
        match r {
            Some(v) => header_length(text@) == Some(v as nat),
            None => header_length(text@) is None,
        },
{
    let lines = lines_of(text);
    let ghost lv = char_rows(lines@);
    let mut i: usize = 0;
    assert(lv.skip(0) =~= lv);
    while i < lines.len()
        invariant
            i <= lines@.len(),
            lv == char_rows(lines@),
            lv == text_lines(text@),
            first_length(lv) == first_length(lv.skip(i as int)),
        decreases lines.len() - i,
    {
        assert(lv.skip(i as int)[0] == lines@[i as int]@);
        assert(lv.skip(i as int).drop_first() =~= lv.skip(i + 1));
        match line_content_length(&lines[i]) {
            Some(n) => {
                return Some(n);
            },
            None => {},
        }
        i = i + 1;
    }
    assert(lv.skip(i as int) =~= Seq::<Seq<char>>::empty());
    None
}

/// The outcome of looking for a message at the start of a buffer.
#[derive(Clone, Copy, Debug, PartialEq, Eq, Structural)]
pub enum FrameScan {
    /// No whole message yet.
    Incomplete,
    /// The header announces a length whose payload end is not a `usize`.
    TooLong,
    /// A whole message.
    Complete(Frame),
}

fn scan_frame(buf: &[u8]) -> (r: FrameScan)
    ensures
        r == FrameScan::TooLong <==> !frame_fits(buf@),
        r == FrameScan::Incomplete <==> (frame_fits(buf@) && frame_at_start(buf@) is None),
        r matches FrameScan::Complete(f) ==> frame_fits(buf@) && frame_at_start(buf@) == Some(f),
{
    let h = match find_header_end(buf) {
        Some(h) => h,
        None => {
            return FrameScan::Incomplete;
        },
    };
    proof {
        lemma_terminator_from(buf@, 0);
    }
    let header = vstd::slice::slice_subrange(buf, 0, h);
    assert(header@ =~= buf@.take(h as int));
    let text = utf8_lossy(header);
    let n = match header_content_length(&text) {
        Some(n) => n,
        None => {
            return FrameScan::Incomplete;
        },
    };
    let blen = buf.len();
    let start = h + 4;
    if n > usize::MAX - start {
        return FrameScan::TooLong;
    }
    if buf.len() < start + n {
        return FrameScan::Incomplete;
    }
    FrameScan::Complete(Frame { content_length: n, payload_start: start, consumed: start + n })
}

/// The whole message at the start of `buf`, if one has arrived (see
/// `frame_at_start`). The announced length must fit (see `frame_fits`);
/// `try_decode_frame` tests that first.
pub fn decode_frame(buf: &[u8]) -> (r: Option<Frame>)
    requires
        frame_fits(buf@),
    ensures
        r == frame_at_start(buf@),
{
    match scan_frame(buf) {
        FrameScan::Complete(f) => Some(f),
        _ => None,
    }
}

/// Like `decode_frame`, but `None` when the announced length does not fit
/// (see `frame_fits`), and `Some` of `decode_frame`'s result otherwise.
pub fn try_decode_frame(buf: &[u8]) -> (r: Option<Option<Frame>>)
    ensures
        r is None <==> !frame_fits(buf@),
        r matches Some(f) ==> f == frame_at_start(buf@),
{
    if let FrameScan::TooLong = scan_frame(buf) {
        None
    } else {
        Some(decode_frame(buf))
    }
}

} // verus!

verus! {

proof fn lemma_decimal_digits(n: nat)
    ensures
        decimal(n).len() >= 1,
        forall|i: int| 0 <= i < decimal(n).len() ==> 48 <= #[trigger] decimal(n)[i] <= 57,
    decreases n,
{
    if n >= 10 {
        lemma_decimal_digits(n / 10);
    }
}

proof fn lemma_decimal_value(n: nat)
    ensures
        digit_chars_value(decimal(n).map_values(|b: u8| b as char)) == n,
    decreases n,
{
    let dc = decimal(n).map_values(|b: u8| b as char);
    lemma_decimal_digits(n);
    let last = decimal(n).last();
    assert(last == (48 + n % 10) as u8);
    assert((last as char) as u32 == last as u32);
    assert(dc.last() == last as char);
    assert(((dc.last() as u32) - 48) as nat == n % 10);
    assert(dc.len() > 0);
    assert(digit_chars_value(dc) == digit_chars_value(dc.drop_last()) * 10 + ((dc.last() as u32)
        - 48) as nat);
    if n >= 10 {
        lemma_decimal_value(n / 10);
        assert(dc.drop_last() =~= decimal(n / 10).map_values(|b: u8| b as char));
        assert((n / 10) * 10 + n % 10 == n);
    } else {
        assert(dc.drop_last() =~= Seq::<char>::empty());
    }
}

proof fn lemma_split_without_sep(s: Seq<char>, sep: char)
    requires
        forall|i: int| 0 <= i < s.len() ==> s[i] != sep,
    ensures
        split_chars(s, sep) == seq![s],
    decreases s.len(),
{
    if s.len() == 0 {
        assert(s =~= Seq::<char>::empty());
    } else {
        lemma_split_without_sep(s.drop_last(), sep);
        assert(s.drop_last().push(s.last()) =~= s);
    }
}

proof fn lemma_terminator_search(b: Seq<u8>, i: int, h: int)
    requires
        0 <= i <= h,
        terminator_at(b, h),
        forall|j: int| 0 <= j < h ==> b[j] != 13,
    ensures
        terminator_from(b, i) == Some(h),
    decreases h - i,
{
    if i < h {
        assert(b[i] != 13);
        lemma_terminator_search(b, i + 1, h);
    }
}

proof fn lemma_frame_header(n: nat)
    ensures
        forall|j: int|
            0 <= j < (length_label() + decimal(n)).len() ==> #[trigger] (length_label() + decimal(
                n,
            ))[j] != 13,
        header_length(header_text(length_label() + decimal(n))) == if n <= usize::MAX {
            Some(n)
        } else {
            None
        },
{
    let d = decimal(n);
    let head = length_label() + d;
    lemma_decimal_digits(n);
    assert forall|j: int| 0 <= j < head.len() implies #[trigger] head[j] != 13 by {
        if j < 16 {
            assert(head[j] == length_label()[j]);
        } else {
            assert(head[j] == d[j - 16]);
        }
    }
    // The header is ASCII, so it reads back as its own characters.
    let text = head.map_values(|b: u8| b as char);
    assert forall|i: int| 0 <= i < text.len() implies '\0' <= #[trigger] text[i] <= '\u{7f}' by {
        if i < 16 {
            assert(head[i] == length_label()[i]);
        } else {
            assert(head[i] == d[i - 16]);
        }
    }
    vstd::utf8::is_ascii_chars_encode_utf8(text);
    assert(vstd::utf8::encode_utf8(text) =~= head);
    vstd::utf8::encode_utf8_valid_utf8(text);
    vstd::utf8::encode_utf8_decode_utf8(text);
    // The header is one line, announcing the payload's length.
    assert forall|i: int| 0 <= i < text.len() implies text[i] != '\n' by {
        if i < 16 {
            assert(head[i] == length_label()[i]);
        } else {
            assert(head[i] == d[i - 16]);
        }
    }
    lemma_split_without_sep(text, '\n');
    assert(text_lines(text) =~= seq![text]);
    let lower = text.map_values(|c: char| ascii_lower(c));
    let digits = d.map_values(|b: u8| b as char);
    assert(lower.take(15) =~= length_field());
    assert(lower.skip(15) =~= seq![' '] + digits);
    assert(trim_start_text(seq![' '] + digits) == trim_start_text(digits)) by {
        assert((seq![' '] + digits).drop_first() =~= digits);
    }
    assert(trim_text(lower.skip(15)) == digits);
    lemma_decimal_value(n);
    assert(unsigned_text(digits) == digits);
    assert(all_digit_chars(digits));
    let expect = if n <= usize::MAX {
        Some(n)
    } else {
        None
    };
    assert(line_length(text) == expect);
    assert(seq![text][0] == text);
    assert(seq![text].drop_first() =~= Seq::<Seq<char>>::empty());
    assert(first_length(Seq::<Seq<char>>::empty()) is None);
    assert(first_length(seq![text]) == expect);
    assert(header_length(text) == expect);
    assert(header_text(head) == text);
}

proof fn lemma_no_terminator(b: Seq<u8>, i: int)
    requires
        0 <= i,
        forall|j: int| i <= j ==> !terminator_at(b, j),
    ensures
        terminator_from(b, i) is None,
    decreases b.len() - i,
{
    if i + 4 <= b.len() {
        lemma_no_terminator(b, i + 1);
    }
}

/// Reading back a framed message: a buffer that starts with the framing of
/// `payload` (whatever bytes follow it) yields exactly that message, its
/// announced length being the payload's length and the payload being the
/// bytes that were framed.
pub proof fn law_frame_roundtrip(payload: Seq<u8>, rest: Seq<u8>)
    requires
        frame_bytes(payload).len() + rest.len() <= usize::MAX,
    ensures
        frame_fits(frame_bytes(payload) + rest),
        frame_at_start(frame_bytes(payload) + rest) == Some(
            Frame {
                content_length: payload.len() as usize,
                payload_start: (frame_bytes(payload).len() - payload.len()) as usize,
                consumed: frame_bytes(payload).len() as usize,
            },
        ),
        (frame_bytes(payload) + rest).subrange(
            frame_bytes(payload).len() - payload.len(),
            frame_bytes(payload).len() as int,
        ) == payload,
{
    let n = payload.len();
    let head = length_label() + decimal(n);
    let buf = frame_bytes(payload) + rest;
    let h = head.len() as int;
    lemma_frame_header(n);
    assert(buf =~= head + header_terminator() + payload + rest);
    // The first blank line is the one after the digits.
    assert(terminator_at(buf, h));
    assert forall|j: int| 0 <= j < h implies buf[j] != 13 by {
        assert(buf[j] == head[j]);
    }
    lemma_terminator_search(buf, 0, h);
    assert(buf.take(h) =~= head);
    assert(buf.subrange(h + 4, h + 4 + n) =~= payload);
}

/// A message that has not fully arrived is not taken: no proper prefix of
/// the framing of `payload` holds a whole message.
pub proof fn law_partial_frame_waits(payload: Seq<u8>, k: int)
    requires
        0 <= k < frame_bytes(payload).len(),
    ensures
        frame_at_start(frame_bytes(payload).take(k)) is None,
{
    let n = payload.len();
    let head = length_label() + decimal(n);
    let full = frame_bytes(payload);
    let pre = full.take(k);
    let h = head.len() as int;
    lemma_frame_header(n);
    assert(full =~= head + header_terminator() + payload);
    assert forall|j: int| 0 <= j < h && j < k implies pre[j] != 13 by {
        assert(pre[j] == head[j]);
    }
    if k < h + 4 {
        assert forall|j: int| 0 <= j implies !terminator_at(pre, j) by {
            if terminator_at(pre, j) {
                assert(pre[j] == 13);
            }
        }
        lemma_no_terminator(pre, 0);
    } else {
        assert(terminator_at(pre, h)) by {
            assert(pre[h] == full[h]);
            assert(pre[h + 1] == full[h + 1]);
            assert(pre[h + 2] == full[h + 2]);
            assert(pre[h + 3] == full[h + 3]);
        }
        lemma_terminator_search(pre, 0, h);
        assert(pre.take(h) =~= head);
    }
}

} // verus!
