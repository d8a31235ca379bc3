use vstd::prelude::*;
use crate::decimal::{parse_unsigned, parse_usize, parse_u8};

verus! {

/// The fields of `s` separated by `sep`, the way `str::split` yields them:
/// always at least one field, empty fields kept.
pub open spec fn split_fields(s: Seq<u8>, sep: u8) -> Seq<Seq<u8>>
    decreases s.len(),
{
    if s.len() == 0 {
        seq![Seq::<u8>::empty()]
    } else {
        let f = split_fields(s.drop_last(), sep);
        if s.last() == sep {
            f.push(Seq::<u8>::empty())
        } else {
            f.update(f.len() - 1, f.last().push(s.last()))
        }
    }
}

/// `split_fields` always yields at least one field.
pub proof fn lemma_split_fields_nonempty(s: Seq<u8>, sep: u8)
    ensures
        split_fields(s, sep).len() >= 1,
    decreases s.len(),
{
    if s.len() > 0 {
        lemma_split_fields_nonempty(s.drop_last(), sep);
    }
}

/// Splits `s` at every `sep` byte (see `split_fields`).
pub fn split_bytes(s: &[u8], sep: u8) -> (r: Vec<Vec<u8>>)
    ensures
        byte_rows(r@) == split_fields(s@, sep),
{
    let mut done: Vec<Vec<u8>> = Vec::new();
    let mut cur: Vec<u8> = Vec::new();
    let mut i: usize = 0;
    assert(s@.take(0) =~= Seq::<u8>::empty());
    assert(byte_rows(done@).push(cur@) =~= split_fields(s@.take(0), sep));
    while i < s.len()
        invariant
            i <= s@.len(),
            byte_rows(done@).push(cur@) == split_fields(s@.take(i as int), sep),
        decreases s.len() - i,
    {
        let b = s[i];
        let ghost prev = byte_rows(done@).push(cur@);
        assert(s@.take(i + 1).drop_last() =~= s@.take(i as int));
        if b == sep {
            let finished = cur;
            done.push(finished);
            cur = Vec::new();
            assert(byte_rows(done@).push(cur@) =~= prev.push(Seq::<u8>::empty()));
        } else {
            cur.push(b);
            assert(byte_rows(done@).push(cur@) =~= prev.update(prev.len() - 1, prev.last().push(b)));
        }
        i = i + 1;
    }
    assert(s@.take(s@.len() as int) =~= s@);
    done.push(cur);
    done
}

/// The bytes of each vector.
pub open spec fn byte_rows(v: Seq<Vec<u8>>) -> Seq<Seq<u8>> {
    v.map_values(|x: Vec<u8>| x@)
}

/// The numeric SGR codes of the fields: fields that do not parse as a byte
/// value are skipped.
pub open spec fn sgr_codes(fields: Seq<Seq<u8>>) -> Seq<u8>
    decreases fields.len(),
{
    if fields.len() == 0 {
        Seq::<u8>::empty()
    } else {
        let rest = sgr_codes(fields.drop_last());
        match parse_unsigned(fields.last(), u8::MAX as nat) {
            Some(v) => rest.push(v as u8),
            None => rest,
        }
    }
}

/// A count parameter of a cursor sequence: a missing, malformed or zero count is 1.
pub open spec fn count_param(s: Seq<u8>) -> nat {
    match parse_unsigned(s, usize::MAX as nat) {
        Some(v) => if v == 0 {
            1
        } else {
            v
        },
        None => 1,
    }
}

/// A mode parameter of an erase sequence: a missing or malformed mode is 0.
pub open spec fn mode_param(s: Seq<u8>) -> u8 {
    match parse_unsigned(s, u8::MAX as nat) {
        Some(v) => v as u8,
        None => 0,
    }
}

/// What a control sequence (CSI) asks of the screen.
#[derive(Clone, Copy, Debug, PartialEq, Eq, Structural)]
pub enum CsiAction {
    /// Select graphic rendition; its codes come from the parameters.
    Sgr,
    CursorUp(usize),
    CursorDown(usize),
    CursorForward(usize),
    CursorBack(usize),
    /// Move to the 1-based (row, column).
    Position(usize, usize),
    /// Move to the 1-based column.
    Column(usize),
    /// Move to the 1-based row, keeping the column.
    Row(usize),
    EraseDisplay(u8),
    EraseLine(u8),
    /// A sequence this terminal does not act on.
    Ignore,
}

/// The action of the control sequence with parameter bytes `params` and
/// final byte `fin`.
pub open spec fn csi_action(params: Seq<u8>, fin: u8) -> CsiAction {
    if fin == 0x6d {
        CsiAction::Sgr
    } else if fin == 0x41 {
        CsiAction::CursorUp(count_param(params) as usize)
    } else if fin == 0x42 {
        CsiAction::CursorDown(count_param(params) as usize)
    } else if fin == 0x43 {
        CsiAction::CursorForward(count_param(params) as usize)
    } else if fin == 0x44 {
        CsiAction::CursorBack(count_param(params) as usize)
    } else if fin == 0x48 || fin == 0x66 {
        let f = split_fields(params, 0x3b);
        CsiAction::Position(
            count_param(f[0]) as usize,
            if f.len() > 1 {
                count_param(f[1]) as usize
            } else {
                1
            },
        )
    } else if fin == 0x47 {
        CsiAction::Column(count_param(params) as usize)
    } else if fin == 0x64 {
        CsiAction::Row(count_param(params) as usize)
    } else if fin == 0x4a {
        CsiAction::EraseDisplay(mode_param(params))
    } else if fin == 0x4b {
        CsiAction::EraseLine(mode_param(params))
    } else {
        CsiAction::Ignore
    }
}

/// Parses a count parameter (see `count_param`).
pub fn parse_count(s: &[u8]) -> (n: usize)
    ensures
        n == count_param(s@),
        n >= 1,
{
    match parse_usize(s) {
        Some(v) => if v == 0 {
            1
        } else {
            v
        },
        None => 1,
    }
}

/// Parses a mode parameter (see `mode_param`).
pub fn parse_mode(s: &[u8]) -> (m: u8)
    ensures
        m == mode_param(s@),
{
    match parse_u8(s) {
        Some(v) => v,
        None => 0,
    }
}

/// Decides what the control sequence with parameter bytes `params` and final
/// byte `fin` does (see `csi_action`).
pub fn decode_csi(params: &[u8], fin: u8) -> (a: CsiAction)
    ensures
        a == csi_action(params@, fin),
{
    if fin == 0x6d {
        CsiAction::Sgr
    } else if fin == 0x41 {
        CsiAction::CursorUp(parse_count(params))
    } else if fin == 0x42 {
        CsiAction::CursorDown(parse_count(params))
    } else if fin == 0x43 {
        CsiAction::CursorForward(parse_count(params))
    } else if fin == 0x44 {
        CsiAction::CursorBack(parse_count(params))
    } else if fin == 0x48 || fin == 0x66 {
        let parts = split_bytes(params, 0x3b);
        proof {
            lemma_split_fields_nonempty(params@, 0x3b);
            assert(byte_rows(parts@)[0] == parts@[0]@);
        }
        let row = parse_count(parts[0].as_slice());
        let col = if parts.len() > 1 {
            proof {
                assert(byte_rows(parts@)[1] == parts@[1]@);
            }
            parse_count(parts[1].as_slice())
        } else {
            1
        };
        CsiAction::Position(row, col)
    } else if fin == 0x47 {
        CsiAction::Column(parse_count(params))
    } else if fin == 0x64 {
        CsiAction::Row(parse_count(params))
    } else if fin == 0x4a {
        CsiAction::EraseDisplay(parse_mode(params))
    } else if fin == 0x4b {
        CsiAction::EraseLine(parse_mode(params))
    } else {
        CsiAction::Ignore
    }
}

/// The SGR codes of a parameter string (see `sgr_codes`).
pub fn parse_sgr_codes(params: &[u8]) -> (codes: Vec<u8>)
    ensures
        codes@ == sgr_codes(split_fields(params@, 0x3b)),
{
    let fields = split_bytes(params, 0x3b);
    let mut codes: Vec<u8> = Vec::new();
    let mut i: usize = 0;
    while i < fields.len()
        invariant
            i <= fields@.len(),
            byte_rows(fields@) == split_fields(params@, 0x3b),
            codes@ == sgr_codes(byte_rows(fields@).take(i as int)),
        decreases fields.len() - i,
    {
        assert(byte_rows(fields@).take(i + 1).drop_last() =~= byte_rows(fields@).take(i as int));
        assert(byte_rows(fields@)[i as int] == fields@[i as int]@);
        match parse_u8(fields[i].as_slice()) {
            Some(v) => codes.push(v),
            None => {},
        }
        i = i + 1;
    }
    assert(byte_rows(fields@).take(fields@.len() as int) =~= byte_rows(fields@));
    codes
}

} // verus!
