use vstd::prelude::*;

use crate::chars::SpecialChars;
use crate::codec::{escape_byte, escape_seq, spec_decode, spec_encode, trade_back, unescape_seq,
    MAX_PAYLOAD};
use crate::error::HDLCError;

verus! {

/// Each payload byte becomes one or two frame bytes.
proof fn lemma_escape_seq_len(c: SpecialChars, p: Seq<u8>)
    ensures
        p.len() <= escape_seq(c, p).len() <= 2 * p.len(),
    decreases p.len(),
{
    if p.len() != 0 {
        lemma_escape_seq_len(c, p.skip(1));
    }
}

/// Length bound law: a frame holds between `|p| + 2` and `2 * |p| + 2` bytes
/// for a payload `p`.
pub proof fn lemma_encode_length(c: SpecialChars, p: Seq<u8>)
    ensures
        p.len() + 2 <= spec_encode(c, p).len() <= 2 * p.len() + 2,
{
    lemma_escape_seq_len(c, p);
}

/// With distinct special characters, no byte of the escaped payload is `fend`.
proof fn lemma_escape_seq_no_fend(c: SpecialChars, p: Seq<u8>)
    requires
        c.distinct(),
    ensures
        forall|k: int| 0 <= k < escape_seq(c, p).len() ==> escape_seq(c, p)[k] != c.fend,
    decreases p.len(),
{
    if p.len() != 0 {
        lemma_escape_seq_no_fend(c, p.skip(1));
        let e0 = escape_byte(c, p[0]);
        let rest = escape_seq(c, p.skip(1));
        assert(escape_seq(c, p) == e0 + rest);
        assert forall|k: int| 0 <= k < escape_seq(c, p).len() implies escape_seq(c, p)[k]
            != c.fend by {
            if k < e0.len() {
                assert(escape_seq(c, p)[k] == e0[k]);
            } else {
                assert(escape_seq(c, p)[k] == rest[k - e0.len()]);
            }
        }
    }
}

/// Delimiter law: a frame starts and ends with `fend`, and `fend` occurs
/// nowhere else in it.
pub proof fn lemma_encode_delimiters(c: SpecialChars, p: Seq<u8>)
    requires
        c.distinct(),
    ensures
        spec_encode(c, p).len() >= 2,
        spec_encode(c, p)[0] == c.fend,
        spec_encode(c, p)[spec_encode(c, p).len() - 1] == c.fend,
        forall|k: int| 0 < k < spec_encode(c, p).len() - 1 ==> spec_encode(c, p)[k] != c.fend,
{
    lemma_escape_seq_no_fend(c, p);
    let f = spec_encode(c, p);
    let esc = escape_seq(c, p);
    assert(f.len() == esc.len() + 2);
    assert(f[f.len() - 1] == c.fend);
    assert forall|k: int| 0 < k < f.len() - 1 implies f[k] != c.fend by {
        assert(f[k] == esc[k - 1]);
    }
}

/// With distinct special characters, unescaping the escaped payload yields
/// the payload back.
proof fn lemma_unescape_escape(c: SpecialChars, p: Seq<u8>)
    requires
        c.distinct(),
    ensures
        unescape_seq(c, escape_seq(c, p)) == Ok::<Seq<u8>, HDLCError>(p),
    decreases p.len(),
{
    let s = escape_seq(c, p);
    if p.len() == 0 {
        assert(p =~= Seq::<u8>::empty());
    } else {
        lemma_unescape_escape(c, p.skip(1));
        let e0 = escape_byte(c, p[0]);
        let rest = escape_seq(c, p.skip(1));
        assert(s == e0 + rest);
        let b: u8 = p[0];
        if b == c.fesc || b == c.fend || b == c.ob1 || b == c.ob2 {
            assert(s[0] == c.fesc && s[1] == e0[1]);
            assert(trade_back(c, s[1]) == Some(b));
            assert(s.skip(2) =~= rest);
            assert(unescape_seq(c, s) == Ok::<Seq<u8>, HDLCError>(seq![b] + p.skip(1)));
            assert(seq![b] + p.skip(1) =~= p);
        } else {
            assert(s[0] == b);
            assert(s.skip(1) =~= rest);
            assert(unescape_seq(c, s) == Ok::<Seq<u8>, HDLCError>(seq![b] + p.skip(1)));
            assert(seq![b] + p.skip(1) =~= p);
        }
    }
}

/// Round-trip law: decoding an encoded frame yields the original payload,
/// for every payload of at most 260 bytes whose frame reaches the decoder's
/// minimum length of 4 bytes (a frame of 2 or 3 bytes, which only an empty
/// payload or a single unescaped byte produces, is rejected as `TooFewData`).
pub proof fn lemma_round_trip(c: SpecialChars, p: Seq<u8>)
    requires
        c.distinct(),
        p.len() <= MAX_PAYLOAD,
        spec_encode(c, p).len() >= 4,
    ensures
        spec_decode(c, spec_encode(c, p)) == Ok::<Seq<u8>, HDLCError>(p),
{
    let f = spec_encode(c, p);
    let esc = escape_seq(c, p);
    lemma_escape_seq_len(c, p);
    lemma_encode_delimiters(c, p);
    assert(f.subrange(1, f.len() - 1) =~= esc);
    lemma_unescape_escape(c, p);
}

} // verus!
