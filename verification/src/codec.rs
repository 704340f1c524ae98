use vstd::prelude::*;

use arrayvec::ArrayVec;

use crate::buffer::{buf_bytes, buf_len, buf_new, buf_push};
use crate::chars::SpecialChars;
use crate::error::HDLCError;

verus! {

/// Maximum number of payload bytes that one frame may carry.
pub const MAX_PAYLOAD: usize = 260;

/// Maximum number of frame bytes that the decoder accepts.
pub const MAX_FRAME: usize = 1000;

/// The wire form of one payload byte: a two-byte escape sequence for the four
/// reserved values, the byte itself otherwise. The first matching rule wins.
pub open spec fn escape_byte(c: SpecialChars, b: u8) -> Seq<u8> {
    if b == c.fesc {
        seq![c.fesc, c.tfesc]
    } else if b == c.fend {
        seq![c.fesc, c.tfend]
    } else if b == c.ob1 {
        seq![c.fesc, c.tfob1]
    } else if b == c.ob2 {
        seq![c.fesc, c.tfob2]
    } else {
        seq![b]
    }
}

/// The wire form of a whole payload: each byte escaped, in order.
pub open spec fn escape_seq(c: SpecialChars, p: Seq<u8>) -> Seq<u8>
    decreases p.len(),
{
    if p.len() == 0 {
        Seq::empty()
    } else {
        escape_byte(c, p[0]) + escape_seq(c, p.skip(1))
    }
}

/// The complete frame for a payload: the escaped bytes between two `fend`
/// delimiters.
pub open spec fn spec_encode(c: SpecialChars, p: Seq<u8>) -> Seq<u8> {
    seq![c.fend] + escape_seq(c, p) + seq![c.fend]
}

/// The payload byte that an escape code stands for, if it is one of the four
/// valid substitution codes. The first matching rule wins.
pub open spec fn trade_back(c: SpecialChars, b: u8) -> Option<u8> {
    if b == c.tfend {
        Some(c.fend)
    } else if b == c.tfesc {
        Some(c.fesc)
    } else if b == c.tfob1 {
        Some(c.ob1)
    } else if b == c.tfob2 {
        Some(c.ob2)
    } else {
        None
    }
}

/// The payload recovered from the interior of a frame (the bytes between the
/// two delimiters), or the first error met in a left-to-right scan: an `fesc`
/// must be followed by a valid substitution code, and a literal `fend` must
/// not occur at all.
pub open spec fn unescape_seq(c: SpecialChars, s: Seq<u8>) -> Result<Seq<u8>, HDLCError>
    decreases s.len(),
{
    if s.len() == 0 {
        Ok(Seq::empty())
    } else if s[0] == c.fesc {
        if s.len() >= 2 && trade_back(c, s[1]) is Some {
            match unescape_seq(c, s.skip(2)) {
                Ok(t) => Ok(seq![trade_back(c, s[1]).unwrap()] + t),
                Err(e) => Err(e),
            }
        } else {
            Err(HDLCError::MissingTradeChar)
        }
    } else if s[0] == c.fend {
        Err(HDLCError::FendCharInData)
    } else {
        match unescape_seq(c, s.skip(1)) {
            Ok(t) => Ok(seq![s[0]] + t),
            Err(e) => Err(e),
        }
    }
}

/// What decoding a frame returns: the checks on length and on the two
/// delimiters, in order, then the interior scan, then the bound on the
/// recovered payload.
pub open spec fn spec_decode(c: SpecialChars, f: Seq<u8>) -> Result<Seq<u8>, HDLCError> {
    if f.len() < 4 {
        Err(HDLCError::TooFewData)
    } else if f.len() > MAX_FRAME {
        Err(HDLCError::TooMuchData)
    } else if f[0] != c.fend {
        Err(HDLCError::MissingFirstFend)
    } else if f[f.len() - 1] != c.fend {
        Err(HDLCError::MissingFinalFend)
    } else {
        match unescape_seq(c, f.subrange(1, f.len() - 1)) {
            Ok(p) => if p.len() > MAX_PAYLOAD {
                Err(HDLCError::TooMuchDecodedData)
            } else {
                Ok(p)
            },
            Err(e) => Err(e),
        }
    }
}

/// Escaping a payload extended by one byte appends that byte's wire form.
proof fn lemma_escape_seq_snoc(c: SpecialChars, p: Seq<u8>, b: u8)
    ensures
        escape_seq(c, p.push(b)) == escape_seq(c, p) + escape_byte(c, b),
    decreases p.len(),
{
    let q = p.push(b);
    if p.len() == 0 {
        assert(q[0] == b);
        assert(q.skip(1) =~= Seq::<u8>::empty());
        assert(escape_seq(c, q.skip(1)) == Seq::<u8>::empty());
        assert(escape_seq(c, q) == escape_byte(c, b) + escape_seq(c, q.skip(1)));
        assert(escape_seq(c, q) =~= escape_seq(c, p) + escape_byte(c, b));
    } else {
        assert(q[0] == p[0]);
        assert(q.skip(1) =~= p.skip(1).push(b));
        lemma_escape_seq_snoc(c, p.skip(1), b);
        assert(escape_seq(c, q) == escape_byte(c, p[0]) + (escape_seq(c, p.skip(1))
            + escape_byte(c, b)));
        assert(escape_seq(c, p) == escape_byte(c, p[0]) + escape_seq(c, p.skip(1)));
        assert(escape_seq(c, q) =~= escape_seq(c, p) + escape_byte(c, b));
    }
}

/// Produces the escaped (encoded) frame for a payload, surrounded with `fend`.
///
/// Fails with `TooMuchData` on a payload longer than 260 bytes; succeeds on
/// every other input, and the frame then holds exactly the escaped payload
/// between the two delimiters.
pub fn encode(data: &[u8], s_chars: SpecialChars) -> (r: Result<ArrayVec<u8, 1024>, HDLCError>)
    ensures
        data@.len() > MAX_PAYLOAD ==> r == Err::<ArrayVec<u8, 1024>, HDLCError>(
            HDLCError::TooMuchData,
        ),
        data@.len() <= MAX_PAYLOAD ==> (r matches Ok(v) && buf_bytes(v) == spec_encode(
            s_chars,
            data@,
        )),
{
    if data.len() > MAX_PAYLOAD {
        return Err(HDLCError::TooMuchData);
    }
    let mut output = buf_new();
    buf_push(&mut output, s_chars.fend);
    assert(buf_bytes(output) =~= seq![s_chars.fend] + escape_seq(s_chars, data@.take(0)));
    let mut i: usize = 0;
    while i < data.len()
        invariant
            i <= data@.len() <= MAX_PAYLOAD,
            buf_bytes(output) == seq![s_chars.fend] + escape_seq(s_chars, data@.take(i as int)),
            buf_bytes(output).len() <= 1 + 2 * i,
        decreases data@.len() - i,
    {
        let ghost out0 = buf_bytes(output);
        let b: u8 = data[i];
        if b == s_chars.fesc {
            buf_push(&mut output, s_chars.fesc);
            buf_push(&mut output, s_chars.tfesc);
        } else if b == s_chars.fend {
            buf_push(&mut output, s_chars.fesc);
            buf_push(&mut output, s_chars.tfend);
        } else if b == s_chars.ob1 {
            buf_push(&mut output, s_chars.fesc);
            buf_push(&mut output, s_chars.tfob1);
        } else if b == s_chars.ob2 {
            buf_push(&mut output, s_chars.fesc);
            buf_push(&mut output, s_chars.tfob2);
        } else {
            buf_push(&mut output, b);
        }
        proof {
            assert(buf_bytes(output) =~= out0 + escape_byte(s_chars, b));
            assert(data@.take(i + 1) =~= data@.take(i as int).push(b));
            lemma_escape_seq_snoc(s_chars, data@.take(i as int), b);
            assert(buf_bytes(output) =~= seq![s_chars.fend] + escape_seq(
                s_chars,
                data@.take(i + 1),
            ));
        }
        i += 1;
    }
    buf_push(&mut output, s_chars.fend);
    proof {
        assert(data@.take(i as int) =~= data@);
        assert(buf_bytes(output) =~= spec_encode(s_chars, data@));
    }
    Ok(output)
}

/// Produces the unescaped (decoded) payload of a frame, without the `fend`
/// delimiters.
///
/// The checks run in the order given by `spec_decode`: a frame shorter than 4
/// bytes fails with `TooFewData`, one longer than 1000 bytes with
/// `TooMuchData`, a wrong first or last byte with `MissingFirstFend` or
/// `MissingFinalFend`, an `fesc` without a valid substitution code with
/// `MissingTradeChar`, a literal `fend` in the interior with `FendCharInData`,
/// and a recovered payload longer than 260 bytes with `TooMuchDecodedData`.
/// Otherwise the original payload is returned.
pub fn decode(input: &[u8], s_chars: SpecialChars) -> (r: Result<ArrayVec<u8, 1024>, HDLCError>)
    ensures
        (match spec_decode(s_chars, input@) {
            Ok(p) => r matches Ok(v) && buf_bytes(v) == p,
            Err(e) => r == Err::<ArrayVec<u8, 1024>, HDLCError>(e),
        }),
{
    if input.len() < 4 {
        return Err(HDLCError::TooFewData);
    }
    if input.len() > MAX_FRAME {
        return Err(HDLCError::TooMuchData);
    }
    if input[0] != s_chars.fend {
        return Err(HDLCError::MissingFirstFend);
    }
    if input[input.len() - 1] != s_chars.fend {
        return Err(HDLCError::MissingFinalFend);
    }
    let ghost interior = input@.subrange(1, input@.len() - 1);
    let end: usize = input.len() - 1;
    let mut output = buf_new();
    let mut i: usize = 1;
    proof {
        assert(interior.skip(0) =~= interior);
        match unescape_seq(s_chars, interior) {
            Ok(t) => {
                assert(buf_bytes(output) + t =~= t);
            },
            Err(_) => {},
        }
    }
    while i < end
        invariant
            1 <= i <= end,
            end == input@.len() - 1,
            4 <= input@.len() <= MAX_FRAME,
            input@[0] == s_chars.fend,
            input@[input@.len() - 1] == s_chars.fend,
            interior == input@.subrange(1, input@.len() - 1),
            unescape_seq(s_chars, interior) == (match unescape_seq(
                s_chars,
                interior.skip(i - 1),
            ) {
                Ok(t) => Ok::<Seq<u8>, HDLCError>(buf_bytes(output) + t),
                Err(e) => Err::<Seq<u8>, HDLCError>(e),
            }),
            buf_bytes(output).len() <= i - 1,
        decreases end - i,
    {
        let ghost out0 = buf_bytes(output);
        let ghost rem = interior.skip(i - 1);
        let b: u8 = input[i];
        if b == s_chars.fesc {
            if i + 1 < end {
                let nb: u8 = input[i + 1];
                if nb == s_chars.tfend {
                    buf_push(&mut output, s_chars.fend);
                } else if nb == s_chars.tfesc {
                    buf_push(&mut output, s_chars.fesc);
                } else if nb == s_chars.tfob1 {
                    buf_push(&mut output, s_chars.ob1);
                } else if nb == s_chars.tfob2 {
                    buf_push(&mut output, s_chars.ob2);
                } else {
                    proof {
                        assert(rem[0] == b && rem[1] == nb);
                        assert(unescape_seq(s_chars, rem) == Err::<Seq<u8>, HDLCError>(
                            HDLCError::MissingTradeChar,
                        ));
                    }
                    return Err(HDLCError::MissingTradeChar);
                }
                proof {
                    let x = trade_back(s_chars, nb).unwrap();
                    assert(rem[0] == b && rem[1] == nb);
                    assert(rem.skip(2) =~= interior.skip(i + 1));
                    match unescape_seq(s_chars, interior.skip(i + 1)) {
                        Ok(t) => {
                            assert(unescape_seq(s_chars, rem) == Ok::<Seq<u8>, HDLCError>(
                                seq![x] + t,
                            ));
                            assert(out0 + (seq![x] + t) =~= out0.push(x) + t);
                        },
                        Err(_) => {},
                    }
                }
                i += 2;
            } else {
                proof {
                    assert(rem[0] == b && rem.len() == 1);
                    assert(unescape_seq(s_chars, rem) == Err::<Seq<u8>, HDLCError>(
                        HDLCError::MissingTradeChar,
                    ));
                }
                return Err(HDLCError::MissingTradeChar);
            }
        } else if b == s_chars.fend {
            proof {
                assert(rem[0] == b);
                assert(unescape_seq(s_chars, rem) == Err::<Seq<u8>, HDLCError>(
                    HDLCError::FendCharInData,
                ));
            }
            return Err(HDLCError::FendCharInData);
        } else {
            buf_push(&mut output, b);
            proof {
                assert(rem[0] == b);
                assert(rem.skip(1) =~= interior.skip(i as int));
                match unescape_seq(s_chars, interior.skip(i as int)) {
                    Ok(t) => {
                        assert(unescape_seq(s_chars, rem) == Ok::<Seq<u8>, HDLCError>(
                            seq![b] + t,
                        ));
                        assert(out0 + (seq![b] + t) =~= out0.push(b) + t);
                    },
                    Err(_) => {},
                }
            }
            i += 1;
        }
    }
    proof {
        assert(interior.skip(i - 1) =~= Seq::<u8>::empty());
        assert(unescape_seq(s_chars, interior) == Ok::<Seq<u8>, HDLCError>(
            buf_bytes(output) + Seq::<u8>::empty(),
        ));
        assert(buf_bytes(output) + Seq::<u8>::empty() =~= buf_bytes(output));
    }
    let out_len: usize = buf_len(&output);
    if out_len > MAX_PAYLOAD {
        return Err(HDLCError::TooMuchDecodedData);
    }
    Ok(output)
}

} // verus!
