//! The outbound frame: one persisted record rendered as the JSON object
//! `{"id":…,"room_id":…,"user_id":…,"content":"…","created_at":…}`.
//!
//! The bytes are built here, so the shape of what reaches a sink is part of
//! the library's contract; the runtime only turns them into a transport
//! text frame (the content's UTF-8 passes through, JSON-escaped).

use vstd::prelude::*;
use vstd::string::StringSliceAdditionalSpecFns;
use vstd::utf8::encode_utf8;
use crate::models::Message;

verus! {

/// `n` in decimal, most significant digit first, no leading zeros.
pub open spec fn dec_bytes(n: nat) -> Seq<u8>
    decreases n,
{
    if n < 10 {
        seq![(48 + n) as u8]
    } else {
        dec_bytes(n / 10).push((48 + n % 10) as u8)
    }
}

/// A possibly negative number in decimal.
pub open spec fn int_bytes(n: int) -> Seq<u8> {
    if n < 0 {
        seq![45u8] + dec_bytes((-n) as nat)
    } else {
        dec_bytes(n as nat)
    }
}

/// The lower-case hex digit of `d`.
pub open spec fn hex_digit(d: u8) -> u8 {
    if d < 10 {
        (48 + d) as u8
    } else {
        (87 + d) as u8
    }
}

/// How one byte of content appears inside a JSON string literal: quote,
/// backslash and the common control characters get their short escapes, the
/// remaining control characters the `\u00XX` form, and everything else —
/// ASCII and UTF-8 continuation bytes alike — passes through.
pub open spec fn escape_byte(b: u8) -> Seq<u8> {
    if b == 34 {
        seq![92u8, 34u8]
    } else if b == 92 {
        seq![92u8, 92u8]
    } else if b == 10 {
        seq![92u8, 110u8]
    } else if b == 13 {
        seq![92u8, 114u8]
    } else if b == 9 {
        seq![92u8, 116u8]
    } else if b < 32 {
        seq![92u8, 117u8, 48u8, 48u8, hex_digit(b / 16), hex_digit(b % 16)]
    } else {
        seq![b]
    }
}

/// A byte string escaped for the inside of a JSON string literal.
pub open spec fn json_escaped(s: Seq<u8>) -> Seq<u8>
    decreases s.len(),
{
    if s.len() == 0 {
        Seq::empty()
    } else {
        json_escaped(s.drop_last()) + escape_byte(s.last())
    }
}

/// The whole frame for one record.
pub open spec fn frame_bytes(m: Message) -> Seq<u8> {
    "{\"id\":".spec_bytes() + dec_bytes(m.id as nat) + ",\"room_id\":".spec_bytes() + dec_bytes(
        m.room_id as nat,
    ) + ",\"user_id\":".spec_bytes() + dec_bytes(m.user_id as nat)
        + ",\"content\":\"".spec_bytes() + json_escaped(encode_utf8(m.content@))
        + "\",\"created_at\":".spec_bytes() + int_bytes(m.created_at as int)
        + "}".spec_bytes()
}

fn push_bytes(out: &mut Vec<u8>, bytes: &[u8])
    ensures
        final(out)@ == old(out)@ + bytes@,
{
    let ghost o0 = out@;
    let mut i: usize = 0;
    while i < bytes.len()
        invariant
            o0 == old(out)@,
            i <= bytes@.len(),
            out@ == o0 + bytes@.take(i as int),
        decreases bytes@.len() - i,
    {
        out.push(bytes[i]);
        proof {
            assert(bytes@.take(i + 1).drop_last() =~= bytes@.take(i as int));
            assert(out@ =~= o0 + bytes@.take(i + 1));
        }
        i += 1;
    }
    proof {
        assert(bytes@.take(bytes@.len() as int) =~= bytes@);
    }
}

fn push_dec(out: &mut Vec<u8>, n: u128)
    ensures
        final(out)@ == old(out)@ + dec_bytes(n as nat),
    decreases n,
{
    if n < 10 {
        out.push(48 + (n as u8));
        proof {
            assert(final(out)@ =~= old(out)@ + dec_bytes(n as nat));
        }
    } else {
        push_dec(out, n / 10);
        out.push(48 + ((n % 10) as u8));
        proof {
            assert(final(out)@ =~= old(out)@ + dec_bytes(n as nat));
        }
    }
}

fn push_int(out: &mut Vec<u8>, n: i64)
    ensures
        final(out)@ == old(out)@ + int_bytes(n as int),
{
    if n < 0 {
        out.push(45);
        let magnitude: u64 = ((-(n + 1)) as u64) + 1;
        push_dec(out, magnitude as u128);
        proof {
            assert(magnitude as nat == (-(n as int)) as nat);
            assert(final(out)@ =~= old(out)@ + int_bytes(n as int));
        }
    } else {
        push_dec(out, n as u128);
    }
}

fn push_escaped(out: &mut Vec<u8>, content: &[u8])
    ensures
        final(out)@ == old(out)@ + json_escaped(content@),
{
    let ghost o0 = out@;
    let mut i: usize = 0;
    while i < content.len()
        invariant
            o0 == old(out)@,
            i <= content@.len(),
            out@ == o0 + json_escaped(content@.take(i as int)),
        decreases content@.len() - i,
    {
        let b = content[i];
        if b == 34 || b == 92 {
            out.push(92);
            out.push(b);
        } else if b == 10 {
            out.push(92);
            out.push(110);
        } else if b == 13 {
            out.push(92);
            out.push(114);
        } else if b == 9 {
            out.push(92);
            out.push(116);
        } else if b < 32 {
            out.push(92);
            out.push(117);
            out.push(48);
            out.push(48);
            out.push(if b / 16 < 10 {
                48 + (b / 16)
            } else {
                87 + (b / 16)
            });
            out.push(if b % 16 < 10 {
                48 + (b % 16)
            } else {
                87 + (b % 16)
            });
        } else {
            out.push(b);
        }
        proof {
            assert(content@.take(i + 1).drop_last() =~= content@.take(i as int));
            assert(out@ =~= o0 + json_escaped(content@.take(i + 1)));
        }
        i += 1;
    }
    proof {
        assert(content@.take(content@.len() as int) =~= content@);
    }
}

/// Render the frame for one record, exactly as [`frame_bytes`] lays it out.
pub fn message_frame(m: &Message) -> (frame: Vec<u8>)
    ensures
        frame@ == frame_bytes(*m),
{
    let mut out: Vec<u8> = Vec::new();
    push_bytes(&mut out, "{\"id\":".as_bytes());
    push_dec(&mut out, m.id);
    push_bytes(&mut out, ",\"room_id\":".as_bytes());
    push_dec(&mut out, m.room_id);
    push_bytes(&mut out, ",\"user_id\":".as_bytes());
    push_dec(&mut out, m.user_id);
    push_bytes(&mut out, ",\"content\":\"".as_bytes());
    push_escaped(&mut out, m.content.as_str().as_bytes());
    push_bytes(&mut out, "\",\"created_at\":".as_bytes());
    push_int(&mut out, m.created_at);
    push_bytes(&mut out, "}".as_bytes());
    proof {
        assert(out@ =~= frame_bytes(*m));
    }
    out
}

} // verus!
