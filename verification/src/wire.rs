//! Serialization of live-stream frames.
//!
//! A subscription session pushes one frame per item read from its hub
//! consumer: the serialized event, or a distinguished lag marker when the
//! consumer overflowed. Keep-alive frames carry no payload and are the
//! transport's own concern.

use vstd::prelude::*;
use crate::codec::{append_quoted, encode_payload, push_char, quoted};
use crate::models::{EventView, MessageEvent};

verus! {

/// The decimal digit for one value below ten.
pub open spec fn digit(d: nat) -> char {
    ((48 + (d % 10)) as u8) as char
}

/// The decimal digits of a non-negative number, most significant first.
pub open spec fn dec_u(n: nat) -> Seq<char>
    decreases n,
{
    if n < 10 {
        seq![digit(n)]
    } else {
        dec_u(n / 10).push(digit(n % 10))
    }
}

/// The decimal form of a timestamp, with a leading minus when negative.
pub open spec fn dec_i64(t: i64) -> Seq<char> {
    if t >= 0 {
        dec_u(t as nat)
    } else {
        seq!['-'] + dec_u((0 - t as int) as nat)
    }
}

/// The streamed form of an event: discriminator, payload, timestamp.
pub open spec fn encode_event(e: EventView) -> Seq<char> {
    "{\"event_type\":"@ + (quoted(e.event_type) + (",\"payload\":"@ + (encode_payload(e.payload)
        + (",\"timestamp\":"@ + (dec_i64(e.timestamp) + "}"@)))))
}

/// The in-band frame a subscriber sees in place of events it lost.
pub open spec fn lag_marker() -> Seq<char> {
    "{\"error\": \"lagged\"}"@
}

fn push_decimal(out: &mut String, n: u64)
    ensures
        final(out)@ == old(out)@ + dec_u(n as nat),
    decreases n,
{
    if n < 10 {
        let c = ((48 + n) as u8) as char;
        proof {
            assert(c == digit(n as nat));
        }
        push_char(out, c);
        proof {
            assert(out@ =~= old(out)@ + dec_u(n as nat));
        }
    } else {
        push_decimal(out, n / 10);
        let c = ((48 + n % 10) as u8) as char;
        proof {
            assert(c == digit((n % 10) as nat));
        }
        push_char(out, c);
        proof {
            assert(out@ =~= old(out)@ + dec_u(n as nat));
        }
    }
}

fn push_i64(out: &mut String, t: i64)
    ensures
        final(out)@ == old(out)@ + dec_i64(t),
{
    if t >= 0 {
        push_decimal(out, t as u64);
    } else {
        push_char(out, '-');
        let m: u64 = (0 - (t as i128)) as u64;
        proof {
            assert(m as nat == (0 - t as int) as nat);
        }
        push_decimal(out, m);
        proof {
            assert(out@ =~= old(out)@ + dec_i64(t));
        }
    }
}

/// Serializes an event for the live stream.
pub fn encode_event_frame(e: &MessageEvent) -> (r: String)
    ensures
        r@ == encode_event(e@),
{
    let mut out = String::from_str("{\"event_type\":");
    append_quoted(&mut out, e.event_type.as_str());
    out.append(",\"payload\":");
    let body = crate::codec::encode_message(&e.payload);
    out.append(body.as_str());
    out.append(",\"timestamp\":");
    push_i64(&mut out, e.timestamp);
    out.append("}");
    proof {
        assert(out@ =~= encode_event(e@));
    }
    out
}

/// The frame pushed to a subscriber that fell behind.
pub fn lagged_frame() -> (r: String)
    ensures
        r@ == lag_marker(),
{
    String::from_str("{\"error\": \"lagged\"}")
}

/// One frame of the live stream, from the session's point of view: data to
/// push, nothing pending, or a handle that is no longer registered.
pub enum Frame {
    Data(String),
    Quiet,
    Gone,
}

} // verus!
