use vstd::prelude::*;

use crate::error::HSLinkError;

verus! {

/// Size of every report frame, in both directions.
pub const FRAME_LEN: usize = 1024;

/// Largest payload that fits into one outbound frame, after its report id.
pub const MAX_PAYLOAD: usize = 1023;

/// Report id that starts every frame sent to the device.
pub const OUT_REPORT_ID: u8 = 0x01;

/// Report id that starts every valid frame received from the device.
pub const IN_REPORT_ID: u8 = 0x02;

/// `n` zero bytes.
pub open spec fn zeros(n: nat) -> Seq<u8> {
    Seq::new(n, |i: int| 0u8)
}

/// The outbound frame for `payload`: report id, payload, zero padding to `FRAME_LEN`.
pub open spec fn frame_of(payload: Seq<u8>) -> Seq<u8> {
    seq![OUT_REPORT_ID] + payload + zeros((MAX_PAYLOAD - payload.len()) as nat)
}

/// `s` without its trailing zero bytes.
pub open spec fn trim_zeros(s: Seq<u8>) -> Seq<u8>
    decreases s.len(),
{
    if s.len() > 0 && s.last() == 0 {
        trim_zeros(s.drop_last())
    } else {
        s
    }
}

/// What is left of a frame once its report id and its zero padding are removed.
pub open spec fn unframe(frame: Seq<u8>) -> Seq<u8> {
    if frame.len() == 0 {
        frame
    } else {
        trim_zeros(frame.drop_first())
    }
}

/// Builds the outbound frame for `payload`, or refuses a payload that does not fit.
pub fn encode_frame(payload: &Vec<u8>) -> (r: Result<Vec<u8>, HSLinkError>)
    ensures
        match r {
            Ok(frame) => payload@.len() <= MAX_PAYLOAD && frame@ == frame_of(payload@),
            Err(e) => payload@.len() > MAX_PAYLOAD && e == HSLinkError::PayloadTooLong,
        },
{
    if payload.len() > MAX_PAYLOAD {
        return Err(HSLinkError::PayloadTooLong);
    }
    let mut frame: Vec<u8> = Vec::with_capacity(FRAME_LEN);
    frame.push(OUT_REPORT_ID);
    let mut i: usize = 0;
    while i < payload.len()
        invariant
            i <= payload.len() <= MAX_PAYLOAD,
            frame@ == seq![OUT_REPORT_ID] + payload@.subrange(0, i as int),
        decreases payload.len() - i,
    {
        frame.push(payload[i]);
        i = i + 1;
        assert(frame@ =~= seq![OUT_REPORT_ID] + payload@.subrange(0, i as int));
    }
    assert(payload@.subrange(0, i as int) =~= payload@);
    while frame.len() < FRAME_LEN
        invariant
            payload@.len() <= MAX_PAYLOAD,
            1 + payload@.len() <= frame@.len() <= FRAME_LEN,
            frame@ == seq![OUT_REPORT_ID] + payload@ + zeros(
                (frame@.len() - 1 - payload@.len()) as nat,
            ),
        decreases FRAME_LEN - frame.len(),
    {
        frame.push(0u8);
        assert(frame@ =~= seq![OUT_REPORT_ID] + payload@ + zeros(
            (frame@.len() - 1 - payload@.len()) as nat,
        ));
    }
    Ok(frame)
}

/// Dropping one trailing zero does not change what `trim_zeros` leaves.
proof fn lemma_trim_zeros_drop(s: Seq<u8>, end: int)
    requires
        1 < end <= s.len(),
        s[end - 1] == 0,
    ensures
        trim_zeros(s.subrange(1, end)) == trim_zeros(s.subrange(1, end - 1)),
{
    assert(s.subrange(1, end).drop_last() =~= s.subrange(1, end - 1));
}

/// Recovers the payload of an outbound frame: drops the report id and the
/// zero padding.
pub fn strip_frame(frame: &Vec<u8>) -> (r: Vec<u8>)
    ensures
        r@ == unframe(frame@),
{
    if frame.len() == 0 {
        return Vec::new();
    }
    let mut end: usize = frame.len();
    while end > 1 && frame[end - 1] == 0
        invariant
            1 <= end <= frame@.len(),
            trim_zeros(frame@.subrange(1, end as int)) == unframe(frame@),
        decreases end,
    {
        proof {
            lemma_trim_zeros_drop(frame@, end as int);
        }
        end = end - 1;
    }
    assert(frame@.drop_first() =~= frame@.subrange(1, frame@.len() as int));
    let mut r: Vec<u8> = Vec::with_capacity(end - 1);
    let mut i: usize = 1;
    while i < end
        invariant
            1 <= i <= end <= frame@.len(),
            r@ == frame@.subrange(1, i as int),
        decreases end - i,
    {
        r.push(frame[i]);
        i = i + 1;
        assert(r@ =~= frame@.subrange(1, i as int));
    }
    r
}

/// Padding a payload that does not end in zero with zeros, then trimming
/// the zeros, gives the payload back.
proof fn lemma_trim_padding(p: Seq<u8>, n: nat)
    requires
        p.len() == 0 || p.last() != 0,
    ensures
        trim_zeros(p + zeros(n)) == p,
    decreases n,
{
    if n == 0 {
        assert(p + zeros(0) =~= p);
    } else {
        assert((p + zeros(n)).drop_last() =~= p + zeros((n - 1) as nat));
        lemma_trim_padding(p, (n - 1) as nat);
    }
}

/// Encoding a payload of at most `MAX_PAYLOAD` bytes, then stripping the
/// report id and the zero padding, gives the payload back. Zero bytes at the
/// end of a payload cannot be told apart from padding, so the payload must
/// not end in one.
pub proof fn lemma_frame_round_trip(payload: Seq<u8>)
    requires
        payload.len() <= MAX_PAYLOAD,
        payload.len() == 0 || payload.last() != 0,
    ensures
        frame_of(payload).len() == FRAME_LEN,
        frame_of(payload)[0] == OUT_REPORT_ID,
        unframe(frame_of(payload)) == payload,
{
    let n = (MAX_PAYLOAD - payload.len()) as nat;
    assert(frame_of(payload).drop_first() =~= payload + zeros(n));
    lemma_trim_padding(payload, n);
}

} // verus!
