use vstd::prelude::*;

use crate::error::HSLinkError;
use crate::frame::IN_REPORT_ID;

verus! {

/// The bytes of `s` before its first zero byte, or all of `s` if it holds none.
pub open spec fn take_until_zero(s: Seq<u8>) -> Seq<u8>
    decreases s.len(),
{
    if s.len() == 0 || s[0] == 0 {
        Seq::empty()
    } else {
        seq![s[0]] + take_until_zero(s.drop_first())
    }
}

/// What a read of the device yields: `None` where the read failed, else the
/// bytes actually read (none at all where it timed out).
pub open spec fn payload_of(read: Option<Seq<u8>>) -> Result<Seq<u8>, HSLinkError> {
    match read {
        None => Err(HSLinkError::ReadErr),
        Some(bytes) => if bytes.len() == 0 {
            Err(HSLinkError::ReadErr)
        } else if bytes[0] != IN_REPORT_ID {
            Err(HSLinkError::RspErr)
        } else {
            Ok(take_until_zero(bytes.drop_first()))
        },
    }
}

/// The view of an optional byte vector.
pub open spec fn read_view(read: &Option<Vec<u8>>) -> Option<Seq<u8>> {
    match read {
        Some(bytes) => Some(bytes@),
        None => None,
    }
}

/// The text that UTF-8 decoding gives for `bytes`, or `None` where they are
/// not valid UTF-8.
pub uninterp spec fn utf8_text(bytes: Seq<u8>) -> Option<Seq<char>>;

/// Relies on `String::from_utf8`: it succeeds exactly on valid UTF-8 and then
/// holds the decoded text.
#[verifier::external_body]
fn decode_utf8(bytes: Vec<u8>) -> (r: Option<String>)
    ensures
        utf8_text(bytes@) == match r {
            Some(s) => Some(s@),
            None => None::<Seq<char>>,
        },
{
    String::from_utf8(bytes).ok()
}

/// Taking one more non-zero byte into the payload.
proof fn lemma_take_step(s: Seq<u8>, j: int)
    requires
        0 <= j < s.len(),
        s[j] != 0,
    ensures
        take_until_zero(s.subrange(j, s.len() as int)) == seq![s[j]] + take_until_zero(
            s.subrange(j + 1, s.len() as int),
        ),
{
    assert(s.subrange(j, s.len() as int).drop_first() =~= s.subrange(j + 1, s.len() as int));
}

/// Checks a response read from the device and extracts its payload: the
/// bytes after the report id up to the first zero byte, or up to the end of
/// what was read where no zero byte follows.
pub fn response_payload(read: &Option<Vec<u8>>) -> (r: Result<Vec<u8>, HSLinkError>)
    ensures
        match r {
            Ok(p) => payload_of(read_view(read)) == Ok::<Seq<u8>, HSLinkError>(p@),
            Err(e) => payload_of(read_view(read)) == Err::<Seq<u8>, HSLinkError>(e),
        },
{
    match read {
        None => Err(HSLinkError::ReadErr),
        Some(bytes) => {
            if bytes.len() == 0 {
                return Err(HSLinkError::ReadErr);
            }
            if bytes[0] != IN_REPORT_ID {
                return Err(HSLinkError::RspErr);
            }
            let ghost s = bytes@.drop_first();
            let n = bytes.len();
            let mut p: Vec<u8> = Vec::new();
            let mut i: usize = 1;
            assert(s.subrange(0, s.len() as int) =~= s);
            assert(p@ + take_until_zero(s) =~= take_until_zero(s));
            while i < n && bytes[i] != 0
                invariant
                    n == bytes@.len(),
                    1 <= i <= n,
                    s == bytes@.drop_first(),
                    p@ + take_until_zero(s.subrange(i - 1, s.len() as int)) == take_until_zero(
                        s,
                    ),
                decreases n - i,
            {
                proof {
                    lemma_take_step(s, i - 1);
                    assert(p@.push(bytes@[i as int]) + take_until_zero(
                        s.subrange(i as int, s.len() as int),
                    ) =~= p@ + take_until_zero(s.subrange(i - 1, s.len() as int)));
                }
                p.push(bytes[i]);
                i = i + 1;
            }
            assert(take_until_zero(s.subrange(i - 1, s.len() as int)) =~= Seq::<u8>::empty());
            assert(p@ + Seq::<u8>::empty() =~= p@);
            Ok(p)
        },
    }
}

/// Checks a response read from the device and decodes its payload as text.
pub fn decode_response(read: &Option<Vec<u8>>) -> (r: Result<String, HSLinkError>)
    ensures
        match payload_of(read_view(read)) {
            Err(e) => r == Err::<String, HSLinkError>(e),
            Ok(p) => match utf8_text(p) {
                Some(t) => r is Ok && r->Ok_0@ == t,
                None => r == Err::<String, HSLinkError>(HSLinkError::DecodeErr),
            },
        },
{
    match response_payload(read) {
        Err(e) => Err(e),
        Ok(p) => match decode_utf8(p) {
            Some(text) => Ok(text),
            None => Err(HSLinkError::DecodeErr),
        },
    }
}

/// Whatever its payload holds, a response that does not start with the
/// inbound report id is refused with `RspErr`.
pub proof fn lemma_wrong_report_id(bytes: Seq<u8>)
    requires
        bytes.len() > 0,
        bytes[0] != IN_REPORT_ID,
    ensures
        payload_of(Some(bytes)) == Err::<Seq<u8>, HSLinkError>(HSLinkError::RspErr),
{
}

/// A response with no zero byte after its report id has, as payload, every
/// byte read after the report id.
pub proof fn lemma_unterminated_response(bytes: Seq<u8>)
    requires
        bytes.len() > 0,
        bytes[0] == IN_REPORT_ID,
        forall|k: int| 1 <= k < bytes.len() ==> bytes[k] != 0,
    ensures
        payload_of(Some(bytes)) == Ok::<Seq<u8>, HSLinkError>(bytes.drop_first()),
{
    lemma_take_all(bytes.drop_first());
}

/// A sequence without zero bytes is kept whole.
proof fn lemma_take_all(s: Seq<u8>)
    requires
        forall|k: int| 0 <= k < s.len() ==> s[k] != 0,
    ensures
        take_until_zero(s) == s,
    decreases s.len(),
{
    if s.len() > 0 {
        lemma_take_all(s.drop_first());
        assert(seq![s[0]] + s.drop_first() =~= s);
    }
}

} // verus!
