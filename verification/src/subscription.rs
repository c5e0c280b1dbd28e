//! Where a subscription comes from, and the first look at its payload.

use crate::text::{chars_of, text_of_range};
use vstd::prelude::*;

verus! {

/// A character of the standard base64 alphabet, padding included.
pub open spec fn is_base64_char(c: char) -> bool {
    ||| 'A' <= c <= 'Z'
    ||| 'a' <= c <= 'z'
    ||| '0' <= c <= '9'
    ||| c == '+'
    ||| c == '/'
    ||| c == '='
}

/// A text that may be base64: every character is of the alphabet and the
/// length is a multiple of four.
pub open spec fn is_base64_text(s: Seq<char>) -> bool {
    &&& forall|i: int| 0 <= i < s.len() ==> is_base64_char(#[trigger] s[i])
    &&& s.len() % 4 == 0
}

/// Whether a payload is plausibly base64. This does not say that it decodes.
pub fn is_base64(s: &str) -> (r: bool)
    ensures
        r == is_base64_text(s@),
{
    let mut quarter: usize = 0;
    for c in it: s.chars()
        invariant
            it.seq() == s@,
            quarter == it.index() % 4,
            forall|i: int| 0 <= i < it.index() ==> is_base64_char(#[trigger] s@[i]),
    {
        let in_alphabet = ('A' <= c && c <= 'Z') || ('a' <= c && c <= 'z') || ('0' <= c && c
            <= '9') || c == '+' || c == '/' || c == '=';
        if !in_alphabet {
            assert(!is_base64_char(s@[it.index() as int]));
            return false;
        }
        quarter = if quarter == 3 {
            0
        } else {
            quarter + 1
        };
    }
    quarter == 0
}

/// Where a subscription is fetched from.
#[derive(Debug, Clone, PartialEq, Eq)]
pub enum SubscriptionSource {
    /// A local file, by its path.
    File(String),
    /// A remote document, by its address.
    Remote(String),
}

/// The prefix of an address that names a local file.
pub open spec fn file_prefix() -> Seq<char> {
    seq!['f', 'i', 'l', 'e', ':', '/', '/']
}

/// Whether an address names a local file.
pub open spec fn has_file_prefix(url: Seq<char>) -> bool {
    url.len() >= 7 && url.take(7) == file_prefix()
}

/// An address that starts with `file://` names a local file by the rest of
/// it; every other address is fetched remotely.
pub fn subscription_source(url: &str) -> (r: SubscriptionSource)
    ensures
        match r {
            SubscriptionSource::File(path) => has_file_prefix(url@) && path@ == url@.skip(7),
            SubscriptionSource::Remote(address) => !has_file_prefix(url@) && address@ == url@,
        },
{
    let chars = chars_of(url);
    let n: usize = chars.len();
    if n >= 7 && chars[0] == 'f' && chars[1] == 'i' && chars[2] == 'l' && chars[3] == 'e'
        && chars[4] == ':' && chars[5] == '/' && chars[6] == '/' {
        assert(url@.take(7) =~= file_prefix());
        assert(url@.skip(7) =~= chars@.subrange(7, n as int));
        SubscriptionSource::File(text_of_range(&chars, 7, n))
    } else {
        assert(has_file_prefix(url@) ==> url@.take(7)[0] == 'f' && url@.take(7)[1] == 'i'
            && url@.take(7)[2] == 'l' && url@.take(7)[3] == 'e' && url@.take(7)[4] == ':'
            && url@.take(7)[5] == '/' && url@.take(7)[6] == '/');
        assert(url@ =~= chars@.subrange(0, n as int));
        SubscriptionSource::Remote(text_of_range(&chars, 0, n))
    }
}

/// Why a fetched response is not a subscription.
#[derive(Debug, Clone, Copy, PartialEq, Eq, Structural)]
pub enum FetchError {
    /// The server answered with this status, which is not a success.
    Status(u16),
}

/// A remote response is taken as the subscription exactly when its status is
/// a success (200 to 299).
pub fn check_status(status: u16) -> (r: Result<(), FetchError>)
    ensures
        200 <= status < 300 ==> r == Ok::<(), FetchError>(()),
        !(200 <= status < 300) ==> r == Err::<(), FetchError>(FetchError::Status(status)),
{
    if 200 <= status && status < 300 {
        Ok(())
    } else {
        Err(FetchError::Status(status))
    }
}

} // verus!
