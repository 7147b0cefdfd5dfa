//! Operations on text that std and the base64 crate provide.
use vstd::prelude::*;

verus! {

/// Relies on String::pop: removes and returns the last character, or gives
/// `None` and leaves an empty string as it is.
#[verifier::external_body]
pub(crate) fn pop_char(s: &mut String) -> (r: Option<char>)
    ensures
        old(s)@.len() == 0 ==> r is None && final(s)@ == old(s)@,
        old(s)@.len() > 0 ==> r == Some(old(s)@.last()) && final(s)@ == old(s)@.drop_last(),
{
    s.pop()
}

/// Relies on String::push_str: appends the characters of `t`.
#[verifier::external_body]
pub(crate) fn push_str(s: &mut String, t: &str)
    ensures
        final(s)@ == old(s)@ + t@,
{
    s.push_str(t)
}

/// Relies on char::to_string: the one-character string.
#[verifier::external_body]
pub(crate) fn char_string(c: char) -> (r: String)
    ensures
        r@ == seq![c],
{
    c.to_string()
}

/// What base64 encoding (the standard alphabet, with padding) makes of the
/// UTF-8 bytes of some text.
pub uninterp spec fn base64_encoded(text: Seq<char>) -> Seq<char>;

/// What base64 decoding makes of some text: the bytes, or `None` where the
/// text is not valid base64.
pub uninterp spec fn base64_decoded(text: Seq<char>) -> Option<Seq<u8>>;

/// What lossy UTF-8 decoding makes of some bytes.
pub uninterp spec fn utf8_lossy(bytes: Seq<u8>) -> Seq<char>;

/// Relies on base64::encode: the standard-alphabet encoding, with padding,
/// of the text's UTF-8 bytes; empty text gives empty text.
#[verifier::external_body]
pub(crate) fn b64_encode(text: &str) -> (r: String)
    ensures
        r@ == base64_encoded(text@),
        text@.len() == 0 ==> r@.len() == 0,
{
    base64::encode(text.as_bytes())
}

/// Relies on base64::decode: the decoded bytes, or an error for text that
/// is not valid base64.
#[verifier::external_body]
pub(crate) fn b64_decode(text: &str) -> (r: Option<Vec<u8>>)
    ensures
        r matches Some(v) ==> base64_decoded(text@) == Some(v@),
        r is None ==> base64_decoded(text@) is None,
{
    base64::decode(text).ok()
}

/// Relies on String::from_utf8_lossy: the text of the bytes, with each
/// invalid sequence replaced; valid UTF-8 stays as it is.
#[verifier::external_body]
pub(crate) fn from_utf8_lossy(bytes: &[u8]) -> (r: String)
    ensures
        r@ == utf8_lossy(bytes@),
{
    String::from_utf8_lossy(bytes).to_string()
}

/// Whether two strings hold the same characters.
pub fn str_eq(a: &str, b: &str) -> (r: bool)
    ensures
        r == (a@ == b@),
{
    let n = a.unicode_len();
    if n != b.unicode_len() {
        return false;
    }
    let mut i: usize = 0;
    while i < n
        invariant
            n == a@.len(),
            n == b@.len(),
            i <= n,
            forall|k: int| 0 <= k < i ==> a@[k] == b@[k],
        decreases n - i,
    {
        if a.get_char(i) != b.get_char(i) {
            return false;
        }
        i = i + 1;
    }
    assert(a@ =~= b@);
    true
}

} // verus!
