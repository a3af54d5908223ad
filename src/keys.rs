use base64::Engine as _;
use vstd::prelude::*;
use vstd::utf8::{decode_utf8, encode_utf8, valid_utf8};

use crate::text::{trim, trimmed};

verus! {

/// Why the configured private key could not be read.
#[derive(Debug, Clone, Copy, PartialEq, Eq, Structural)]
pub enum KeyError {
    /// The value is not valid standard base64.
    NotBase64,
    /// The decoded bytes are not valid UTF-8.
    NotUtf8,
}

/// `s` holds a backslash followed by `n`.
pub open spec fn has_escaped_newline(s: Seq<char>) -> bool {
    exists|i: int| 0 <= i && i + 1 < s.len() && s[i] == '\\' && #[trigger] s[i + 1] == 'n'
}

/// `s` holds a line feed.
pub open spec fn has_newline(s: Seq<char>) -> bool {
    exists|i: int| 0 <= i < s.len() && #[trigger] s[i] == '\n'
}

/// `s` with each backslash-`n` pair, read left to right, made a line feed.
pub open spec fn unescape_newlines(s: Seq<char>) -> Seq<char>
    decreases s.len(),
{
    if s.len() == 0 {
        s
    } else if s.len() >= 2 && s[0] == '\\' && s[1] == 'n' {
        seq!['\n'] + unescape_newlines(s.subrange(2, s.len() as int))
    } else {
        seq![s[0]] + unescape_newlines(s.drop_first())
    }
}

/// A PEM key whose line breaks were written as `\n` gets real line breaks;
/// a key that already has one is left alone.
pub open spec fn normalized_key(s: Seq<char>) -> Seq<char> {
    if has_escaped_newline(s) && !has_newline(s) {
        unescape_newlines(s)
    } else {
        s
    }
}

/// What base64's standard, padded engine decodes `text` to; `None` where it
/// is not valid base64.
pub uninterp spec fn base64_decoded(text: Seq<u8>) -> Option<Seq<u8>>;

/// The key text a configured value stands for, or why it has none.
pub open spec fn decoded_key(value: Seq<char>) -> Result<Seq<char>, KeyError> {
    match base64_decoded(encode_utf8(trimmed(value))) {
        None => Err(KeyError::NotBase64),
        Some(bytes) => if valid_utf8(bytes) {
            Ok(normalized_key(decode_utf8(bytes)))
        } else {
            Err(KeyError::NotUtf8)
        },
    }
}

/// Relies on `base64::engine::general_purpose::STANDARD.decode`: the bytes
/// that standard, padded base64 text stands for, a function of the text alone.
#[verifier::external_body]
fn base64_decode(text: &[u8]) -> (r: Option<Vec<u8>>)
    ensures
        match r {
            Some(v) => base64_decoded(text@) == Some(v@),
            None => base64_decoded(text@) is None,
        },
{
    base64::engine::general_purpose::STANDARD.decode(text).ok()
}

/// Relies on `String::from_utf8`: succeeds exactly on valid UTF-8 and then
/// holds the characters the bytes encode.
#[verifier::external_body]
fn utf8_string(bytes: Vec<u8>) -> (r: Option<String>)
    ensures
        r is Some <==> valid_utf8(bytes@),
        r matches Some(s) ==> s@ == decode_utf8(bytes@),
{
    String::from_utf8(bytes).ok()
}

fn contains_escaped_newline(s: &str) -> (r: bool)
    ensures
        r == has_escaped_newline(s@),
{
    let n = s.unicode_len();
    let mut i: usize = 0;
    while n > 1 && i < n - 1
        invariant
            n == s@.len(),
            i <= n,
            forall|k: int| 0 <= k < i && k + 1 < n ==> !(s@[k] == '\\' && #[trigger] s@[k + 1] == 'n'),
        decreases n - i,
    {
        if s.get_char(i) == '\\' && s.get_char(i + 1) == 'n' {
            return true;
        }
        i = i + 1;
    }
    false
}

fn contains_newline(s: &str) -> (r: bool)
    ensures
        r == has_newline(s@),
{
    let n = s.unicode_len();
    let mut i: usize = 0;
    while i < n
        invariant
            n == s@.len(),
            i <= n,
            forall|k: int| 0 <= k < i ==> #[trigger] s@[k] != '\n',
        decreases n - i,
    {
        if s.get_char(i) == '\n' {
            return true;
        }
        i = i + 1;
    }
    false
}

fn replace_escaped_newlines(s: &str) -> (r: String)
    ensures
        r@ == unescape_newlines(s@),
{
    let n = s.unicode_len();
    let mut out = String::new();
    let mut i: usize = 0;
    proof {
        reveal_strlit("\n");
        assert(s@.subrange(0, n as int) =~= s@);
    }
    while i < n
        invariant
            n == s@.len(),
            i <= n,
            "\n"@ == seq!['\n'],
            out@ + unescape_newlines(s@.subrange(i as int, n as int)) == unescape_newlines(s@),
        decreases n - i,
    {
        let ghost rest = s@.subrange(i as int, n as int);
        if n - i > 1 && s.get_char(i) == '\\' && s.get_char(i + 1) == 'n' {
            proof {
                assert(rest.subrange(2, rest.len() as int) =~= s@.subrange(i + 2, n as int));
                assert(out@ + "\n"@ + unescape_newlines(s@.subrange(i + 2, n as int)) =~= out@
                    + unescape_newlines(rest));
            }
            out.append("\n");
            i = i + 2;
        } else {
            let one = s.substring_char(i, i + 1);
            proof {
                assert(rest.drop_first() =~= s@.subrange(i + 1, n as int));
                assert(one@ =~= seq![rest[0]]);
                assert(out@ + one@ + unescape_newlines(s@.subrange(i + 1, n as int)) =~= out@
                    + unescape_newlines(rest));
            }
            out.append(one);
            i = i + 1;
        }
    }
    proof {
        assert(s@.subrange(n as int, n as int) =~= Seq::<char>::empty());
        assert(out@ + Seq::<char>::empty() =~= out@);
    }
    out
}

/// Turns `\n` escapes into line breaks when the key has no real line break.
pub fn normalize_private_key(value: String) -> (r: String)
    ensures
        r@ == normalized_key(value@),
{
    if contains_escaped_newline(value.as_str()) && !contains_newline(value.as_str()) {
        return replace_escaped_newlines(value.as_str());
    }
    value
}

/// The PEM text of a configured key: trimmed, base64-decoded, read as UTF-8,
/// then normalized.
pub fn decode_private_key(value: &str) -> (r: Result<String, KeyError>)
    ensures
        match r {
            Ok(k) => decoded_key(value@) == Ok::<Seq<char>, KeyError>(k@),
            Err(e) => decoded_key(value@) == Err::<Seq<char>, KeyError>(e),
        },
{
    let t = trim(value);
    let decoded = match base64_decode(t.as_bytes()) {
        Some(d) => d,
        None => return Err(KeyError::NotBase64),
    };
    let text = match utf8_string(decoded) {
        Some(s) => s,
        None => return Err(KeyError::NotUtf8),
    };
    Ok(normalize_private_key(text))
}

} // verus!
