//! Who may use the API.
use crate::text::{chars_of, has_prefix, strip_prefix, text_of};
use vstd::prelude::*;
use vstd::string::*;

verus! {

/// Compares bytes in a time that does not depend on what they are.
///
/// Calls `subtle::ConstantTimeEq::ct_eq` on the two slices and reads its
/// `Choice` as a `bool`, which is true where they are equally long and hold
/// the same bytes.
#[verifier::external_body]
pub(crate) fn constant_time_eq(a: &[u8], b: &[u8]) -> (res: bool)
    ensures
        res == (a@ == b@),
{
    subtle::ConstantTimeEq::ct_eq(a, b).into()
}

/// Texts that are encoded by the same bytes are the same.
proof fn lemma_bytes_decide(a: Seq<char>, b: Seq<char>)
    ensures
        vstd::utf8::encode_utf8(a) == vstd::utf8::encode_utf8(b) <==> a == b,
{
    vstd::utf8::encode_utf8_decode_utf8(a);
    vstd::utf8::encode_utf8_decode_utf8(b);
}

/// Whether a token is the expected one.
pub fn token_matches(token: &str, expected: &str) -> (res: bool)
    ensures
        res == (token@ == expected@),
{
    proof {
        lemma_bytes_decide(token@, expected@);
    }
    constant_time_eq(token.as_bytes(), expected.as_bytes())
}

/// Whether a request may pass: it carries the header `Authorization: Bearer`
/// with the expected token. `header` is the value of the header, where there
/// is one that is text.
pub fn require_auth(header: Option<&str>, auth_token: &str) -> (res: bool)
    ensures
        res == (header is Some && header->0@ == "Bearer "@ + auth_token@),
{
    match header {
        Some(value) => {
            let chars = chars_of(value);
            match strip_prefix(chars.as_slice(), "Bearer ") {
                Some(rest) => {
                    let token = text_of(rest);
                    proof {
                        let p = "Bearer "@;
                        assert(chars@ =~= p + token@);
                        if value@ == p + auth_token@ {
                            assert(token@ =~= auth_token@);
                        }
                    }
                    token_matches(token.as_str(), auth_token)
                },
                None => {
                    proof {
                        let p = "Bearer "@;
                        if value@ == p + auth_token@ {
                            assert(value@.subrange(0, p.len() as int) =~= p);
                            assert(has_prefix(value@, p));
                        }
                    }
                    false
                },
            }
        },
        None => false,
    }
}

} // verus!
