use vstd::prelude::*;

use crate::errors::AuthError;
use crate::json::{obj_lookup, lookup_field, JsonValue};
use crate::model::Token;
use crate::text::{dec_val, is_dec_string, parse_u64, push_char};
use vstd::string::StringSliceAdditionalSpecFns;

verus! {

/// What the standard base64 alphabet with padding makes of a byte string.
/// The encoding depends on the bytes alone.
pub uninterp spec fn base64_of(bytes: Seq<u8>) -> Seq<char>;

/// Relies on `base64::encode`: standard-alphabet, padded base64 of the
/// argument's UTF-8 bytes.
#[verifier::external_body]
fn encode_base64(s: &str) -> (r: String)
    ensures
        r@ == base64_of(s.spec_bytes()),
{
    base64::encode(s)
}

/// The credential pair in the form the token endpoint's Basic scheme wants
/// encoded: `key:secret`.
pub open spec fn joined_credentials(key: Seq<char>, secret: Seq<char>) -> Seq<char> {
    key + seq![':'] + secret
}

/// The value of the `authorization` header for the token request:
/// `Basic ` followed by the base64 of `key:secret`.
pub fn basic_auth_header(key: &str, secret: &str) -> (r: String)
    ensures
        r@ == "Basic "@ + base64_of(
            vstd::utf8::encode_utf8(joined_credentials(key@, secret@)),
        ),
{
    let mut joined = String::new();
    joined.append(key);
    push_char(&mut joined, ':');
    joined.append(secret);
    proof {
        assert(joined@ =~= joined_credentials(key@, secret@));
    }
    let encoded = encode_base64(joined.as_str());
    let mut r = String::from_str("Basic ");
    r.append(encoded.as_str());
    r
}

/// What the token endpoint's decoded JSON body yields: a token exactly when
/// the body is an object whose `access_token` and `token_type` are strings
/// and whose `expires_in` is a string of decimal digits that fits in a `u64`;
/// otherwise the decode error. `None` stands for a body that was not JSON at
/// all.
pub open spec fn spec_decode_token(body: Option<JsonValue>) -> Result<Token, AuthError> {
    match body {
        Option::None => Err(AuthError::Decode),
        Option::Some(v) => match v {
            JsonValue::Obj(fields) => {
                let at = obj_lookup(fields@, "access_token"@);
                let tt = obj_lookup(fields@, "token_type"@);
                let ei = obj_lookup(fields@, "expires_in"@);
                match (at, tt, ei) {
                    (
                        Some(JsonValue::Str(a)),
                        Some(JsonValue::Str(t)),
                        Some(JsonValue::Str(e)),
                    ) => {
                        if is_dec_string(e@) && dec_val(e@) <= u64::MAX {
                            Ok(
                                Token {
                                    access_token: a,
                                    token_type: t,
                                    expires_in: dec_val(e@) as u64,
                                },
                            )
                        } else {
                            Err(AuthError::Decode)
                        }
                    },
                    _ => Err(AuthError::Decode),
                }
            },
            _ => Err(AuthError::Decode),
        },
    }
}

/// Reads the token endpoint's response body, already split into JSON (or
/// `None` where the body was not JSON). The advertised lifetime arrives as a
/// numeric string and is read as seconds.
pub fn decode_token_response(body: Option<JsonValue>) -> (r: Result<Token, AuthError>)
    ensures
        r == spec_decode_token(body),
{
    match body {
        Option::None => Err(AuthError::Decode),
        Option::Some(v) => match v {
            JsonValue::Obj(fields) => {
                let at = lookup_field(&fields, "access_token");
                let tt = lookup_field(&fields, "token_type");
                let ei = lookup_field(&fields, "expires_in");
                match (at, tt, ei) {
                    (
                        Some(JsonValue::Str(a)),
                        Some(JsonValue::Str(t)),
                        Some(JsonValue::Str(e)),
                    ) => {
                        match parse_u64(e.as_str()) {
                            Some(secs) => Ok(
                                Token {
                                    access_token: a.clone(),
                                    token_type: t.clone(),
                                    expires_in: secs,
                                },
                            ),
                            None => Err(AuthError::Decode),
                        }
                    },
                    _ => Err(AuthError::Decode),
                }
            },
            _ => Err(AuthError::Decode),
        },
    }
}

} // verus!
