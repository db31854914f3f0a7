//! Admission: whether a request's credential header admits it.
//!
//! Under the token scheme a request is admitted when its token is the secret
//! of some configured name. Under the basic scheme the header is exactly
//! `Basic`, one space, and the base64 of `user:password`; the request is
//! admitted when the user is configured with exactly that password.

use vstd::prelude::*;
use vstd::slice::{slice_subrange, slice_to_vec};
use vstd::utf8::*;
use crate::ascii::{
    all_visible, find_byte, is_a_word, is_visible, is_visible_text, is_word, same_bytes,
};
use crate::credentials::{credential_header, credential_header_name, AuthScheme, CredentialStore};
use crate::request::{find_header, header_bytes, header_value, headers_view, Header};
use crate::text::{
    ascii_chars, is_ascii_bytes, is_utf8, lemma_ascii_bytes, lemma_contains_in_encoding,
    lemma_decode_around_ascii, str_is_encoded_as,
};

verus! {

/// Why a request was denied.
#[derive(Clone, Copy, Debug, PartialEq, Eq, Structural)]
pub enum DenyReason {
    /// The request has no credential header.
    MissingHeader,
    /// The header holds bytes that are not visible text.
    HeaderNotText,
    /// The token is no configured token.
    UnknownToken,
    /// The header is not exactly `Basic`, one space, and one word.
    NotBasic,
    /// The word after `Basic` is not base64.
    NotBase64,
    /// The decoded credentials are not UTF-8.
    NotUtf8,
    /// The decoded credentials hold no `:`.
    MissingSeparator,
    /// The user is not configured.
    UnknownUser,
    /// The password is not the user's.
    WrongPassword,
}

/// What a denial asks of the client.
#[derive(Clone, Copy, Debug, PartialEq, Eq, Structural)]
pub enum Challenge {
    /// Nothing: the request is forbidden.
    Absent,
    /// To authenticate to the proxy with the basic scheme.
    BasicRealm,
}

/// The outcome of admission.
#[derive(Clone, Copy, Debug, PartialEq, Eq, Structural)]
pub enum Decision {
    Allow,
    Deny(DenyReason, Challenge),
}

/// `value` is exactly `Basic`, one space, and the word `word`. The name of
/// the scheme is matched letter for letter.
pub open spec fn is_basic_with(value: Seq<u8>, word: Seq<u8>) -> bool {
    value == encode_utf8("Basic "@) + word && is_word(word)
}

/// The word that follows `Basic` and one space in a header value of the
/// basic scheme: `None` unless the value is exactly that.
pub open spec fn basic_credentials(value: Seq<u8>) -> Option<Seq<u8>> {
    let start = encode_utf8("Basic "@).len() as int;
    if start <= value.len() && is_basic_with(value, value.subrange(start, value.len() as int)) {
        Some(value.subrange(start, value.len() as int))
    } else {
        None
    }
}

/// What standard base64 with padding decodes `text` to, or `None` where
/// `text` is no such encoding.
pub uninterp spec fn base64_decoded(text: Seq<u8>) -> Option<Seq<u8>>;

/// The verdict on decoded basic credentials: they are UTF-8, the text up to
/// its first `:` is a configured user, and the text after it that user's
/// password.
pub open spec fn credentials_verdict(users: Map<Seq<char>, Seq<char>>, decoded: Seq<u8>) -> Decision {
    if !valid_utf8(decoded) {
        Decision::Deny(DenyReason::NotUtf8, Challenge::BasicRealm)
    } else {
        match user_and_password(decoded) {
            None => Decision::Deny(DenyReason::MissingSeparator, Challenge::BasicRealm),
            Some((user, password)) => {
                if !users.contains_key(user) {
                    Decision::Deny(DenyReason::UnknownUser, Challenge::BasicRealm)
                } else if users[user] != password {
                    Decision::Deny(DenyReason::WrongPassword, Challenge::BasicRealm)
                } else {
                    Decision::Allow
                }
            },
        }
    }
}

/// The verdict of the basic scheme on a header value that is text.
pub open spec fn basic_value_verdict(
    users: Map<Seq<char>, Seq<char>>,
    value: Seq<u8>,
) -> Decision {
    match basic_credentials(value) {
        None => Decision::Deny(DenyReason::NotBasic, Challenge::BasicRealm),
        Some(word) => match base64_decoded(word) {
            None => Decision::Deny(DenyReason::NotBase64, Challenge::BasicRealm),
            Some(decoded) => credentials_verdict(users, decoded),
        },
    }
}

/// The verdict of the basic scheme on the proxy authorization header.
pub open spec fn basic_verdict(users: Map<Seq<char>, Seq<char>>, header: Option<Seq<u8>>) -> Decision {
    match header {
        None => Decision::Deny(DenyReason::MissingHeader, Challenge::BasicRealm),
        Some(value) => if !is_visible_text(value) {
            Decision::Deny(DenyReason::HeaderNotText, Challenge::BasicRealm)
        } else {
            basic_value_verdict(users, value)
        },
    }
}

/// The verdict of the token scheme on the token header.
pub open spec fn token_verdict(tokens: Map<Seq<char>, Seq<char>>, header: Option<Seq<u8>>) -> Decision {
    match header {
        None => Decision::Deny(DenyReason::MissingHeader, Challenge::Absent),
        Some(value) => if !is_visible_text(value) {
            Decision::Deny(DenyReason::HeaderNotText, Challenge::Absent)
        } else if !tokens.contains_value(ascii_chars(value)) {
            Decision::Deny(DenyReason::UnknownToken, Challenge::Absent)
        } else {
            Decision::Allow
        },
    }
}

/// The verdict of `scheme` on the header that carries its credential.
pub open spec fn verdict(
    scheme: AuthScheme,
    credentials: Map<Seq<char>, Seq<char>>,
    header: Option<Seq<u8>>,
) -> Decision {
    match scheme {
        AuthScheme::Token => token_verdict(credentials, header),
        AuthScheme::Basic => basic_verdict(credentials, header),
    }
}

/// Decodes standard base64 with padding.
///
/// Calls `decode` of the `base64` crate's `STANDARD` engine. The result is
/// named, not described: the same text always decodes to the same bytes, or
/// always fails.
#[verifier::external_body]
fn decode_base64(text: &[u8]) -> (r: Option<Vec<u8>>)
    ensures
        match r {
            Some(bytes) => base64_decoded(text@) == Some(bytes@),
            None => base64_decoded(text@) is None,
        },
{
    base64::Engine::decode(&base64::engine::general_purpose::STANDARD, text).ok()
}

/// The user and the password in decoded credentials: the text before the
/// first `:` and the text after it, where the credentials are UTF-8 and
/// hold a `:`.
pub open spec fn user_and_password(decoded: Seq<u8>) -> Option<(Seq<char>, Seq<char>)> {
    if !valid_utf8(decoded) {
        None
    } else {
        let text = decode_utf8(decoded);
        match text.index_of_first(':') {
            None => None,
            Some(i) => Some((text.subrange(0, i), text.subrange(i + 1, text.len() as int))),
        }
    }
}

/// Where the `:` between user and password stands in UTF-8 credentials.
fn find_separator(decoded: &[u8]) -> (r: Option<usize>)
    requires
        valid_utf8(decoded@),
    ensures
        match r {
            Some(j) => j < decoded.len() && valid_utf8(decoded@.subrange(0, j as int))
                && valid_utf8(decoded@.subrange(j + 1, decoded@.len() as int))
                && user_and_password(decoded@) == Some(
                (
                    decode_utf8(decoded@.subrange(0, j as int)),
                    decode_utf8(decoded@.subrange(j + 1, decoded@.len() as int)),
                ),
            ),
            None => user_and_password(decoded@) is None,
        },
{
    let ghost text = decode_utf8(decoded@);
    proof {
        decode_utf8_encode_utf8(decoded@);
        lemma_contains_in_encoding(0x3a, text);
        text.index_of_first_ensures(':');
    }
    let found = find_byte(decoded, 0x3a);
    proof {
        if let Some(j) = found {
            let name = decoded@.subrange(0, j as int);
            let word = decoded@.subrange(j + 1, decoded@.len() as int);
            assert(decoded@.subrange(j as int, j + 1) =~= seq![0x3au8]);
            assert(is_ascii_bytes(decoded@.subrange(j as int, j + 1)));
            lemma_decode_around_ascii(decoded@, j as int, 1);
            let user = decode_utf8(name);
            assert(ascii_chars(seq![0x3au8]) =~= seq![':']);
            assert(text == user + seq![':'] + decode_utf8(word));
            decode_utf8_encode_utf8(name);
            lemma_contains_in_encoding(0x3a, user);
            assert(!user.contains(':')) by {
                if name.contains(0x3au8) {
                    let k = choose|k: int| 0 <= k < name.len() && name[k] == 0x3au8;
                    assert(decoded@[k] == 0x3au8);
                }
            }
            let i = text.index_of_first(':')->0;
            assert(text[user.len() as int] == ':');
            assert(i == user.len()) by {
                if i < user.len() {
                    assert(user[i] == ':');
                }
            }
            assert(text.subrange(0, i) =~= user);
            assert(text.subrange(i + 1, text.len() as int) =~= decode_utf8(word));
        }
    }
    found
}

/// The verdict on decoded basic credentials.
pub fn check_credentials(users: &CredentialStore, decoded: &[u8]) -> (r: Decision)
    ensures
        r == credentials_verdict(users@, decoded@),
{
    if !is_utf8(decoded) {
        return Decision::Deny(DenyReason::NotUtf8, Challenge::BasicRealm);
    }
    match find_separator(decoded) {
        None => Decision::Deny(DenyReason::MissingSeparator, Challenge::BasicRealm),
        Some(j) => {
            let name = slice_subrange(decoded, 0, j);
            let word = slice_subrange(decoded, j + 1, decoded.len());
            match users.secret_of(name) {
                None => Decision::Deny(DenyReason::UnknownUser, Challenge::BasicRealm),
                Some(secret) => {
                    let same = str_is_encoded_as(secret, word);
                    proof {
                        encode_utf8_decode_utf8(secret@);
                        decode_utf8_encode_utf8(word@);
                    }
                    if same {
                        Decision::Allow
                    } else {
                        Decision::Deny(DenyReason::WrongPassword, Challenge::BasicRealm)
                    }
                },
            }
        },
    }
}

/// The word after `Basic` and one space, where `value` is exactly that.
pub fn basic_word(value: &[u8]) -> (r: Option<&[u8]>)
    ensures
        header_bytes(r) == basic_credentials(value@),
{
    let prefix = "Basic ".as_bytes();
    let start = prefix.len();
    if value.len() < start {
        return None;
    }
    let word = slice_subrange(value, start, value.len());
    if same_bytes(slice_subrange(value, 0, start), prefix) && is_a_word(word) {
        assert(value@ =~= prefix@ + word@);
        Some(word)
    } else {
        proof {
            if is_basic_with(value@, word@) {
                assert(value@.subrange(0, start as int) =~= prefix@);
            }
        }
        None
    }
}

/// The verdict of the basic scheme on a header value that is text.
pub fn check_basic_value(users: &CredentialStore, value: &[u8]) -> (r: Decision)
    ensures
        r == basic_value_verdict(users@, value@),
{
    match basic_word(value) {
        None => Decision::Deny(DenyReason::NotBasic, Challenge::BasicRealm),
        Some(word) => match decode_base64(word) {
            None => Decision::Deny(DenyReason::NotBase64, Challenge::BasicRealm),
            Some(decoded) => check_credentials(users, decoded.as_slice()),
        },
    }
}

/// The verdict of the basic scheme on the proxy authorization header.
pub fn check_basic(users: &CredentialStore, header: Option<&[u8]>) -> (r: Decision)
    ensures
        r == basic_verdict(users@, header_bytes(header)),
{
    match header {
        None => Decision::Deny(DenyReason::MissingHeader, Challenge::BasicRealm),
        Some(value) => {
            if !all_visible(value) {
                Decision::Deny(DenyReason::HeaderNotText, Challenge::BasicRealm)
            } else {
                check_basic_value(users, value)
            }
        },
    }
}

/// The verdict of the token scheme on the token header.
pub fn check_token(tokens: &CredentialStore, header: Option<&[u8]>) -> (r: Decision)
    ensures
        r == token_verdict(tokens@, header_bytes(header)),
{
    match header {
        None => Decision::Deny(DenyReason::MissingHeader, Challenge::Absent),
        Some(value) => {
            if !all_visible(value) {
                Decision::Deny(DenyReason::HeaderNotText, Challenge::Absent)
            } else {
                proof {
                    assert(is_ascii_bytes(value@)) by {
                        assert forall|i: int| 0 <= i < value@.len() implies #[trigger] value@[i]
                            <= 0x7f by {
                            assert(is_visible(value@[i]));
                        }
                    }
                    lemma_ascii_bytes(value@);
                }
                if tokens.holds_secret(value) {
                    Decision::Allow
                } else {
                    Decision::Deny(DenyReason::UnknownToken, Challenge::Absent)
                }
            }
        },
    }
}

/// The verdict on the credential in `header`: the value of the header that
/// carries the credential under the store's scheme, if the request has one.
pub fn check_header(credentials: &CredentialStore, header: Option<&[u8]>) -> (r: Decision)
    ensures
        r == verdict(credentials.scheme(), credentials@, header_bytes(header)),
{
    match credentials.scheme() {
        AuthScheme::Token => check_token(credentials, header),
        AuthScheme::Basic => check_basic(credentials, header),
    }
}

/// The verdict on a request with the given headers.
pub open spec fn admitted(
    scheme: AuthScheme,
    credentials: Map<Seq<char>, Seq<char>>,
    headers: Seq<(Seq<u8>, Seq<u8>)>,
) -> Decision {
    verdict(scheme, credentials, header_value(headers, encode_utf8(credential_header(scheme))))
}

/// Decides whether a request with these headers is admitted: by the first
/// header that carries the credential under the store's scheme.
pub fn authenticate(credentials: &CredentialStore, headers: &[Header]) -> (r: Decision)
    ensures
        r == admitted(credentials.scheme(), credentials@, headers_view(headers@)),
{
    let name = credential_header_name(credentials.scheme());
    check_header(credentials, find_header(headers, name))
}

/// The user named in decoded basic credentials.
pub open spec fn named_user(decoded: Seq<u8>) -> Option<Seq<char>> {
    match user_and_password(decoded) {
        Some((user, _)) => Some(user),
        None => None,
    }
}

/// The user that a request presents under `scheme`, admitted or not: the
/// one named in its basic credentials, where the header holds credentials
/// that read so far. A token names no user.
pub open spec fn presented_user(scheme: AuthScheme, header: Option<Seq<u8>>) -> Option<Seq<char>> {
    match (scheme, header) {
        (AuthScheme::Basic, Some(value)) => if !is_visible_text(value) {
            None
        } else {
            match basic_credentials(value) {
                None => None,
                Some(word) => match base64_decoded(word) {
                    None => None,
                    Some(decoded) => named_user(decoded),
                },
            }
        },
        _ => None,
    }
}

/// The text that UTF-8 bytes hold, if there are any.
pub open spec fn utf8_text(bytes: Option<Vec<u8>>) -> Option<Seq<char>> {
    match bytes {
        Some(b) => Some(decode_utf8(b@)),
        None => None,
    }
}

/// The user named in decoded basic credentials, in UTF-8.
pub fn user_of(decoded: &[u8]) -> (r: Option<Vec<u8>>)
    ensures
        utf8_text(r) == named_user(decoded@),
        r matches Some(name) ==> valid_utf8(name@),
{
    if !is_utf8(decoded) {
        return None;
    }
    match find_separator(decoded) {
        None => None,
        Some(j) => Some(slice_to_vec(slice_subrange(decoded, 0, j))),
    }
}

/// The user that a request with these headers presents, in UTF-8, for the
/// record of who was admitted and who was not.
pub fn audit_user(credentials: &CredentialStore, headers: &[Header]) -> (r: Option<Vec<u8>>)
    ensures
        utf8_text(r) == presented_user(
            credentials.scheme(),
            header_value(headers_view(headers@), encode_utf8(credential_header(credentials.scheme()))),
        ),
        r matches Some(name) ==> valid_utf8(name@),
{
    match credentials.scheme() {
        AuthScheme::Token => None,
        AuthScheme::Basic => {
            let name = credential_header_name(AuthScheme::Basic);
            match find_header(headers, name) {
                None => None,
                Some(value) => {
                    if !all_visible(value) {
                        return None;
                    }
                    match basic_word(value) {
                        None => None,
                        Some(word) => match decode_base64(word) {
                            None => None,
                            Some(decoded) => user_of(decoded.as_slice()),
                        },
                    }
                },
            }
        },
    }
}

/// The token scheme admits a request just when its header is text and that
/// text is the secret of some configured name.
pub proof fn token_admits_configured_values(
    tokens: Map<Seq<char>, Seq<char>>,
    header: Option<Seq<u8>>,
)
    ensures
        token_verdict(tokens, header) == Decision::Allow <==> ({
            &&& header matches Some(value)
            &&& is_visible_text(value)
            &&& exists|name: Seq<char>| #[trigger]
                tokens.dom().contains(name) && tokens[name] == ascii_chars(value)
        }),
{
}

/// Under the token scheme the names count for nothing: two sets of
/// credentials with the same secrets admit the same requests.
pub proof fn token_admission_ignores_names(
    a: Map<Seq<char>, Seq<char>>,
    b: Map<Seq<char>, Seq<char>>,
    header: Option<Seq<u8>>,
)
    requires
        a.values() == b.values(),
    ensures
        token_verdict(a, header) == token_verdict(b, header),
{
    if let Some(value) = header {
        let token = ascii_chars(value);
        assert(a.contains_value(token) <==> a.values().contains(token));
        assert(b.contains_value(token) <==> b.values().contains(token));
    }
}

/// `text` is `user`, a `:`, and `password`, where `user` holds no `:`.
pub open spec fn is_user_and_password(text: Seq<char>, user: Seq<char>, password: Seq<char>) -> bool {
    text == user + seq![':'] + password && !user.contains(':')
}

/// `decoded` is the UTF-8 of a configured user, a `:`, and exactly that
/// user's password.
pub open spec fn names_user_and_password(users: Map<Seq<char>, Seq<char>>, decoded: Seq<u8>) -> bool {
    valid_utf8(decoded) && exists|user: Seq<char>, password: Seq<char>| #[trigger]
        is_user_and_password(decode_utf8(decoded), user, password) && users.contains_key(user)
            && users[user] == password
}

/// Decoded credentials are admitted just when they are UTF-8 and the text
/// is a configured user, a `:`, and exactly that user's password.
pub proof fn credentials_admit_exactly(users: Map<Seq<char>, Seq<char>>, decoded: Seq<u8>)
    ensures
        credentials_verdict(users, decoded) == Decision::Allow <==> names_user_and_password(
            users,
            decoded,
        ),
{
    let text = decode_utf8(decoded);
    text.index_of_first_ensures(':');
    if credentials_verdict(users, decoded) == Decision::Allow {
        let i = text.index_of_first(':')->0;
        let user = text.subrange(0, i);
        let password = text.subrange(i + 1, text.len() as int);
        assert(text =~= user + seq![':'] + password);
        assert(!user.contains(':')) by {
            if user.contains(':') {
                let k = choose|k: int| 0 <= k < user.len() && user[k] == ':';
                assert(text[k] == ':');
            }
        }
        assert(is_user_and_password(text, user, password));
    }
    if names_user_and_password(users, decoded) {
        let (user, password) = choose|user: Seq<char>, password: Seq<char>| #[trigger]
            is_user_and_password(text, user, password) && users.contains_key(user) && users[user]
                == password;
        let n = user.len() as int;
        assert(text[n] == ':');
        assert(text.contains(':'));
        let i = text.index_of_first(':')->0;
        assert(i == n) by {
            if i < n {
                assert(user[i] == ':');
            }
        }
        assert(text.subrange(0, i) =~= user);
        assert(text.subrange(i + 1, text.len() as int) =~= password);
    }
}

/// A header value carries basic credentials just when it is exactly
/// `Basic`, one space, and one word: no other case of the letters, no other
/// blanks, nothing before and nothing after.
pub proof fn basic_header_is_exact(value: Seq<u8>, word: Seq<u8>)
    ensures
        basic_credentials(value) == Some(word) <==> is_basic_with(value, word),
{
    let prefix = encode_utf8("Basic "@);
    if is_basic_with(value, word) {
        assert(value.subrange(prefix.len() as int, value.len() as int) =~= word);
    }
}

/// `word` is the base64 of a configured user, a `:`, and exactly that user's
/// password.
pub open spec fn word_admits(users: Map<Seq<char>, Seq<char>>, word: Seq<u8>) -> bool {
    match base64_decoded(word) {
        Some(decoded) => names_user_and_password(users, decoded),
        None => false,
    }
}

/// The basic scheme admits a request just when its header is exactly
/// `Basic`, one space, and a word, that word is the base64 of UTF-8 text,
/// and the text is a configured user, a `:`, and exactly that user's
/// password.
pub proof fn basic_admits_exactly(users: Map<Seq<char>, Seq<char>>, header: Option<Seq<u8>>)
    ensures
        basic_verdict(users, header) == Decision::Allow <==> ({
            &&& header matches Some(value)
            &&& is_visible_text(value)
            &&& exists|word: Seq<u8>| #[trigger]
                is_basic_with(value, word) && word_admits(users, word)
        }),
{
    if let Some(value) = header {
        if let Some(word) = basic_credentials(value) {
            basic_header_is_exact(value, word);
            if let Some(decoded) = base64_decoded(word) {
                credentials_admit_exactly(users, decoded);
            }
        }
        if exists|word: Seq<u8>| #[trigger]
            is_basic_with(value, word) && word_admits(users, word) {
            let word = choose|word: Seq<u8>| #[trigger]
                is_basic_with(value, word) && word_admits(users, word);
            basic_header_is_exact(value, word);
            credentials_admit_exactly(users, base64_decoded(word)->0);
        }
    }
}

/// A denial carries the challenge of its scheme: none under the token
/// scheme, the basic one under the basic scheme.
pub proof fn denial_goes_with_the_scheme(
    scheme: AuthScheme,
    credentials: Map<Seq<char>, Seq<char>>,
    header: Option<Seq<u8>>,
)
    ensures
        verdict(scheme, credentials, header) matches Decision::Deny(_, challenge) ==> challenge
            == (match scheme {
            AuthScheme::Token => Challenge::Absent,
            AuthScheme::Basic => Challenge::BasicRealm,
        }),
{
}

} // verus!
