//! Identity and ephemeral session tokens.
//!
//! An identity token is the lowercase hex form of HMAC-SHA256 over the
//! normalized (trimmed, lower-cased) email, keyed by the server secret. An
//! ephemeral token is a random identifier behind a fixed prefix.

use vstd::prelude::*;
use vstd::utf8::*;

verus! {

broadcast use vstd::string::group_string_axioms;

/// What `str::trim` returns for a string.
pub uninterp spec fn trim_of(s: Seq<char>) -> Seq<char>;

/// What `str::to_lowercase` returns for a string.
pub uninterp spec fn lower_of(s: Seq<char>) -> Seq<char>;

/// HMAC-SHA256 of `msg` under `key`.
pub uninterp spec fn hmac_sha256_of(key: Seq<u8>, msg: Seq<u8>) -> Seq<u8>;

/// The lowercase hex digit of a value below sixteen.
pub open spec fn hex_digit(n: int) -> char {
    seq!['0', '1', '2', '3', '4', '5', '6', '7', '8', '9', 'a', 'b', 'c', 'd', 'e', 'f'][n]
}

/// Two lowercase hex digits per byte, high nibble first.
pub open spec fn hex_of(b: Seq<u8>) -> Seq<char>
    decreases b.len(),
{
    if b.len() == 0 {
        Seq::empty()
    } else {
        seq![hex_digit(b[0] as int / 16), hex_digit(b[0] as int % 16)] + hex_of(b.drop_first())
    }
}

/// The form of an email that identity tokens are computed from.
pub open spec fn normalized_email(email: Seq<char>) -> Seq<char> {
    lower_of(trim_of(email))
}

/// The identity token of an email under a server secret.
pub open spec fn identity_token_of(email: Seq<char>, secret: Seq<char>) -> Seq<char> {
    hex_of(hmac_sha256_of(encode_utf8(secret), encode_utf8(normalized_email(email))))
}

/// The prefix that marks a token as ephemeral.
pub open spec fn ephemeral_prefix() -> Seq<char> {
    seq!['W', 'M', 'T', 'P', '-']
}

pub open spec fn has_ephemeral_prefix(token: Seq<char>) -> bool {
    token.len() >= ephemeral_prefix().len() && token.subrange(0, ephemeral_prefix().len() as int)
        == ephemeral_prefix()
}

pub proof fn lemma_hex_len(b: Seq<u8>)
    ensures
        hex_of(b).len() == 2 * b.len(),
    decreases b.len(),
{
    if b.len() > 0 {
        lemma_hex_len(b.drop_first());
    }
}

/// Relies on `str::trim`: the string without leading and trailing whitespace.
#[verifier::external_body]
pub(crate) fn trim_str(s: &str) -> (r: &str)
    ensures
        r@ == trim_of(s@),
{
    s.trim()
}

/// Relies on `str::to_lowercase`: the lowercase form of the string.
#[verifier::external_body]
fn lowercase(s: &str) -> (r: String)
    ensures
        r@ == lower_of(s@),
{
    s.to_lowercase()
}

/// Relies on `hmac::Hmac<sha2::Sha256>` (`new_from_slice`, `update`,
/// `finalize`): the 32-byte HMAC-SHA256 tag of `msg` under `key`; a key of
/// any length is accepted.
#[verifier::external_body]
fn hmac_sha256(key: &[u8], msg: &[u8]) -> (r: Vec<u8>)
    ensures
        r@ == hmac_sha256_of(key@, msg@),
        r@.len() == 32,
{
    let mut mac = <hmac::Hmac<sha2::Sha256> as hmac::Mac>::new_from_slice(key).expect(
        "HMAC accepts a key of any length",
    );
    hmac::Mac::update(&mut mac, msg);
    hmac::Mac::finalize(mac).into_bytes().to_vec()
}

/// Relies on `hex::encode`: two lowercase hex digits per byte.
#[verifier::external_body]
fn hex_encode(b: &[u8]) -> (r: String)
    ensures
        r@ == hex_of(b@),
{
    hex::encode(b)
}

/// A lowercase hex digit.
pub open spec fn is_lower_hex(c: char) -> bool {
    ('0' <= c && c <= '9') || ('a' <= c && c <= 'f')
}

/// The hyphenated text of a UUID: 32 lowercase hex digits in groups of 8,
/// 4, 4, 4 and 12, joined by hyphens.
pub open spec fn uuid_text(s: Seq<char>) -> bool {
    &&& s.len() == 36
    &&& forall|i: int|
        0 <= i < 36 ==> if i == 8 || i == 13 || i == 18 || i == 23 {
            s[i] == '-'
        } else {
            is_lower_hex(s[i])
        }
}

/// Relies on `uuid::Uuid::new_v4` and its hyphenated lowercase text form: a
/// random identifier of 36 characters.
#[verifier::external_body]
fn random_uuid() -> (r: String)
    ensures
        uuid_text(r@),
{
    uuid::Uuid::new_v4().to_string()
}

/// The identity token of `email` under `server_secret`: the same normalized
/// email always gives the same 64-character token.
pub fn generate_identity_token(email: &str, server_secret: &str) -> (r: String)
    ensures
        r@ == identity_token_of(email@, server_secret@),
        r@.len() == 64,
{
    let trimmed = trim_str(email);
    let normalized = lowercase(trimmed);
    let tag = hmac_sha256(server_secret.as_bytes(), normalized.as_str().as_bytes());
    proof {
        lemma_hex_len(tag@);
    }
    hex_encode(tag.as_slice())
}

/// Equality of two strings that looks at every byte whenever the lengths
/// agree, so the time taken does not reveal where they differ.
pub fn constant_time_eq(a: &str, b: &str) -> (r: bool)
    ensures
        r == (a@ == b@),
{
    let x = a.as_bytes();
    let y = b.as_bytes();
    if x.len() != y.len() {
        proof {
            if a@ == b@ {
                assert(x@ == y@);
            }
        }
        return false;
    }
    let mut acc: u8 = 0;
    let mut i: usize = 0;
    assert(x@.subrange(0, 0) == y@.subrange(0, 0));
    while i < x.len()
        invariant
            x@.len() == y@.len(),
            i <= x@.len(),
            acc == 0 <==> x@.subrange(0, i as int) == y@.subrange(0, i as int),
        decreases x@.len() - i,
    {
        let xi: u8 = x[i];
        let yi: u8 = y[i];
        let next: u8 = acc | (xi ^ yi);
        proof {
            assert(next == 0 <==> (acc == 0 && xi == yi)) by (bit_vector)
                requires
                    next == acc | (xi ^ yi),
            ;
            assert(x@.subrange(0, i + 1) == x@.subrange(0, i as int).push(x@[i as int]));
            assert(y@.subrange(0, i + 1) == y@.subrange(0, i as int).push(y@[i as int]));
            if x@.subrange(0, i + 1) == y@.subrange(0, i + 1) {
                assert(x@.subrange(0, i as int) == x@.subrange(0, i + 1).subrange(0, i as int));
                assert(y@.subrange(0, i as int) == y@.subrange(0, i + 1).subrange(0, i as int));
                assert(x@[i as int] == x@.subrange(0, i + 1)[i as int]);
                assert(y@[i as int] == y@.subrange(0, i + 1)[i as int]);
            }
        }
        acc = next;
        i = i + 1;
    }
    proof {
        assert(x@.subrange(0, x@.len() as int) == x@);
        assert(y@.subrange(0, y@.len() as int) == y@);
        encode_utf8_decode_utf8(a@);
        encode_utf8_decode_utf8(b@);
    }
    acc == 0
}

/// Whether `token` is the identity token of `email` under `server_secret`.
pub fn verify_identity_token(token: &str, email: &str, server_secret: &str) -> (r: bool)
    ensures
        r == (token@ == identity_token_of(email@, server_secret@)),
{
    let expected = generate_identity_token(email, server_secret);
    constant_time_eq(expected.as_str(), token)
}

/// The ephemeral token built from a random identifier.
pub fn ephemeral_token_from(id: &str) -> (r: String)
    ensures
        r@ == ephemeral_prefix() + id@,
{
    let mut r = "WMTP-".to_string();
    proof {
        reveal_strlit("WMTP-");
        assert(r@ == ephemeral_prefix());
    }
    r.append(id);
    r
}

/// A fresh random ephemeral token.
pub fn generate_ephemeral_token() -> (r: String)
    ensures
        has_ephemeral_prefix(r@),
        r@.len() == ephemeral_prefix().len() + 36,
        uuid_text(r@.subrange(5, r@.len() as int)),
{
    let id = random_uuid();
    let r = ephemeral_token_from(id.as_str());
    assert(r@.subrange(5, r@.len() as int) == id@);
    assert(r@.subrange(0, 5) == ephemeral_prefix());
    r
}

/// Whether `token` carries the ephemeral prefix.
pub fn is_ephemeral_token(token: &str) -> (r: bool)
    ensures
        r == has_ephemeral_prefix(token@),
{
    let n = token.unicode_len();
    if n < 5 {
        return false;
    }
    let ok = token.get_char(0) == 'W' && token.get_char(1) == 'M' && token.get_char(2) == 'T'
        && token.get_char(3) == 'P' && token.get_char(4) == '-';
    proof {
        if ok {
            assert(token@.subrange(0, 5) == ephemeral_prefix());
        } else if has_ephemeral_prefix(token@) {
            assert(token@.subrange(0, 5)[0] == 'W');
            assert(token@.subrange(0, 5)[1] == 'M');
            assert(token@.subrange(0, 5)[2] == 'T');
            assert(token@.subrange(0, 5)[3] == 'P');
            assert(token@.subrange(0, 5)[4] == '-');
        }
    }
    ok
}

/// An identity token depends on the email only through its normalized
/// form: emails that differ in case or surrounding whitespace, and
/// repeated calls with one email, give the same token.
pub proof fn lemma_identity_token_stable(e1: Seq<char>, e2: Seq<char>, secret: Seq<char>)
    requires
        normalized_email(e1) == normalized_email(e2),
    ensures
        identity_token_of(e1, secret) == identity_token_of(e2, secret),
{
}

/// An ephemeral token built from any identifier carries the prefix.
pub proof fn lemma_ephemeral_recognized(id: Seq<char>)
    ensures
        has_ephemeral_prefix(ephemeral_prefix() + id),
{
    assert((ephemeral_prefix() + id).subrange(0, 5) =~= ephemeral_prefix());
}

/// No identity token carries the ephemeral prefix: it consists of hex
/// digits only.
pub proof fn lemma_identity_not_ephemeral(email: Seq<char>, secret: Seq<char>)
    ensures
        !has_ephemeral_prefix(identity_token_of(email, secret)),
{
    let b = hmac_sha256_of(encode_utf8(secret), encode_utf8(normalized_email(email)));
    let t = hex_of(b);
    if has_ephemeral_prefix(t) {
        assert(b.len() > 0);
        assert(t[0] == hex_digit(b[0] as int / 16));
        assert(t.subrange(0, 5)[0] == t[0]);
        assert(t.subrange(0, 5)[0] == 'W');
    }
}

} // verus!
