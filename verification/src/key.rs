//! The encryption key: the lowercase hexadecimal MD5 digest of the password,
//! taken as 32 ASCII bytes, and the decisions that pick the password.

use crate::text::{trim, trim_spec};
use vstd::prelude::*;
use vstd::string::*;

verus! {

/// What `md5::compute` gives for the UTF-8 bytes of `text`: its 16-byte MD5
/// digest.
pub uninterp spec fn md5_digest(text: Seq<char>) -> Seq<u8>;

/// `md5::compute(text)`: the MD5 digest of the UTF-8 bytes of `text`.
/// Claimed: the digest named by `md5_digest`, which is 16 bytes long (the
/// crate's `Digest` wraps a `[u8; 16]`).
#[verifier::external_body]
fn md5_compute(text: &str) -> (digest: Vec<u8>)
    ensures
        digest@ == md5_digest(text@),
        digest@.len() == 16,
{
    md5::compute(text).0.to_vec()
}

/// The ASCII byte of the lowercase hexadecimal digit for `d` (below 16).
pub open spec fn hex_digit(d: int) -> u8 {
    if d < 10 {
        (48 + d) as u8
    } else {
        (87 + d) as u8
    }
}

/// Lowercase hexadecimal text of `bytes`, two digits per byte, as the
/// `Debug` and `LowerHex` formatting of an MD5 digest writes it.
pub open spec fn hex_lower(bytes: Seq<u8>) -> Seq<u8>
    decreases bytes.len(),
{
    if bytes.len() == 0 {
        Seq::empty()
    } else {
        hex_lower(bytes.drop_last()).push(hex_digit(bytes.last() as int / 16)).push(
            hex_digit(bytes.last() as int % 16),
        )
    }
}

proof fn lemma_hex_lower_len(bytes: Seq<u8>)
    ensures
        hex_lower(bytes).len() == 2 * bytes.len(),
    decreases bytes.len(),
{
    if bytes.len() > 0 {
        lemma_hex_lower_len(bytes.drop_last());
    }
}

/// Lowercase hexadecimal text puts two digits per byte, the high nibble
/// first, each the ASCII character of `0123456789abcdef` at that nibble.
pub proof fn lemma_hex_lower_digits(bytes: Seq<u8>)
    ensures
        hex_lower(bytes).len() == 2 * bytes.len(),
        forall|i: int|
            0 <= i < bytes.len() ==> hex_lower(bytes)[2 * i] == seq![
                48u8, 49, 50, 51, 52, 53, 54, 55, 56, 57, 97, 98, 99, 100, 101, 102,
            ][(#[trigger] bytes[i]) as int / 16] && hex_lower(bytes)[2 * i + 1] == seq![
                48u8, 49, 50, 51, 52, 53, 54, 55, 56, 57, 97, 98, 99, 100, 101, 102,
            ][bytes[i] as int % 16],
    decreases bytes.len(),
{
    lemma_hex_lower_len(bytes);
    let digits: Seq<u8> = seq![48u8, 49, 50, 51, 52, 53, 54, 55, 56, 57, 97, 98, 99, 100, 101, 102];
    assert forall|d: int| 0 <= d < 16 implies #[trigger] hex_digit(d) == digits[d] by {
    }
    if bytes.len() > 0 {
        let t = bytes.drop_last();
        lemma_hex_lower_digits(t);
        lemma_hex_lower_len(t);
        assert forall|i: int| 0 <= i < bytes.len() implies hex_lower(bytes)[2 * i] == digits[(
        #[trigger] bytes[i]) as int / 16] && hex_lower(bytes)[2 * i + 1] == digits[bytes[i] as int
            % 16] by {
            if i < t.len() {
                assert(t[i] == bytes[i]);
            }
            assert(hex_digit(bytes[i] as int / 16) == digits[bytes[i] as int / 16]);
            assert(hex_digit(bytes[i] as int % 16) == digits[bytes[i] as int % 16]);
        }
    }
}

fn hex_digit_byte(d: u8) -> (b: u8)
    requires
        d < 16,
    ensures
        b == hex_digit(d as int),
{
    if d < 10 {
        48 + d
    } else {
        87 + d
    }
}

/// Lowercase hexadecimal text of `bytes`, as ASCII bytes.
pub fn hex_lower_bytes(bytes: &Vec<u8>) -> (out: Vec<u8>)
    ensures
        out@ == hex_lower(bytes@),
        out@.len() == 2 * bytes@.len(),
{
    let mut out: Vec<u8> = Vec::new();
    let mut i: usize = 0;
    while i < bytes.len()
        invariant
            i <= bytes@.len(),
            out@ == hex_lower(bytes@.take(i as int)),
        decreases bytes@.len() - i,
    {
        let b = bytes[i];
        out.push(hex_digit_byte(b / 16));
        out.push(hex_digit_byte(b % 16));
        assert(bytes@.take(i + 1).drop_last() =~= bytes@.take(i as int));
        i = i + 1;
    }
    assert(bytes@.take(i as int) =~= bytes@);
    proof {
        lemma_hex_lower_len(bytes@);
    }
    out
}

/// The key that a password gives: the lowercase hexadecimal MD5 digest of
/// the password, as 32 ASCII bytes.
pub open spec fn key_for_password(password: Seq<char>) -> Seq<u8> {
    hex_lower(md5_digest(password))
}

/// The encryption key for `password`: the lowercase hexadecimal text of its
/// MD5 digest, taken as bytes. Every such key is 32 bytes long, the length
/// AES-256 takes.
pub fn derive_key(password: &str) -> (key: Vec<u8>)
    ensures
        key@ == key_for_password(password@),
        key@ == hex_lower(md5_digest(password@)),
        key@.len() == 32,
{
    let digest = md5_compute(password);
    hex_lower_bytes(&digest)
}

/// The key of a password is the lowercase hexadecimal text of the MD5
/// digest of the whole password, two ASCII digits per digest byte.
pub proof fn lemma_key_is_hex_of_digest(password: Seq<char>)
    ensures
        key_for_password(password) == hex_lower(md5_digest(password)),
        key_for_password(password).len() == 2 * md5_digest(password).len(),
{
    lemma_hex_lower_len(md5_digest(password));
}

/// Where the password comes from when a key is needed.
#[derive(PartialEq, Eq, Structural, Debug, Clone, Copy)]
pub enum PasswordSource {
    /// Use the saved password.
    Saved,
    /// Ask whether the saved password should be used.
    AskReuse,
    /// Ask for a new password, then save it.
    AskNew,
}

/// The source of the password: with no saved password a new one is asked
/// for; with one, it is used as it is at a plain start, and on a fresh
/// login the user is asked whether to use it.
pub fn password_source(has_saved: bool, fresh_login: bool) -> (source: PasswordSource)
    ensures
        !has_saved ==> source == PasswordSource::AskNew,
        has_saved && fresh_login ==> source == PasswordSource::AskReuse,
        has_saved && !fresh_login ==> source == PasswordSource::Saved,
{
    if !has_saved {
        PasswordSource::AskNew
    } else if fresh_login {
        PasswordSource::AskReuse
    } else {
        PasswordSource::Saved
    }
}

/// Whether a reply to "use saved password?" accepts: the reply, without
/// surrounding whitespace, is `y` or `Y`.
pub open spec fn accepts_reuse(reply: Seq<char>) -> bool {
    trim_spec(reply) == seq!['y'] || trim_spec(reply) == seq!['Y']
}

/// Whether the reply accepts the saved password: `y` or `Y`, surrounding
/// whitespace aside. Any other reply refuses it.
pub fn reply_accepts_reuse(reply: &str) -> (yes: bool)
    ensures
        yes == accepts_reuse(reply@),
        yes == (trim_spec(reply@) == seq!['y'] || trim_spec(reply@) == seq!['Y']),
{
    let t = trim(reply);
    let lower_y = String::from_str("y");
    let upper_y = String::from_str("Y");
    proof {
        reveal_strlit("y");
        reveal_strlit("Y");
    }
    assert(lower_y@ =~= seq!['y']);
    assert(upper_y@ =~= seq!['Y']);
    t == lower_y || t == upper_y
}

} // verus!
