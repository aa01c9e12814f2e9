//! The keys under which support requests are kept: the e-mail address of the
//! user, with its length before it, and the identifier of the request.

use crate::text::text_of_bytes;
use vstd::prelude::*;
use vstd::utf8::{decode_utf8, encode_utf8, valid_utf8};

verus! {

/// The two bytes of a length, the high byte first. A length beyond 65535
/// counts from zero again.
pub open spec fn length_bytes(len: nat) -> Seq<u8> {
    seq![((len % 65536) / 256) as u8, (len % 256) as u8]
}

/// The start of the keys of a user: the length of the address in bytes, then
/// the bytes of the address.
pub open spec fn email_prefix(email: Seq<char>) -> Seq<u8> {
    length_bytes(encode_utf8(email).len()) + encode_utf8(email)
}

/// The key of a request: the start of the keys of its user, then the bytes of
/// its identifier.
pub open spec fn composite_key(email: Seq<char>, uid: Seq<char>) -> Seq<u8> {
    email_prefix(email) + encode_utf8(uid)
}

/// Why a key cannot be read.
#[derive(Debug, PartialEq, Eq)]
pub enum KeyError {
    /// The key is too short to hold a length.
    MissingLength,
    /// The key is shorter than its length says.
    MissingEmail,
    /// The bytes of the address are no text.
    EmailNotText,
    /// The bytes of the identifier are no text.
    UidNotText,
}

/// What a key holds: the address and the identifier, or why it holds none.
pub open spec fn key_parts(key: Seq<u8>) -> Result<(Seq<char>, Seq<char>), KeyError> {
    if key.len() < 2 {
        Err(KeyError::MissingLength)
    } else {
        let len = key[0] as int * 256 + key[1] as int;
        if key.len() < 2 + len {
            Err(KeyError::MissingEmail)
        } else if !valid_utf8(key.subrange(2, 2 + len)) {
            Err(KeyError::EmailNotText)
        } else if !valid_utf8(key.subrange(2 + len, key.len() as int)) {
            Err(KeyError::UidNotText)
        } else {
            Ok(
                (
                    decode_utf8(key.subrange(2, 2 + len)),
                    decode_utf8(key.subrange(2 + len, key.len() as int)),
                ),
            )
        }
    }
}

/// Appends bytes to bytes.
fn extend(out: &mut Vec<u8>, bytes: &[u8])
    ensures
        final(out)@ == old(out)@ + bytes@,
{
    let mut i: usize = 0;
    while i < bytes.len()
        invariant
            i <= bytes.len(),
            out@ == old(out)@ + bytes@.subrange(0, i as int),
        decreases bytes.len() - i,
    {
        out.push(bytes[i]);
        i += 1;
        assert(out@ =~= old(out)@ + bytes@.subrange(0, i as int));
    }
    assert(bytes@.subrange(0, bytes.len() as int) =~= bytes@);
}

/// The start of the keys of a user.
pub fn create_email_prefix(user_email: &str) -> (prefix: Vec<u8>)
    ensures
        prefix@ == email_prefix(user_email@),
{
    let bytes = user_email.as_bytes();
    let len: usize = bytes.len();
    let mut prefix: Vec<u8> = Vec::new();
    prefix.push(((len % 65536) / 256) as u8);
    prefix.push((len % 256) as u8);
    assert(prefix@ =~= length_bytes(len as nat));
    extend(&mut prefix, bytes);
    prefix
}

/// The key of the request `uid` of a user.
pub fn create_composite_key(user_email: &str, uid: &str) -> (key: Vec<u8>)
    ensures
        key@ == composite_key(user_email@, uid@),
{
    let mut key = create_email_prefix(user_email);
    extend(&mut key, uid.as_bytes());
    key
}

/// The bytes `bytes[from..to]`.
fn copy_range(bytes: &[u8], from: usize, to: usize) -> (part: Vec<u8>)
    requires
        from <= to <= bytes.len(),
    ensures
        part@ == bytes@.subrange(from as int, to as int),
{
    let mut part: Vec<u8> = Vec::new();
    let mut i: usize = from;
    while i < to
        invariant
            from <= i <= to <= bytes.len(),
            part@ == bytes@.subrange(from as int, i as int),
        decreases to - i,
    {
        part.push(bytes[i]);
        i += 1;
        assert(part@ =~= bytes@.subrange(from as int, i as int));
    }
    part
}

/// Whether a result is what a key holds.
pub open spec fn is_key_parts(r: Result<(String, String), KeyError>, key: Seq<u8>) -> bool {
    match key_parts(key) {
        Ok(parts) => r matches Ok(found) && found.0@ == parts.0 && found.1@ == parts.1,
        Err(error) => r == Err::<(String, String), KeyError>(error),
    }
}

/// Reads the address and the identifier out of a key.
pub fn deserialize_composite_key(key_bytes: &[u8]) -> (r: Result<(String, String), KeyError>)
    ensures
        is_key_parts(r, key_bytes@),
{
    let n: usize = key_bytes.len();
    if n < 2 {
        return Err(KeyError::MissingLength);
    }
    let len: usize = (key_bytes[0] as usize) * 256 + (key_bytes[1] as usize);
    if n - 2 < len {
        return Err(KeyError::MissingEmail);
    }
    let email = match text_of_bytes(copy_range(key_bytes, 2, 2 + len)) {
        Some(text) => text,
        None => {
            return Err(KeyError::EmailNotText);
        },
    };
    let uid = match text_of_bytes(copy_range(key_bytes, 2 + len, n)) {
        Some(text) => text,
        None => {
            return Err(KeyError::UidNotText);
        },
    };
    Ok((email, uid))
}

/// A key gives back the address and the identifier it was made of, as long
/// as the address takes no more than 65535 bytes.
pub proof fn law_key_round_trip(email: Seq<char>, uid: Seq<char>)
    requires
        encode_utf8(email).len() <= 65535,
    ensures
        key_parts(composite_key(email, uid)) == Ok::<(Seq<char>, Seq<char>), KeyError>(
            (email, uid),
        ),
{
    broadcast use vstd::utf8::encode_utf8_valid_utf8;
    broadcast use vstd::utf8::encode_utf8_decode_utf8;

    let e = encode_utf8(email);
    let u = encode_utf8(uid);
    let key = composite_key(email, uid);
    let len = e.len() as int;
    assert(key[0] as int * 256 + key[1] as int == len) by {
        assert(key[0] == ((e.len() % 65536) / 256) as u8);
        assert(key[1] == (e.len() % 256) as u8);
    }
    assert(key.subrange(2, 2 + len) =~= e);
    assert(key.subrange(2 + len, key.len() as int) =~= u);
}

/// The keys of a user all begin with the prefix of that user.
pub proof fn law_keys_share_the_prefix(email: Seq<char>, uid: Seq<char>)
    ensures
        composite_key(email, uid).subrange(0, email_prefix(email).len() as int) == email_prefix(
            email,
        ),
{
    assert(composite_key(email, uid).subrange(0, email_prefix(email).len() as int)
        =~= email_prefix(email));
}

} // verus!
