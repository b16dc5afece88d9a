//! The durable value codec: a compact binary form of a credential.
//!
//! The durable backend stores each credential under its raw 16-byte account
//! key; the value is the encoding below. Layout, little-endian throughout:
//! the 16-byte account id, the 8-byte validity period, one flag byte and an
//! 8-byte biased deadline (zero when the flag says no deadline), then the
//! three strings (access token, refresh token, account name), each as an
//! 8-byte byte-length followed by its UTF-8 bytes. Decoding accepts exactly
//! the encodings of well-formed credentials and gives back the encoded
//! value.

use vstd::prelude::*;
use vstd::bytes::{lemma_auto_spec_u64_to_from_le_bytes, lemma_auto_spec_u128_to_from_le_bytes,
    spec_u128_from_le_bytes, spec_u128_to_le_bytes, spec_u64_from_le_bytes, spec_u64_to_le_bytes,
    u128_from_le_bytes, u128_to_le_bytes, u64_from_le_bytes, u64_to_le_bytes};
use vstd::slice::{slice_subrange, slice_to_vec};
use vstd::string::StrSliceExecFns;
use vstd::utf8::{decode_utf8, encode_utf8, encode_utf8_decode_utf8, encode_utf8_valid_utf8,
    valid_utf8};

use crate::auth::{Auth, AuthAbs, MAX_EXPIRES_SECS, MAX_REFRESH_AT_MS, MIN_REFRESH_AT_MS};
use crate::ids::AccountId;
use crate::text::bytes_to_string;

verus! {

/// Bias added to a deadline before it is stored as an unsigned field; the
/// well-formed deadline range lies strictly inside `(0, u64::MAX)` once
/// biased.
pub const REFRESH_AT_BIAS: i64 = 4_611_686_018_427_387_904;

/// One length-prefixed string: 8 bytes of UTF-8 byte-length, then the
/// bytes.
pub open spec fn spec_encode_string(s: Seq<char>) -> Seq<u8> {
    spec_u64_to_le_bytes(encode_utf8(s).len() as u64) + encode_utf8(s)
}

/// The flag byte and biased deadline field of a credential's deadline.
pub open spec fn spec_encode_deadline(refresh_at: Option<i64>) -> Seq<u8> {
    match refresh_at {
        None => seq![0u8] + spec_u64_to_le_bytes(0u64),
        Some(t) => seq![1u8] + spec_u64_to_le_bytes(((t + REFRESH_AT_BIAS) as u64)),
    }
}

/// The encoding of a credential.
pub open spec fn spec_encode_auth(v: AuthAbs) -> Seq<u8> {
    spec_u128_to_le_bytes(v.sub) + spec_u64_to_le_bytes(v.expires_in) + spec_encode_deadline(
        v.refresh_at,
    ) + spec_encode_string(v.access_token) + spec_encode_string(v.refresh_token)
        + spec_encode_string(v.account_name)
}

/// The bounds under which a credential's image has exactly one encoding:
/// the bounds of [`Auth::wf`] plus byte-lengths that fit the length fields.
pub open spec fn spec_abs_wf(v: AuthAbs) -> bool {
    &&& v.expires_in <= MAX_EXPIRES_SECS
    &&& match v.refresh_at {
        None => true,
        Some(t) => MIN_REFRESH_AT_MS <= t <= MAX_REFRESH_AT_MS,
    }
    &&& encode_utf8(v.access_token).len() < 0x1_0000_0000_0000_0000
    &&& encode_utf8(v.refresh_token).len() < 0x1_0000_0000_0000_0000
    &&& encode_utf8(v.account_name).len() < 0x1_0000_0000_0000_0000
}

/// Reads one length-prefixed string at offset `p`: the decoded characters
/// and the offset just past them, or `None` on a short buffer or bytes that
/// are not UTF-8.
pub open spec fn spec_take_string(b: Seq<u8>, p: int) -> Option<(Seq<char>, int)> {
    if p + 8 > b.len() {
        None
    } else {
        let n = spec_u64_from_le_bytes(b.subrange(p, p + 8)) as int;
        if p + 8 + n > b.len() {
            None
        } else {
            let body = b.subrange(p + 8, p + 8 + n);
            if valid_utf8(body) {
                Some((decode_utf8(body), p + 8 + n))
            } else {
                None
            }
        }
    }
}

/// Reads the deadline field: `None` on a malformed field, else the decoded
/// optional deadline. Only the canonical forms are accepted: a zero field
/// behind flag 0, or a biased well-formed deadline behind flag 1.
pub open spec fn spec_decode_deadline(flag: u8, dv: u64) -> Option<Option<i64>> {
    if flag == 0 && dv == 0 {
        Some(None)
    } else if flag == 1 && MIN_REFRESH_AT_MS + REFRESH_AT_BIAS <= dv <= MAX_REFRESH_AT_MS
        + REFRESH_AT_BIAS {
        Some(Some((dv - REFRESH_AT_BIAS) as i64))
    } else {
        None
    }
}

/// The decoding of a buffer: the credential image it encodes, or `None`
/// when it is not exactly the encoding of a well-formed credential.
pub open spec fn spec_decode_auth(b: Seq<u8>) -> Option<AuthAbs> {
    if b.len() < 33 {
        None
    } else {
        let sub = spec_u128_from_le_bytes(b.subrange(0, 16));
        let expires_in = spec_u64_from_le_bytes(b.subrange(16, 24));
        let dv = spec_u64_from_le_bytes(b.subrange(25, 33));
        if expires_in > MAX_EXPIRES_SECS {
            None
        } else {
            match spec_decode_deadline(b[24], dv) {
                None => None,
                Some(refresh_at) => match spec_take_string(b, 33) {
                    None => None,
                    Some((access_token, p1)) => match spec_take_string(b, p1) {
                        None => None,
                        Some((refresh_token, p2)) => match spec_take_string(b, p2) {
                            None => None,
                            Some((account_name, p3)) => if p3 == b.len() {
                                Some(
                                    AuthAbs {
                                        access_token,
                                        account_name,
                                        expires_in,
                                        refresh_at,
                                        refresh_token,
                                        sub,
                                    },
                                )
                            } else {
                                None
                            },
                        },
                    },
                },
            }
        }
    }
}

/// Appends one length-prefixed string to the buffer.
fn push_string(out: &mut Vec<u8>, s: &str)
    ensures
        final(out)@ == old(out)@ + spec_encode_string(s@),
        encode_utf8(s@).len() < 0x1_0000_0000_0000_0000,
{
    let mut body = s.as_bytes_vec();
    let mut len_bytes = u64_to_le_bytes(body.len() as u64);
    out.append(&mut len_bytes);
    out.append(&mut body);
}

/// Encodes a credential into the durable value form.
pub fn encode_auth(a: &Auth) -> (r: Vec<u8>)
    requires
        a.wf(),
    ensures
        r@ == spec_encode_auth(a@),
        spec_abs_wf(a@),
{
    let mut out = u128_to_le_bytes(a.sub.0);
    let mut expires = u64_to_le_bytes(a.expires_in);
    out.append(&mut expires);
    let ghost after_expires = out@;
    match a.refresh_at {
        None => {
            out.push(0u8);
            let mut zero = u64_to_le_bytes(0u64);
            out.append(&mut zero);
        },
        Some(t) => {
            out.push(1u8);
            let mut biased = u64_to_le_bytes((t + REFRESH_AT_BIAS) as u64);
            out.append(&mut biased);
        },
    }
    proof {
        assert(out@ =~= after_expires + spec_encode_deadline(a.refresh_at));
    }
    push_string(&mut out, self_str(&a.access_token));
    push_string(&mut out, self_str(&a.refresh_token));
    push_string(&mut out, self_str(&a.account_name));
    proof {
        assert(out@ =~= spec_encode_auth(a@));
    }
    out
}

/// A `&str` view of a `String`; the characters are the same.
fn self_str(s: &String) -> (r: &str)
    ensures
        r@ == s@,
{
    s.as_str()
}

/// Reads one length-prefixed string at offset `p`, as
/// [`spec_take_string`] describes.
fn take_string(b: &[u8], p: usize) -> (r: Option<(String, usize)>)
    requires
        p <= b@.len(),
    ensures
        match r {
            Some((s, q)) => spec_take_string(b@, p as int) == Some((s@, q as int)) && p < q
                <= b@.len(),
            None => spec_take_string(b@, p as int) is None,
        },
{
    if b.len() - p < 8 {
        return None;
    }
    let n64 = u64_from_le_bytes(slice_subrange(b, p, p + 8));
    if n64 > (b.len() - p - 8) as u64 {
        return None;
    }
    let n = n64 as usize;
    let body = slice_to_vec(slice_subrange(b, p + 8, p + 8 + n));
    match bytes_to_string(body) {
        Some(s) => Some((s, p + 8 + n)),
        None => None,
    }
}

/// Decodes a durable value back into a credential: exactly the encodings of
/// well-formed credentials are accepted.
pub fn decode_auth(b: &[u8]) -> (r: Option<Auth>)
    ensures
        match r {
            Some(a) => spec_decode_auth(b@) == Some(a@) && a.wf(),
            None => spec_decode_auth(b@) is None,
        },
{
    if b.len() < 33 {
        return None;
    }
    let sub = u128_from_le_bytes(slice_subrange(b, 0, 16));
    let expires_in = u64_from_le_bytes(slice_subrange(b, 16, 24));
    let flag = b[24];
    let dv = u64_from_le_bytes(slice_subrange(b, 25, 33));
    if expires_in > MAX_EXPIRES_SECS {
        return None;
    }
    let lo = (MIN_REFRESH_AT_MS + REFRESH_AT_BIAS) as u64;
    let hi = (MAX_REFRESH_AT_MS + REFRESH_AT_BIAS) as u64;
    let refresh_at: Option<i64> = if flag == 0 && dv == 0 {
        None
    } else if flag == 1 && lo <= dv && dv <= hi {
        Some((dv as i64) - REFRESH_AT_BIAS)
    } else {
        return None;
    };
    proof {
        assert(spec_decode_deadline(b@[24], dv) == Some(refresh_at));
    }
    let (access_token, p1) = match take_string(b, 33) {
        Some(x) => x,
        None => {
            return None;
        },
    };
    let (refresh_token, p2) = match take_string(b, p1) {
        Some(x) => x,
        None => {
            return None;
        },
    };
    let (account_name, p3) = match take_string(b, p2) {
        Some(x) => x,
        None => {
            return None;
        },
    };
    if p3 != b.len() {
        return None;
    }
    Some(
        Auth {
            access_token,
            account_name,
            expires_in,
            refresh_at,
            refresh_token,
            sub: AccountId(sub),
        },
    )
}

/// Encoding then decoding a well-formed credential image gives it back
/// unchanged.
pub proof fn lemma_codec_round_trip(v: AuthAbs)
    requires
        spec_abs_wf(v),
    ensures
        spec_decode_auth(spec_encode_auth(v)) == Some(v),
{
    lemma_auto_spec_u64_to_from_le_bytes();
    lemma_auto_spec_u128_to_from_le_bytes();
    broadcast use encode_utf8_valid_utf8;
    broadcast use encode_utf8_decode_utf8;

    let b = spec_encode_auth(v);
    let head = spec_u128_to_le_bytes(v.sub) + spec_u64_to_le_bytes(v.expires_in)
        + spec_encode_deadline(v.refresh_at);
    let s1 = spec_encode_string(v.access_token);
    let s2 = spec_encode_string(v.refresh_token);
    let s3 = spec_encode_string(v.account_name);
    let n1 = encode_utf8(v.access_token).len() as int;
    let n2 = encode_utf8(v.refresh_token).len() as int;
    let n3 = encode_utf8(v.account_name).len() as int;
    assert(head.len() == 33);
    assert(b =~= head + s1 + s2 + s3);
    assert(b.len() == 33 + 8 + n1 + 8 + n2 + 8 + n3);

    assert(b.subrange(0, 16) =~= spec_u128_to_le_bytes(v.sub));
    assert(b.subrange(16, 24) =~= spec_u64_to_le_bytes(v.expires_in));
    assert(b.subrange(25, 33) =~= spec_encode_deadline(v.refresh_at).subrange(1, 9));
    match v.refresh_at {
        None => {
            assert(spec_encode_deadline(v.refresh_at).subrange(1, 9) =~= spec_u64_to_le_bytes(
                0u64,
            ));
            assert(b[24] == 0u8);
        },
        Some(t) => {
            assert(spec_encode_deadline(v.refresh_at).subrange(1, 9) =~= spec_u64_to_le_bytes(
                ((t + REFRESH_AT_BIAS) as u64),
            ));
            assert(b[24] == 1u8);
            assert(spec_decode_deadline(b[24], spec_u64_from_le_bytes(b.subrange(25, 33)))
                == Some(v.refresh_at));
        },
    }

    let p1 = 33 + 8 + n1;
    let p2 = p1 + 8 + n2;
    let p3 = p2 + 8 + n3;
    assert(b.subrange(33, p1) =~= s1);
    assert(b.subrange(p1, p2) =~= s2);
    assert(b.subrange(p2, p3) =~= s3);
    lemma_take_string_at(b, 33, v.access_token);
    lemma_take_string_at(b, p1, v.refresh_token);
    lemma_take_string_at(b, p2, v.account_name);
}

/// Reading a length-prefixed string back from where it was written yields
/// the written characters.
proof fn lemma_take_string_at(b: Seq<u8>, p: int, s: Seq<char>)
    requires
        0 <= p,
        p + 8 + encode_utf8(s).len() <= b.len(),
        b.subrange(p, p + 8 + encode_utf8(s).len()) == spec_encode_string(s),
        encode_utf8(s).len() < 0x1_0000_0000_0000_0000,
    ensures
        spec_take_string(b, p) == Some((s, p + 8 + encode_utf8(s).len())),
{
    lemma_auto_spec_u64_to_from_le_bytes();
    broadcast use encode_utf8_valid_utf8;
    broadcast use encode_utf8_decode_utf8;

    let n = encode_utf8(s).len() as int;
    let piece = spec_encode_string(s);
    assert(piece.len() == 8 + n);
    assert(b.subrange(p, p + 8) =~= piece.subrange(0, 8));
    assert(piece.subrange(0, 8) =~= spec_u64_to_le_bytes(n as u64));
    assert(spec_u64_from_le_bytes(b.subrange(p, p + 8)) == n as u64);
    assert(b.subrange(p + 8, p + 8 + n) =~= piece.subrange(8, 8 + n));
    assert(piece.subrange(8, 8 + n) =~= encode_utf8(s));
    assert(valid_utf8(encode_utf8(s)));
    assert(decode_utf8(encode_utf8(s)) == s);
}

} // verus!
