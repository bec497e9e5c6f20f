//! The companion sign-up stream: the user record produced when an account
//! is created.
//!
//! Text travels as UTF-8 bytes. The sign-up service only produces onto its
//! topic, so the library carries the record's encoder; nothing in the
//! pipeline reads users back.

use vstd::prelude::*;
use crate::wire::{varint_bytes, varint_write, zigzag, zigzag_encode};

verus! {

/// What a sign-up submission carries.
#[derive(Debug)]
pub struct UserCreationRequest {
    pub username: Vec<u8>,
    pub first_name: Vec<u8>,
    pub last_name: Vec<u8>,
    pub password: Vec<u8>,
}

/// The user record published onto the sign-up topic.
#[derive(Debug)]
pub struct User {
    pub id: u32,
    pub username: Vec<u8>,
    pub first_name: Vec<u8>,
    pub last_name: Vec<u8>,
    pub password: Vec<u8>,
}

/// Wire image of one text field: its byte length as a zig-zag varint, then
/// its bytes.
pub open spec fn text_bytes(s: Seq<u8>) -> Seq<u8> {
    varint_bytes(zigzag(s.len() as int)) + s
}

/// Wire image of a user record: its fields in declaration order.
pub open spec fn user_bytes(u: User) -> Seq<u8> {
    varint_bytes(zigzag(u.id as int)) + text_bytes(u.username@) + text_bytes(u.first_name@)
        + text_bytes(u.last_name@) + text_bytes(u.password@)
}

/// Builds the user record a sign-up submission turns into; the service
/// issues every account the one identifier it has to give.
pub fn user_from_request(req: UserCreationRequest) -> (u: User)
    ensures
        u.id == 1,
        u.username@ == req.username@,
        u.first_name@ == req.first_name@,
        u.last_name@ == req.last_name@,
        u.password@ == req.password@,
{
    User {
        id: 1,
        username: req.username,
        first_name: req.first_name,
        last_name: req.last_name,
        password: req.password,
    }
}

fn write_text(out: &mut Vec<u8>, s: &Vec<u8>)
    requires
        s@.len() <= i64::MAX,
    ensures
        final(out)@ == old(out)@ + text_bytes(s@),
{
    varint_write(out, zigzag_encode(s.len() as i64));
    let ghost mid = out@;
    let mut i: usize = 0;
    while i < s.len()
        invariant
            i <= s.len(),
            out@ == mid + s@.subrange(0, i as int),
        decreases s.len() - i,
    {
        out.push(s[i]);
        proof {
            assert(out@ =~= mid + s@.subrange(0, i + 1 as int));
        }
        i = i + 1;
    }
    proof {
        assert(s@.subrange(0, s@.len() as int) =~= s@);
        assert(final(out)@ =~= old(out)@ + text_bytes(s@));
    }
}

/// Serializes a user record into its binary image. Field lengths are bound
/// by the wire's 64-bit length prefix.
pub fn encode_user(u: &User) -> (out: Vec<u8>)
    requires
        u.username@.len() <= i64::MAX,
        u.first_name@.len() <= i64::MAX,
        u.last_name@.len() <= i64::MAX,
        u.password@.len() <= i64::MAX,
    ensures
        out@ == user_bytes(*u),
{
    let mut out: Vec<u8> = Vec::new();
    varint_write(&mut out, zigzag_encode(u.id as i64));
    write_text(&mut out, &u.username);
    write_text(&mut out, &u.first_name);
    write_text(&mut out, &u.last_name);
    write_text(&mut out, &u.password);
    proof {
        assert(out@ =~= user_bytes(*u));
    }
    out
}

} // verus!
