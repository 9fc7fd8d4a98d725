//! What the store keeps of users and tags, and how its rows are read.

use crate::bot::{is_role, known_role};
use crate::services::UserId;
use crate::text::{extend_chars, string_of, to_chars};
use vstd::prelude::*;

verus! {

/// The number of a user in the store.
pub type Uid = i64;

/// The number of a server in the store.
pub type Sid = i64;

/// A user as the store knows them.
#[derive(Clone, Debug)]
pub struct User {
    pub uid: Uid,
    pub role: String,
    pub discord_id: Option<u64>,
}

impl User {
    /// The user's identifier on their chat service. Every user of the
    /// store came from a service, so a user without one is not asked.
    pub fn service_user_id(&self) -> (r: UserId)
        requires
            self.discord_id is Some,
        ensures
            r == UserId::Discord(self.discord_id.unwrap()),
    {
        match self.discord_id {
            Some(discord_id) => UserId::Discord(discord_id),
            None => UserId::Discord(0),
        }
    }
}

/// A tag: a text that a user keeps under a key on a server.
#[derive(Clone, Debug)]
pub struct Tag {
    pub key: String,
    pub uid: Uid,
    pub sid: Sid,
    pub transfer_uid: Option<Uid>,
    pub value: String,
}

/// The number whose eight bytes, lowest first, `bytes` begins with.
pub open spec fn le_u64(bytes: Seq<u8>) -> nat
    recommends
        bytes.len() >= 8,
{
    (bytes[0] as nat) + (bytes[1] as nat) * 0x100 + (bytes[2] as nat) * 0x1_0000 + (bytes[3] as nat)
        * 0x100_0000 + (bytes[4] as nat) * 0x1_0000_0000 + (bytes[5] as nat) * 0x100_0000_0000 + (
    bytes[6] as nat) * 0x1_0000_0000_0000 + (bytes[7] as nat) * 0x100_0000_0000_0000
}

/// Reads a number from its eight bytes, lowest first.
pub fn u64_from_le(bytes: &Vec<u8>) -> (r: u64)
    requires
        bytes@.len() >= 8,
    ensures
        r == le_u64(bytes@),
{
    let b0 = bytes[0] as u64;
    let b1 = bytes[1] as u64;
    let b2 = bytes[2] as u64;
    let b3 = bytes[3] as u64;
    let b4 = bytes[4] as u64;
    let b5 = bytes[5] as u64;
    let b6 = bytes[6] as u64;
    let b7 = bytes[7] as u64;
    b0 + b1 * 0x100 + b2 * 0x1_0000 + b3 * 0x100_0000 + b4 * 0x1_0000_0000 + b5 * 0x100_0000_0000
        + b6 * 0x1_0000_0000_0000 + b7 * 0x100_0000_0000_0000
}

/// Writes a number as its eight bytes, lowest first.
pub fn u64_to_le(n: u64) -> (r: Vec<u8>)
    ensures
        r@.len() == 8,
        le_u64(r@) == n,
{
    let mut out: Vec<u8> = Vec::new();
    let b0: u64 = n % 0x100;
    let r1: u64 = n / 0x100;
    let b1: u64 = r1 % 0x100;
    let r2: u64 = r1 / 0x100;
    let b2: u64 = r2 % 0x100;
    let r3: u64 = r2 / 0x100;
    let b3: u64 = r3 % 0x100;
    let r4: u64 = r3 / 0x100;
    let b4: u64 = r4 % 0x100;
    let r5: u64 = r4 / 0x100;
    let b5: u64 = r5 % 0x100;
    let r6: u64 = r5 / 0x100;
    let b6: u64 = r6 % 0x100;
    let b7: u64 = r6 / 0x100;
    assert(n == b0 + 0x100 * r1);
    assert(r1 == b1 + 0x100 * r2);
    assert(r2 == b2 + 0x100 * r3);
    assert(r3 == b3 + 0x100 * r4);
    assert(r4 == b4 + 0x100 * r5);
    assert(r5 == b5 + 0x100 * r6);
    assert(r6 == b6 + 0x100 * b7);
    assert(b7 < 0x100);
    out.push(b0 as u8);
    out.push(b1 as u8);
    out.push(b2 as u8);
    out.push(b3 as u8);
    out.push(b4 as u8);
    out.push(b5 as u8);
    out.push(b6 as u8);
    out.push(b7 as u8);
    out
}

/// The role that a row stands for: the one it names, or that of a guest
/// where it names none or one that does not exist.
pub open spec fn role_of_row(role: Option<Seq<char>>) -> Seq<char> {
    match role {
        Some(r) => if known_role(r) {
            r
        } else {
            "guest"@
        },
        None => "guest"@,
    }
}

/// Makes a user of a row of the store.
pub fn user_from_row(uid: Uid, role: Option<String>, discord_id: Option<Vec<u8>>) -> (r: User)
    requires
        discord_id matches Some(bytes) ==> bytes@.len() >= 8,
    ensures
        r.uid == uid,
        r.role@ == role_of_row(
            match role {
                Some(s) => Some(s@),
                None => None,
            },
        ),
        r.discord_id == match discord_id {
            Some(bytes) => Some(le_u64(bytes@) as u64),
            None => None,
        },
{
    let role = match role {
        Some(r) => if is_role(r.as_str()) {
            r
        } else {
            string_of(&to_chars("guest"))
        },
        None => string_of(&to_chars("guest")),
    };
    let discord_id = match discord_id {
        Some(bytes) => Some(u64_from_le(&bytes)),
        None => None,
    };
    User { uid, role, discord_id }
}

/// A word that names no role.
#[derive(Clone, Debug)]
pub struct UnknownRole {
    pub role: String,
}

impl UnknownRole {
    /// The error in words.
    pub fn message(&self) -> (r: String)
        ensures
            r@ == ("unknown role \""@ + self.role@).push('"'),
    {
        let mut out = to_chars("unknown role \"");
        let role = to_chars(self.role.as_str());
        extend_chars(&mut out, &role);
        out.push('"');
        string_of(&out)
    }
}

/// Whether a role may be given to a user: only one that exists.
pub fn check_role(role: &str) -> (r: Result<(), UnknownRole>)
    ensures
        r is Ok == known_role(role@),
        r matches Err(e) ==> e.role@ == role@,
{
    if is_role(role) {
        Ok(())
    } else {
        Err(UnknownRole { role: string_of(&to_chars(role)) })
    }
}

} // verus!
