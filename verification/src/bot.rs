//! The bot itself: the roles that its users can hold.

pub mod db;

use crate::text::str_eq;
use vstd::prelude::*;

verus! {

/// Whether a word names a role: `guest`, `trusted`, `admin` or `root`.
pub open spec fn known_role(role: Seq<char>) -> bool {
    role == "guest"@ || role == "trusted"@ || role == "admin"@ || role == "root"@
}

/// Whether a word names a role above that of a guest.
pub open spec fn trusted_role(role: Seq<char>) -> bool {
    role == "trusted"@ || role == "admin"@ || role == "root"@
}

/// The role of a user of whom nothing else is known.
pub const DEFAULT_ROLE: &'static str = "guest";

/// The roles, from the lowest to the highest.
pub fn roles() -> (r: Vec<&'static str>)
    ensures
        r@.len() == 4,
        r@[0]@ == "guest"@,
        r@[1]@ == "trusted"@,
        r@[2]@ == "admin"@,
        r@[3]@ == "root"@,
{
    let mut r: Vec<&'static str> = Vec::new();
    r.push("guest");
    r.push("trusted");
    r.push("admin");
    r.push("root");
    r
}

/// Whether a word names a role.
pub fn is_role(role: &str) -> (r: bool)
    ensures
        r == known_role(role@),
{
    str_eq(role, "guest") || str_eq(role, "trusted") || str_eq(role, "admin") || str_eq(
        role,
        "root",
    )
}

/// Whether a role is above that of a guest.
pub fn is_trusted_role(role: &str) -> (r: bool)
    ensures
        r == trusted_role(role@),
{
    str_eq(role, "trusted") || str_eq(role, "admin") || str_eq(role, "root")
}

} // verus!
