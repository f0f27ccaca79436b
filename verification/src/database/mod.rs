pub mod cache;
pub mod users;

use vstd::prelude::*;

use crate::text::{owned, push_str};

verus! {

/// The connection string of the game's database for a password.
pub open spec fn mongodb_uri_text(key: Seq<char>) -> Seq<char> {
    "mongodb+srv://waneexw:"@ + key + "@main.3thc3.mongodb.net/?retryWrites=true&w=majority&appName=main"@
}

/// The connection string of the game's database for a password.
pub fn mongodb_uri(key: &str) -> (u: String)
    ensures
        u@ == mongodb_uri_text(key@),
{
    let mut u = owned("mongodb+srv://waneexw:");
    push_str(&mut u, key);
    push_str(&mut u, "@main.3thc3.mongodb.net/?retryWrites=true&w=majority&appName=main");
    u
}

} // verus!
