//! The lookup request sent to the catalog for one reference.
use crate::reference::Reference;
use crate::text::{decimal, push_decimal};
use vstd::prelude::*;

verus! {

/// The catalog's identifier of the game whose mods are checked.
pub const GAME_ID: u64 = 2475;

/// The lookup address for entries named `name_id` of the game, visible ones only.
pub open spec fn query_url(user_id: nat, name_id: Seq<char>) -> Seq<char> {
    "https://u-"@ + decimal(user_id) + ".modapi.io/v1/games/"@ + decimal(GAME_ID as nat)
        + "/mods?visible=1&name_id="@ + name_id
}

/// The address of the lookup of a reference's name, on behalf of `user_id`.
pub fn mods_query_url(user_id: u64, reference: &Reference) -> (r: String)
    ensures
        r@ == query_url(user_id as nat, reference.name_view()),
{
    let mut s = String::from_str("https://u-");
    push_decimal(&mut s, user_id);
    s.append(".modapi.io/v1/games/");
    push_decimal(&mut s, GAME_ID);
    s.append("/mods?visible=1&name_id=");
    s.append(reference.name_id());
    s
}

} // verus!
