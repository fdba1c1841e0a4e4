use vstd::prelude::*;

verus! {

/// The text `uuid` writes for the identifier `id` (its hyphenated form).
pub uninterp spec fn uuid_text(id: int) -> Seq<char>;

/// The identifier `uuid` reads from `text`, if `text` is a UUID in one of the forms it accepts.
pub uninterp spec fn uuid_parse(text: Seq<char>) -> Option<int>;

/// `uuid::Uuid::new_v4`: a random (version 4) identifier, as its 128-bit value. Which one
/// comes back is chance.
#[verifier::external_body]
pub(crate) fn new_random_id() -> (r: u128) {
    uuid::Uuid::new_v4().as_u128()
}

/// `uuid::Uuid`'s `to_string`: the hyphenated text of the identifier, which
/// `uuid::Uuid::parse_str` reads back to the same identifier.
#[verifier::external_body]
pub(crate) fn id_to_text(id: u128) -> (r: String)
    ensures
        r@ == uuid_text(id as int),
        uuid_parse(r@) == Some(id as int),
{
    uuid::Uuid::from_u128(id).to_string()
}

/// `uuid::Uuid::parse_str`: the identifier written in `text`, if it is a UUID.
#[verifier::external_body]
pub(crate) fn parse_id(text: &str) -> (r: Option<u128>)
    ensures
        r is Some <==> uuid_parse(text@) is Some,
        r matches Some(v) ==> uuid_parse(text@) == Some(v as int),
{
    match uuid::Uuid::parse_str(text) {
        Ok(id) => Some(id.as_u128()),
        Err(_) => None,
    }
}

} // verus!
