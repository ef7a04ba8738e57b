//! The optional display name that every wrapper type carries.
use vstd::prelude::*;

verus! {

/// The characters of an optional name.
pub open spec fn name_view(name: Option<String>) -> Option<Seq<char>> {
    match name {
        Some(s) => Some(s@),
        None => None,
    }
}

/// Copies an optional name.
pub fn clone_name(name: &Option<String>) -> (res: Option<String>)
    ensures
        res == *name,
{
    match name {
        Some(s) => Some(s.clone()),
        None => None,
    }
}

/// Borrows the characters of an optional name.
pub fn name_str(name: &Option<String>) -> (res: Option<&str>)
    ensures
        match res {
            Some(s) => name_view(*name) == Some(s@),
            None => name_view(*name) is None,
        },
{
    match name {
        Some(s) => Some(s.as_str()),
        None => None,
    }
}

/// An owned copy of `name`.
pub fn owned_name(name: &str) -> (res: Option<String>)
    ensures
        name_view(res) == Some(name@),
{
    Some(name.to_owned())
}

} // verus!
