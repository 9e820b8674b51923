//! Descriptions that an environment carries about itself.

use crate::envs::registration::{label, labelled};
use vstd::prelude::*;
use vstd::string::*;

verus! {

/// What an environment says about how it can be rendered.
#[derive(Debug, Clone)]
pub struct Metadata {
    pub render_modes: Vec<String>,
    pub render_fps: Option<u32>,
}

/// The text that names an environment: the name of its type, followed by
/// the id it is registered under, in angle brackets, where it has one.
pub open spec fn described(kind: Seq<char>, id: Option<Seq<char>>) -> Seq<char> {
    match id {
        Some(id) => labelled(kind, id),
        None => kind,
    }
}

/// The text that names an environment: the name of its type, followed by
/// the id it is registered under, in angle brackets, where it has one.
pub fn describe(kind: &str, id: Option<&str>) -> (r: String)
    ensures
        r@ == described(
            kind@,
            match id {
                Some(id) => Some(id@),
                None => None,
            },
        ),
{
    match id {
        Some(id) => label(kind, id),
        None => String::from_str(kind),
    }
}

} // verus!
