//! What is recorded about a registered environment.

use vstd::prelude::*;
use vstd::string::*;

verus! {

/// A wrapper that is applied to an environment when it is made.
#[derive(Debug, Clone)]
pub struct WrapperSpec<WrapperSpecArgs> {
    pub name: String,
    pub entry_point: String,
    pub kwargs: Option<WrapperSpecArgs>,
}

/// The text that names a registered environment: the name of its type, then
/// its id in angle brackets.
pub open spec fn labelled(kind: Seq<char>, id: Seq<char>) -> Seq<char> {
    kind + seq!['<'] + id + seq!['>']
}

/// The text that names a registered environment: the name of its type, then
/// its id in angle brackets.
pub fn label(kind: &str, id: &str) -> (r: String)
    ensures
        r@ == labelled(kind@, id@),
{
    proof {
        reveal_strlit("<");
        reveal_strlit(">");
    }
    let mut r = String::from_str(kind);
    r.append("<");
    r.append(id);
    r.append(">");
    assert(r@ =~= labelled(kind@, id@));
    r
}

} // verus!
