//! A responder that answers every request with the same page.
use vstd::prelude::*;

verus! {

/// Answers every request with `hello world`.
#[derive(Clone, Copy, Debug)]
pub struct ResponseHtml {}

/// The body of every response: `hello world`.
pub open spec fn hello_body() -> Seq<char> {
    seq!['h', 'e', 'l', 'l', 'o', ' ', 'w', 'o', 'r', 'l', 'd']
}

impl ResponseHtml {
    /// The body of the response to any request.
    pub fn body(&self) -> (r: String)
        ensures
            r@ == hello_body(),
    {
        proof {
            reveal_strlit("hello world");
            assert("hello world"@ =~= hello_body());
        }
        String::from_str("hello world")
    }
}

} // verus!
