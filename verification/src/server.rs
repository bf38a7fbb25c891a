//! The web server's route handlers — only their payloads; mounting them on
//! routes and serving HTTP is the embedding program's business.

use vstd::prelude::*;
use vstd::string::StringExecFns;
use crate::text::{dec_str, u8_to_dec};

verus! {

/// The text `hello` answers with for a visitor's name and age.
pub open spec fn greeting(name: Seq<char>, age: int) -> Seq<char> {
    ("Hello, ")@ + dec_str(age) + (" year old named ")@ + name + ("!")@
}

/// Greet a visitor by age and name.
pub fn hello(name: String, age: u8) -> (r: String)
    ensures
        r@ == greeting(name@, age as int),
{
    let mut s = String::from_str("Hello, ");
    let age_str = u8_to_dec(age);
    s.append(age_str.as_str());
    s.append(" year old named ");
    s.append(name.as_str());
    s.append("!");
    s
}

/// The Twitter sign-in endpoint; it has nothing to answer yet.
pub fn auth() {
}

/// The landing page's body.
pub fn demo() -> (r: &'static str)
    ensures
        r@ == ("Hi")@,
{
    "Hi"
}

} // verus!
