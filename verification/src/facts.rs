//! The fun facts shown at startup, and the one place the library draws a
//! random number.
use vstd::prelude::*;

use rand::Rng;

verus! {

/// How many facts there are.
pub fn fact_count() -> (n: usize)
    ensures
        n == 5,
{
    5
}

/// The fact with the given number.
pub open spec fn fact_spec(i: int) -> Seq<char> {
    if i == 0 {
        "Rust was voted the 'most loved programming language' on Stack Overflow for 7 years in a row!"@
    } else if i == 1 {
        "The Rust compiler is itself written in Rust."@
    } else if i == 2 {
        "Rust's mascot is Ferris the crab 🦀."@
    } else if i == 3 {
        "Rust's ownership system guarantees memory safety without garbage collection."@
    } else {
        "Cargo, Rust's package manager, makes dependency management easy."@
    }
}

/// Returns the fact with the given number.
pub fn fun_fact(i: usize) -> (r: String)
    requires
        i < 5,
    ensures
        r@ == fact_spec(i as int),
{
    if i == 0 {
        String::from_str(
            "Rust was voted the 'most loved programming language' on Stack Overflow for 7 years in a row!",
        )
    } else if i == 1 {
        String::from_str("The Rust compiler is itself written in Rust.")
    } else if i == 2 {
        String::from_str("Rust's mascot is Ferris the crab 🦀.")
    } else if i == 3 {
        String::from_str("Rust's ownership system guarantees memory safety without garbage collection.")
    } else {
        String::from_str("Cargo, Rust's package manager, makes dependency management easy.")
    }
}

/// Relies on `rand::Rng::gen_range`: returns a value within the given
/// range, and panics only when the range is empty.
#[verifier::external_body]
fn pick_index(n: usize) -> (r: usize)
    requires
        n >= 1,
    ensures
        r < n,
{
    rand::thread_rng().gen_range(0..n)
}

/// Picks one fact at random for the startup banner.
pub fn startup_fact() -> (r: String)
    ensures
        exists|i: int| 0 <= i < 5 && r@ == fact_spec(i),
{
    let i = pick_index(fact_count());
    let r = fun_fact(i);
    proof {
        assert(i < 5 && r@ == fact_spec(i as int));
    }
    r
}

} // verus!
