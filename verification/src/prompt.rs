//! The prompt builder: a pure function of the prompt symbol, the current
//! working directory, and an optional version-control branch name.
use vstd::prelude::*;

verus! {

/// The colored branch annotation, empty when no branch is known.
pub open spec fn branch_annotation_spec(branch: Option<Seq<char>>) -> Seq<char> {
    match branch {
        Some(b) => "\u{1}\u{1b}[1;35m\u{2}["@ + b + "]\u{1}\u{1b}[0m\u{2}"@,
        None => Seq::empty(),
    }
}

/// The full prompt: colored symbol, shell name, working directory in
/// brackets, then the branch annotation if any.
pub open spec fn prompt_spec(
    symbol: Seq<char>,
    cwd: Seq<char>,
    branch: Option<Seq<char>>,
) -> Seq<char> {
    "\u{1}\u{1b}[1;32m\u{2}"@ + symbol + " RUST-SHELL ["@ + cwd + "]\u{1}\u{1b}[0m\u{2}"@
        + branch_annotation_spec(branch) + "> "@
}

/// Builds the prompt shown before each input line.
pub fn prompt_text(symbol: &str, cwd: &str, branch: Option<&str>) -> (r: String)
    ensures
        r@ == prompt_spec(
            symbol@,
            cwd@,
            (match branch {
                Some(b) => Some(b@),
                None => None,
            }),
        ),
{
    let mut r = String::from_str("\u{1}\u{1b}[1;32m\u{2}");
    r.append(symbol);
    r.append(" RUST-SHELL [");
    r.append(cwd);
    r.append("]\u{1}\u{1b}[0m\u{2}");
    match branch {
        Some(b) => {
            r.append("\u{1}\u{1b}[1;35m\u{2}[");
            r.append(b);
            r.append("]\u{1}\u{1b}[0m\u{2}");
        },
        None => {
            proof {
                assert(branch_annotation_spec(None) =~= Seq::<char>::empty());
            }
        },
    }
    r.append("> ");
    proof {
        assert(r@ =~= prompt_spec(
            symbol@,
            cwd@,
            (match branch {
                Some(b) => Some(b@),
                None => None::<Seq<char>>,
            }),
        ));
    }
    r
}

} // verus!
