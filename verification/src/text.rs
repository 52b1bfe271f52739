//! Texts as sequences of characters.

use vstd::prelude::*;
use vstd::std_specs::iter::IteratorSpec;

verus! {

/// The characters of `text`, in order.
pub fn chars_of(text: &str) -> (chars: Vec<char>)
    ensures
        chars@ == text@,
{
    let mut chars: Vec<char> = Vec::new();
    let mut rest = text.chars();
    proof {
        vstd::string::axiom_spec_iter(text);
    }
    loop
        invariant
            chars@ + rest.remaining() == text@,
            rest.decrease() is Some,
        ensures
            chars@ == text@,
        decreases rest.decrease()->0,
    {
        let ghost before = rest;
        match rest.next() {
            Some(c) => {
                proof {
                    vstd::string::next_postcondition(&before, &rest, Some(c));
                    assert(chars@.push(c) + before.remaining().drop_first() =~= chars@
                        + before.remaining());
                }
                chars.push(c);
            },
            None => {
                proof {
                    vstd::string::next_postcondition(&before, &rest, None);
                    assert(chars@ + Seq::<char>::empty() =~= chars@);
                }
                break ;
            },
        }
    }
    chars
}

} // verus!
