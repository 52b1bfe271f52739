//! Templates with `{}` placeholders.

use vstd::prelude::*;
use vstd::string::{StrSliceExecFns, StringExecFns};

verus! {

/// `template` with every `{}` replaced by `value`. Placeholders are found
/// from the left and do not overlap; all other characters stay as they are.
pub open spec fn substituted(template: Seq<char>, value: Seq<char>) -> Seq<char>
    decreases template.len(),
{
    if template.len() == 0 {
        Seq::empty()
    } else if template.len() >= 2 && template[0] == '{' && template[1] == '}' {
        value + substituted(template.skip(2), value)
    } else {
        seq![template[0]] + substituted(template.skip(1), value)
    }
}

/// Whether a placeholder starts at offset `at` of `text`.
pub open spec fn placeholder_at(text: Seq<char>, at: int) -> bool {
    0 <= at && at + 1 < text.len() && text[at] == '{' && text[at + 1] == '}'
}

/// Whether `text` holds no placeholder.
pub open spec fn plain(text: Seq<char>) -> bool {
    forall|at: int| !placeholder_at(text, at)
}

/// A text without placeholder comes through a substitution unchanged.
pub proof fn lemma_plain_text_is_kept(text: Seq<char>, value: Seq<char>)
    requires
        plain(text),
    ensures
        substituted(text, value) == text,
    decreases text.len(),
{
    if text.len() > 0 {
        assert(!placeholder_at(text, 0));
        let rest = text.skip(1);
        assert forall|at: int| !placeholder_at(rest, at) by {
            assert(!placeholder_at(text, at + 1));
        }
        lemma_plain_text_is_kept(rest, value);
        assert(seq![text[0]] + rest =~= text);
    }
}

/// A template with a single placeholder becomes what stands before the
/// placeholder, the value, and what stands behind it.
pub proof fn lemma_single_placeholder(before: Seq<char>, behind: Seq<char>, value: Seq<char>)
    requires
        plain(before),
        plain(behind),
    ensures
        substituted(before + seq!['{', '}'] + behind, value) == before + value + behind,
    decreases before.len(),
{
    let template = before + seq!['{', '}'] + behind;
    if before.len() == 0 {
        assert(template.skip(2) =~= behind);
        lemma_plain_text_is_kept(behind, value);
        assert(value + behind =~= before + value + behind);
    } else {
        assert(!placeholder_at(before, 0));
        assert(template[0] == before[0]);
        assert(before.len() >= 2 ==> template[1] == before[1]);
        assert(before.len() == 1 ==> template[1] == '{');
        let rest = before.skip(1);
        assert forall|at: int| !placeholder_at(rest, at) by {
            assert(!placeholder_at(before, at + 1));
        }
        lemma_single_placeholder(rest, behind, value);
        assert(template.skip(1) =~= rest + seq!['{', '}'] + behind);
        assert(seq![before[0]] + (rest + value + behind) =~= before + value + behind);
    }
}

/// Fills `value` into every placeholder of `template`.
pub fn substitute(template: &str, value: &str) -> (text: String)
    ensures
        text@ == substituted(template@, value@),
{
    let n = template.unicode_len();
    let mut text = String::new();
    let mut at: usize = 0;
    proof {
        assert(template@.skip(0) =~= template@);
        assert(text@ + substituted(template@, value@) =~= substituted(template@, value@));
    }
    while at < n
        invariant
            n == template@.len(),
            at <= n,
            text@ + substituted(template@.skip(at as int), value@) == substituted(
                template@,
                value@,
            ),
        decreases n - at,
    {
        let ghost rest = template@.skip(at as int);
        let ghost before = text@;
        if template.get_char(at) == '{' && at + 1 < n && template.get_char(at + 1) == '}' {
            text.append(value);
            proof {
                assert(rest.skip(2) =~= template@.skip(at + 2));
                assert((before + value@) + substituted(rest.skip(2), value@) =~= before + (value@
                    + substituted(rest.skip(2), value@)));
            }
            at += 2;
        } else {
            text.append(template.substring_char(at, at + 1));
            proof {
                assert(template@.subrange(at as int, at + 1) =~= seq![rest[0]]);
                assert(rest.skip(1) =~= template@.skip(at + 1));
                assert((before + seq![rest[0]]) + substituted(rest.skip(1), value@) =~= before + (
                seq![rest[0]] + substituted(rest.skip(1), value@)));
            }
            at += 1;
        }
    }
    proof {
        assert(template@.skip(n as int).len() == 0);
        assert(text@ + Seq::<char>::empty() =~= text@);
    }
    text
}

} // verus!
