//! Small operations on strings.

use vstd::prelude::*;
use vstd::string::StringExecFns;

verus! {

/// The words of `parts`, with one space between each two.
pub open spec fn joined(parts: Seq<Seq<char>>) -> Seq<char>
    decreases parts.len(),
{
    if parts.len() == 0 {
        Seq::empty()
    } else if parts.len() == 1 {
        parts[0]
    } else {
        joined(parts.drop_last()) + seq![' '] + parts.last()
    }
}

/// Joins `parts` with single spaces.
pub fn join_words(parts: &Vec<String>) -> (out: String)
    ensures
        out@ == joined(parts@.map_values(|s: String| s@)),
{
    let ghost words = parts@.map_values(|s: String| s@);
    let mut out = String::new();
    let mut i: usize = 0;
    while i < parts.len()
        invariant
            i <= parts.len(),
            words == parts@.map_values(|s: String| s@),
            out@ == joined(words.subrange(0, i as int)),
        decreases parts.len() - i,
    {
        let ghost before = words.subrange(0, i as int);
        let ghost after = words.subrange(0, i + 1);
        proof {
            assert(after.drop_last() =~= before);
            assert(after.last() == parts@[i as int]@);
        }
        if i > 0 {
            proof {
                reveal_strlit(" ");
                assert(" "@ =~= seq![' ']);
            }
            out.append(" ");
        }
        out.append(parts[i].as_str());
        i += 1;
        proof {
            if i == 1 {
                assert(out@ =~= after[0]);
            }
        }
    }
    assert(words.subrange(0, i as int) =~= words);
    out
}

/// Whether `s` reads `literal`.
pub fn text_is(s: &String, literal: &str) -> (same: bool)
    ensures
        same == (s@ == literal@),
{
    let other = String::from_str(literal);
    *s == other
}

} // verus!
