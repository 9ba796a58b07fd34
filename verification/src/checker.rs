//! The tool-availability check that a caller supplies with each query.

use vstd::prelude::*;

verus! {

/// The checker may be asked about any name.
pub open spec fn answers_any_name<F: Fn(&str) -> bool>(checker: &F) -> bool {
    forall|s: &str| call_requires(*checker, (s,))
}

/// The checker's answers are those of membership in `available`: whatever
/// name it is asked about, it says yes exactly when the name is in the set.
pub open spec fn answers_match<F: Fn(&str) -> bool>(
    checker: &F,
    available: Set<Seq<char>>,
) -> bool {
    forall|s: &str, answer: bool| #[trigger]
        call_ensures(*checker, (s,), answer) ==> answer == available.contains(s@)
}

/// Asks `checker` about one tool.
pub fn is_available<F: Fn(&str) -> bool>(checker: &F, name: &str) -> (available: bool)
    requires
        answers_any_name(checker),
    ensures
        forall|tools: Set<Seq<char>>| #[trigger]
            answers_match(checker, tools) ==> available == tools.contains(name@),
{
    checker(name)
}

/// Asks `checker` about each of `names` in turn, until one is available.
pub fn any_available<F: Fn(&str) -> bool>(checker: &F, names: &Vec<String>) -> (found: bool)
    requires
        answers_any_name(checker),
    ensures
        forall|tools: Set<Seq<char>>| #[trigger]
            answers_match(checker, tools) ==> found == exists|i: int|
                0 <= i < names.deep_view().len() && tools.contains(#[trigger] names.deep_view()[i]),
{
    let mut i: usize = 0;
    while i < names.len()
        invariant
            i <= names.len(),
            answers_any_name(checker),
            forall|tools: Set<Seq<char>>, j: int|
                #![trigger answers_match(checker, tools), names.deep_view()[j]]
                answers_match(checker, tools) && 0 <= j < i ==> !tools.contains(
                    names.deep_view()[j],
                ),
        decreases names.len() - i,
    {
        if is_available(checker, names[i].as_str()) {
            assert forall|tools: Set<Seq<char>>| #[trigger]
                answers_match(checker, tools) implies exists|k: int|
                0 <= k < names.deep_view().len() && tools.contains(
                    #[trigger] names.deep_view()[k],
                ) by {
                assert(tools.contains(names.deep_view()[i as int]));
            }
            return true;
        }
        i += 1;
    }
    false
}

} // verus!
