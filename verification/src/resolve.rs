//! Resolution of a type signature against the registry: which known records a
//! signature refers to, directly or as an argument one level down.

use crate::chars::{texts, trim};
use crate::registry::Registry;
use crate::signature::{arguments, parse_arguments, whole_name};
use vstd::prelude::*;

verus! {

/// The known records that `sig` refers to. A signature that is itself a known
/// name refers to that record alone. Any other signature refers to those of
/// its arguments that are known names, in the order written and as often as
/// written.
pub open spec fn resolve_spec(sig: Seq<char>, known: Set<Seq<char>>) -> Seq<Seq<char>> {
    if known.contains(whole_name(sig)) {
        seq![whole_name(sig)]
    } else {
        arguments(sig).filter(|a: Seq<char>| known.contains(a))
    }
}

/// The names of the known records that `signature` refers to.
pub fn resolve_nested_record(signature: &str, registry: &Registry) -> (names: Vec<String>)
    ensures
        texts(names@) == resolve_spec(signature@, registry@.dom()),
{
    let mut names: Vec<String> = Vec::new();
    let whole = trim(signature);
    if registry.contains(whole) {
        names.push(whole.to_owned());
        return names;
    }
    let args = parse_arguments(signature);
    let ghost known = |a: Seq<char>| registry@.dom().contains(a);
    let mut i: usize = 0;
    assert(texts(names@) =~= texts(args@).take(0).filter(known)) by {
        reveal(Seq::filter);
    }
    while i < args.len()
        invariant
            i <= args.len(),
            known == (|a: Seq<char>| registry@.dom().contains(a)),
            texts(names@) == texts(args@).take(i as int).filter(known),
        decreases args.len() - i,
    {
        proof {
            let head = texts(args@).take(i as int);
            assert(texts(args@).take(i + 1) =~= head.push(args[i as int]@));
            head.lemma_filter_push(args[i as int]@, known);
        }
        if registry.contains(args[i].as_str()) {
            names.push(args[i].clone());
        }
        i += 1;
    }
    assert(texts(args@).take(i as int) =~= texts(args@));
    names
}

} // verus!
