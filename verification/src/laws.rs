//! What holds of every tree that the builder produces.

use crate::builder::{
    expansion, field_doc, fields_docs, is_outcome, lemma_fields_docs_index,
    lemma_unvisited_decreases, record_docs, unvisited, DocError,
};
use crate::chars::{lemma_trim_bounds, trim_start, trimmed};
use crate::model::{docs_view, height, FieldDefView, FieldDoc, FieldDocView, RecordView};
use crate::resolve::resolve_spec;
use crate::signature::{
    arguments, is_parameterized, lemma_first_bracket, open_index, whole_name,
};
use vstd::prelude::*;

verus! {

/// Building is a function of the registry, the root and the records being
/// expanded: two results for the same three are both trees with the same
/// content, or both the error with the same name.
pub proof fn lemma_build_deterministic(
    reg: Map<Seq<char>, RecordView>,
    root: Seq<char>,
    visiting: Set<Seq<char>>,
    first: Result<Vec<FieldDoc>, DocError>,
    second: Result<Vec<FieldDoc>, DocError>,
)
    requires
        is_outcome(reg, root, visiting, first),
        is_outcome(reg, root, visiting, second),
    ensures
        first is Ok <==> second is Ok,
        first is Ok ==> docs_view(first->Ok_0@) == docs_view(second->Ok_0@),
        first is Err ==> first->Err_0->name@ == second->Err_0->name@,
{
}

/// Every name that a signature resolves to is a known one.
pub proof fn lemma_resolved_are_known(sig: Seq<char>, known: Set<Seq<char>>)
    ensures
        forall|i: int|
            0 <= i < resolve_spec(sig, known).len() ==> known.contains(
                #[trigger] resolve_spec(sig, known)[i],
            ),
{
    let pred = |a: Seq<char>| known.contains(a);
    assert forall|i: int| 0 <= i < resolve_spec(sig, known).len() implies known.contains(
        #[trigger] resolve_spec(sig, known)[i],
    ) by {
        if !known.contains(whole_name(sig)) {
            arguments(sig).lemma_filter_pred(pred, i);
        }
    }
}

/// A signature that is not a known name, and none of whose arguments is one,
/// resolves to nothing.
pub proof fn lemma_unknown_resolves_to_nothing(sig: Seq<char>, known: Set<Seq<char>>)
    requires
        !known.contains(whole_name(sig)),
        forall|i: int| 0 <= i < arguments(sig).len() ==> !known.contains(#[trigger] arguments(sig)[i]),
    ensures
        resolve_spec(sig, known) == Seq::<Seq<char>>::empty(),
{
    let pred = |a: Seq<char>| known.contains(a);
    arguments(sig).lemma_all_neg_filter_empty(pred);
}

/// A signature without an opening angle bracket has no arguments.
pub proof fn lemma_plain_signature_has_no_arguments(sig: Seq<char>)
    requires
        !sig.contains('<'),
    ensures
        arguments(sig) == Seq::<Seq<char>>::empty(),
{
    let t = trimmed(sig);
    lemma_trim_bounds(sig);
    lemma_first_bracket(t, 0);
    let p = open_index(t);
    if is_parameterized(t) {
        assert(sig[trim_start(sig) + p] == '<');
    }
}

/// A field whose signature resolves to nothing has no children, whatever is
/// being expanded.
pub proof fn lemma_unresolved_has_no_children(
    reg: Map<Seq<char>, RecordView>,
    field: FieldDefView,
    visiting: Set<Seq<char>>,
)
    requires
        resolve_spec(field.type_signature, reg.dom()).len() == 0,
    ensures
        field_doc(reg, field, visiting).children == Seq::<FieldDocView>::empty(),
{
}

/// Records that are all being expanded already contribute no nodes.
pub proof fn lemma_visited_are_not_expanded(
    reg: Map<Seq<char>, RecordView>,
    names: Seq<Seq<char>>,
    visiting: Set<Seq<char>>,
)
    requires
        forall|i: int| 0 <= i < names.len() ==> visiting.contains(#[trigger] names[i]),
    ensures
        expansion(reg, names, visiting) == Seq::<FieldDocView>::empty(),
    decreases names.len(),
{
    if names.len() > 0 {
        let init = names.drop_last();
        assert forall|i: int| 0 <= i < init.len() implies visiting.contains(#[trigger] init[i]) by {
            assert(init[i] == names[i]);
        }
        lemma_visited_are_not_expanded(reg, init, visiting);
    }
}

/// In the tree of a record, a field that refers to nothing but that record
/// itself is present with its own name, signature and lines, and has no
/// children.
pub proof fn lemma_self_reference_is_cut(reg: Map<Seq<char>, RecordView>, root: Seq<char>, i: int)
    requires
        reg.contains_key(root),
        0 <= i < reg[root].fields.len(),
        forall|k: int|
            0 <= k < resolve_spec(reg[root].fields[i].type_signature, reg.dom()).len()
                ==> #[trigger] resolve_spec(reg[root].fields[i].type_signature, reg.dom())[k]
                == root,
    ensures
        record_docs(reg, root, set![root]).len() == reg[root].fields.len(),
        record_docs(reg, root, set![root])[i] == (FieldDocView {
            name: reg[root].fields[i].name,
            type_signature: reg[root].fields[i].type_signature,
            doc_lines: reg[root].fields[i].doc_lines,
            children: Seq::<FieldDocView>::empty(),
        }),
{
    let field = reg[root].fields[i];
    lemma_fields_docs_index(reg, reg[root].fields, set![root]);
    lemma_visited_are_not_expanded(
        reg,
        resolve_spec(field.type_signature, reg.dom()),
        set![root],
    );
}

/// A field whose signature resolves to the one record `t`, which is not being
/// expanded, keeps its own name, signature and lines and has as children the
/// nodes of `t`, built with `t` added to the records being expanded.
pub proof fn lemma_single_reference(
    reg: Map<Seq<char>, RecordView>,
    field: FieldDefView,
    visiting: Set<Seq<char>>,
    t: Seq<char>,
)
    requires
        reg.dom().finite(),
        resolve_spec(field.type_signature, reg.dom()) == seq![t],
        !visiting.contains(t),
    ensures
        reg.contains_key(t),
        field_doc(reg, field, visiting) == (FieldDocView {
            name: field.name,
            type_signature: field.type_signature,
            doc_lines: field.doc_lines,
            children: record_docs(reg, t, visiting.insert(t)),
        }),
{
    let names = resolve_spec(field.type_signature, reg.dom());
    lemma_resolved_are_known(field.type_signature, reg.dom());
    assert(expansion(reg, names.drop_last(), visiting) == Seq::<FieldDocView>::empty());
    assert(expansion(reg, names, visiting) =~= record_docs(reg, t, visiting.insert(t)));
}

/// Whether `names` holds, with each known record in it, every record that a
/// field of that record refers to.
pub open spec fn closed_under_references(
    reg: Map<Seq<char>, RecordView>,
    names: Set<Seq<char>>,
) -> bool {
    forall|a: Seq<char>, i: int, k: int|
        names.contains(a) && reg.contains_key(a) && 0 <= i < reg[a].fields.len() && 0 <= k
            < resolve_spec(reg[a].fields[i].type_signature, reg.dom()).len()
            ==> names.contains(
            #[trigger] resolve_spec(reg[a].fields[i].type_signature, reg.dom())[k],
        )
}

/// Whether `first` and `second` hold the same names of `names`.
pub open spec fn agree_on(
    names: Set<Seq<char>>,
    first: Set<Seq<char>>,
    second: Set<Seq<char>>,
) -> bool {
    forall|n: Seq<char>| names.contains(n) ==> (first.contains(n) <==> second.contains(n))
}

/// The tree of a record depends on the records being expanded only as far as
/// they can be reached from it: two sets that agree on a set of names which
/// holds the record and is closed under references give the same tree.
pub proof fn lemma_visiting_frame(
    reg: Map<Seq<char>, RecordView>,
    root: Seq<char>,
    first: Set<Seq<char>>,
    second: Set<Seq<char>>,
    reach: Set<Seq<char>>,
)
    requires
        reg.dom().finite(),
        closed_under_references(reg, reach),
        reach.contains(root),
        agree_on(reach, first, second),
    ensures
        record_docs(reg, root, first) == record_docs(reg, root, second),
    decreases unvisited(reg, first), 2int, 0int,
{
    if reg.contains_key(root) {
        let fields = reg[root].fields;
        lemma_visiting_frame_fields(reg, root, fields.len() as int, first, second, reach);
        assert(fields.take(fields.len() as int) =~= fields);
    }
}

/// The step of `lemma_visiting_frame` for the first `n` fields of a record.
proof fn lemma_visiting_frame_fields(
    reg: Map<Seq<char>, RecordView>,
    owner: Seq<char>,
    n: int,
    first: Set<Seq<char>>,
    second: Set<Seq<char>>,
    reach: Set<Seq<char>>,
)
    requires
        reg.dom().finite(),
        closed_under_references(reg, reach),
        reach.contains(owner),
        reg.contains_key(owner),
        0 <= n <= reg[owner].fields.len(),
        agree_on(reach, first, second),
    ensures
        fields_docs(reg, reg[owner].fields.take(n), first) == fields_docs(
            reg,
            reg[owner].fields.take(n),
            second,
        ),
    decreases unvisited(reg, first), 1int, n,
{
    if n > 0 {
        let fields = reg[owner].fields;
        let head = fields.take(n);
        lemma_visiting_frame_fields(reg, owner, n - 1, first, second, reach);
        assert(head.drop_last() =~= fields.take(n - 1));
        let names = resolve_spec(fields[n - 1].type_signature, reg.dom());
        assert forall|k: int| 0 <= k < names.len() implies reach.contains(#[trigger] names[k]) by {
            assert(names[k] == resolve_spec(reg[owner].fields[n - 1].type_signature, reg.dom())[k]);
        }
        lemma_visiting_frame_expansion(reg, names, first, second, reach);
        assert(field_doc(reg, fields[n - 1], first) == field_doc(reg, fields[n - 1], second));
    }
}

/// The step of `lemma_visiting_frame` for the records that a field refers to.
proof fn lemma_visiting_frame_expansion(
    reg: Map<Seq<char>, RecordView>,
    names: Seq<Seq<char>>,
    first: Set<Seq<char>>,
    second: Set<Seq<char>>,
    reach: Set<Seq<char>>,
)
    requires
        reg.dom().finite(),
        closed_under_references(reg, reach),
        forall|k: int| 0 <= k < names.len() ==> reach.contains(#[trigger] names[k]),
        agree_on(reach, first, second),
    ensures
        expansion(reg, names, first) == expansion(reg, names, second),
    decreases unvisited(reg, first), 0int, names.len(),
{
    if names.len() > 0 {
        let init = names.drop_last();
        let t = names.last();
        assert forall|k: int| 0 <= k < init.len() implies reach.contains(#[trigger] init[k]) by {
            assert(init[k] == names[k]);
        }
        lemma_visiting_frame_expansion(reg, init, first, second, reach);
        if reg.contains_key(t) && !first.contains(t) {
            lemma_unvisited_decreases(reg, first, t);
            lemma_visiting_frame(reg, t, first.insert(t), second.insert(t), reach);
        }
    }
}

/// A field whose signature resolves to the one record `t` has as children
/// exactly the tree that is built for `t` as a root, provided that none of the
/// records that can be reached from `t` is being expanded.
pub proof fn lemma_children_are_the_record_tree(
    reg: Map<Seq<char>, RecordView>,
    field: FieldDefView,
    visiting: Set<Seq<char>>,
    t: Seq<char>,
    reach: Set<Seq<char>>,
)
    requires
        reg.dom().finite(),
        resolve_spec(field.type_signature, reg.dom()) == seq![t],
        closed_under_references(reg, reach),
        reach.contains(t),
        reach.disjoint(visiting),
    ensures
        field_doc(reg, field, visiting) == (FieldDocView {
            name: field.name,
            type_signature: field.type_signature,
            doc_lines: field.doc_lines,
            children: record_docs(reg, t, set![t]),
        }),
{
    lemma_single_reference(reg, field, visiting, t);
    lemma_visiting_frame(reg, t, visiting.insert(t), set![t], reach);
}

/// Two lists of nodes put together are as high as the higher of them.
pub proof fn lemma_height_of_concatenation(first: Seq<FieldDocView>, second: Seq<FieldDocView>)
    ensures
        height(first + second) == if height(first) >= height(second) {
            height(first)
        } else {
            height(second)
        },
    decreases second.len(),
{
    if second.len() > 0 {
        lemma_height_of_concatenation(first, second.drop_last());
        assert((first + second).drop_last() =~= first + second.drop_last());
    }
}

/// Every tree is finite: the nodes of a record have at most one level more
/// than there are known records that are not being expanded.
pub proof fn lemma_height_is_bounded(
    reg: Map<Seq<char>, RecordView>,
    root: Seq<char>,
    visiting: Set<Seq<char>>,
)
    requires
        reg.dom().finite(),
    ensures
        height(record_docs(reg, root, visiting)) <= 1 + unvisited(reg, visiting),
    decreases unvisited(reg, visiting), 2int, 0int,
{
    if reg.contains_key(root) {
        lemma_height_of_fields(reg, reg[root].fields, visiting);
    }
}

/// The step of `lemma_height_is_bounded` for the fields of a record.
proof fn lemma_height_of_fields(
    reg: Map<Seq<char>, RecordView>,
    fields: Seq<FieldDefView>,
    visiting: Set<Seq<char>>,
)
    requires
        reg.dom().finite(),
    ensures
        height(fields_docs(reg, fields, visiting)) <= 1 + unvisited(reg, visiting),
    decreases unvisited(reg, visiting), 1int, fields.len(),
{
    if fields.len() > 0 {
        lemma_height_of_fields(reg, fields.drop_last(), visiting);
        let names = resolve_spec(fields.last().type_signature, reg.dom());
        lemma_height_of_expansion(reg, names, visiting);
        let docs = fields_docs(reg, fields, visiting);
        assert(docs.drop_last() =~= fields_docs(reg, fields.drop_last(), visiting));
        assert(docs.last() == field_doc(reg, fields.last(), visiting));
    }
}

/// The step of `lemma_height_is_bounded` for the records that a field refers
/// to.
proof fn lemma_height_of_expansion(
    reg: Map<Seq<char>, RecordView>,
    names: Seq<Seq<char>>,
    visiting: Set<Seq<char>>,
)
    requires
        reg.dom().finite(),
    ensures
        height(expansion(reg, names, visiting)) <= unvisited(reg, visiting),
    decreases unvisited(reg, visiting), 0int, names.len(),
{
    if names.len() > 0 {
        let t = names.last();
        let head = expansion(reg, names.drop_last(), visiting);
        lemma_height_of_expansion(reg, names.drop_last(), visiting);
        if reg.contains_key(t) && !visiting.contains(t) {
            lemma_unvisited_decreases(reg, visiting, t);
            lemma_height_is_bounded(reg, t, visiting.insert(t));
            lemma_height_of_concatenation(head, record_docs(reg, t, visiting.insert(t)));
        }
    }
}

/// The tree built for a root has at most as many levels as there are known
/// records.
pub proof fn lemma_built_height_is_bounded(reg: Map<Seq<char>, RecordView>, root: Seq<char>)
    requires
        reg.dom().finite(),
        reg.contains_key(root),
    ensures
        height(record_docs(reg, root, set![root])) <= reg.dom().len(),
{
    lemma_height_is_bounded(reg, root, set![root]);
    assert(reg.dom().difference(set![root]) =~= reg.dom().remove(root));
}

} // verus!
