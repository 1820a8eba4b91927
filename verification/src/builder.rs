//! The documentation tree builder: one node per field of a record, in the
//! order declared, with the nodes of every record its type refers to below it.

use crate::chars::texts;
use crate::model::{
    copy_lines, docs_view, fields_view, FieldDef, FieldDefView, FieldDoc, FieldDocView, RecordView,
};
use crate::registry::Registry;
use crate::resolve::{resolve_nested_record, resolve_spec};
use vstd::prelude::*;

verus! {

/// Why a tree could not be built.
#[derive(Debug, PartialEq, Eq)]
pub enum DocError {
    /// No record of this name is known.
    UnknownType { name: String },
}

/// The set of the texts of `names`.
pub open spec fn name_set(names: Seq<String>) -> Set<Seq<char>> {
    Set::new(|n: Seq<char>| exists|i: int| 0 <= i < names.len() && #[trigger] names[i]@ == n)
}

/// How many known records are not being expanded.
pub open spec fn unvisited(reg: Map<Seq<char>, RecordView>, visiting: Set<Seq<char>>) -> nat {
    reg.dom().difference(visiting).len()
}

/// A record that starts being expanded is no longer counted as unvisited.
pub proof fn lemma_unvisited_decreases(
    reg: Map<Seq<char>, RecordView>,
    visiting: Set<Seq<char>>,
    t: Seq<char>,
)
    requires
        reg.dom().finite(),
        reg.contains_key(t),
        !visiting.contains(t),
    ensures
        unvisited(reg, visiting.insert(t)) < unvisited(reg, visiting),
{
    let rest = reg.dom().difference(visiting);
    vstd::set_lib::lemma_len_difference(reg.dom(), visiting);
    assert(reg.dom().difference(visiting.insert(t)) =~= rest.remove(t));
}

/// The nodes of the record called `root`, while the records in `visiting` are
/// being expanded; empty if no such record is known.
pub open spec fn record_docs(
    reg: Map<Seq<char>, RecordView>,
    root: Seq<char>,
    visiting: Set<Seq<char>>,
) -> Seq<FieldDocView>
    decreases unvisited(reg, visiting), 3int, 0int,
{
    if reg.contains_key(root) {
        fields_docs(reg, reg[root].fields, visiting)
    } else {
        seq![]
    }
}

/// One node for each of `fields`, in the same order.
pub open spec fn fields_docs(
    reg: Map<Seq<char>, RecordView>,
    fields: Seq<FieldDefView>,
    visiting: Set<Seq<char>>,
) -> Seq<FieldDocView>
    decreases unvisited(reg, visiting), 2int, fields.len(),
{
    if fields.len() == 0 {
        seq![]
    } else {
        fields_docs(reg, fields.drop_last(), visiting).push(
            field_doc(reg, fields.last(), visiting),
        )
    }
}

/// The node of one field: its own name, signature and lines, and below it the
/// nodes of the records that its signature resolves to.
pub open spec fn field_doc(
    reg: Map<Seq<char>, RecordView>,
    field: FieldDefView,
    visiting: Set<Seq<char>>,
) -> FieldDocView
    decreases unvisited(reg, visiting), 1int, 0int,
{
    FieldDocView {
        name: field.name,
        type_signature: field.type_signature,
        doc_lines: field.doc_lines,
        children: expansion(reg, resolve_spec(field.type_signature, reg.dom()), visiting),
    }
}

/// The nodes of the records called `names`, one record after the other. A
/// record that is being expanded already contributes nothing; every other one
/// is expanded with its own name added to `visiting`.
pub open spec fn expansion(
    reg: Map<Seq<char>, RecordView>,
    names: Seq<Seq<char>>,
    visiting: Set<Seq<char>>,
) -> Seq<FieldDocView>
    decreases unvisited(reg, visiting), 0int, names.len(),
{
    if names.len() == 0 {
        seq![]
    } else {
        let t = names.last();
        let head = expansion(reg, names.drop_last(), visiting);
        if reg.dom().finite() && reg.contains_key(t) && !visiting.contains(t) {
            proof {
                lemma_unvisited_decreases(reg, visiting, t);
            }
            head + record_docs(reg, t, visiting.insert(t))
        } else {
            head
        }
    }
}

/// `fields_docs` yields one node per field, each the node of the field at the
/// same place.
pub proof fn lemma_fields_docs_index(
    reg: Map<Seq<char>, RecordView>,
    fields: Seq<FieldDefView>,
    visiting: Set<Seq<char>>,
)
    ensures
        fields_docs(reg, fields, visiting).len() == fields.len(),
        forall|i: int|
            0 <= i < fields.len() ==> #[trigger] fields_docs(reg, fields, visiting)[i]
                == field_doc(reg, fields[i], visiting),
    decreases fields.len(),
{
    if fields.len() > 0 {
        lemma_fields_docs_index(reg, fields.drop_last(), visiting);
    }
}

/// What building the documentation of `root` must return: on a known record
/// the nodes of its fields, on any other name the error that names it.
pub open spec fn is_outcome(
    reg: Map<Seq<char>, RecordView>,
    root: Seq<char>,
    visiting: Set<Seq<char>>,
    result: Result<Vec<FieldDoc>, DocError>,
) -> bool {
    match result {
        Ok(docs) => reg.contains_key(root) && docs_view(docs@) == record_docs(
            reg,
            root,
            visiting,
        ),
        Err(DocError::UnknownType { name }) => !reg.contains_key(root) && name@ == root,
    }
}

/// Whether the nodes `docs` stand for `fields` one for one: as many, in the
/// same order, each with the name, signature and lines of its field.
pub open spec fn follows_declaration(docs: Seq<FieldDocView>, fields: Seq<FieldDefView>) -> bool {
    &&& docs.len() == fields.len()
    &&& forall|i: int|
        0 <= i < fields.len() ==> {
            &&& (#[trigger] docs[i]).name == fields[i].name
            &&& docs[i].type_signature == fields[i].type_signature
            &&& docs[i].doc_lines == fields[i].doc_lines
        }
}

/// The nodes of a known record follow its declaration.
pub proof fn lemma_record_docs_order(
    reg: Map<Seq<char>, RecordView>,
    root: Seq<char>,
    visiting: Set<Seq<char>>,
)
    requires
        reg.contains_key(root),
    ensures
        follows_declaration(record_docs(reg, root, visiting), reg[root].fields),
{
    lemma_fields_docs_index(reg, reg[root].fields, visiting);
}

/// Whether `name` is among `names`.
fn is_visiting(names: &Vec<String>, name: &String) -> (found: bool)
    ensures
        found == name_set(names@).contains(name@),
{
    let mut i: usize = 0;
    while i < names.len()
        invariant
            i <= names.len(),
            forall|k: int| 0 <= k < i ==> names[k]@ != name@,
        decreases names.len() - i,
    {
        if names[i] == *name {
            return true;
        }
        i += 1;
    }
    false
}

/// Builds one node for each of `fields`, in the same order.
fn document_fields(registry: &Registry, fields: &Vec<FieldDef>, visiting: &mut Vec<String>) -> (docs:
    Vec<FieldDoc>)
    ensures
        final(visiting)@ == old(visiting)@,
        docs_view(docs@) == fields_docs(
            registry@,
            fields_view(fields@),
            name_set(old(visiting)@),
        ),
    decreases unvisited(registry@, name_set(old(visiting)@)), 2int, fields.len(),
{
    let ghost start = visiting@;
    let mut docs: Vec<FieldDoc> = Vec::new();
    let mut i: usize = 0;
    while i < fields.len()
        invariant
            i <= fields.len(),
            start == old(visiting)@,
            visiting@ == start,
            docs_view(docs@) == fields_docs(
                registry@,
                fields_view(fields@).take(i as int),
                name_set(start),
            ),
        decreases fields.len() - i,
    {
        let doc = document_field(registry, &fields[i], visiting);
        docs.push(doc);
        proof {
            let next = fields_view(fields@).take(i + 1);
            assert(next.drop_last() =~= fields_view(fields@).take(i as int));
        }
        i += 1;
    }
    assert(fields_view(fields@).take(i as int) =~= fields_view(fields@));
    docs
}

/// Builds the node of one field.
fn document_field(registry: &Registry, field: &FieldDef, visiting: &mut Vec<String>) -> (doc:
    FieldDoc)
    ensures
        final(visiting)@ == old(visiting)@,
        doc@ == field_doc(registry@, field@, name_set(old(visiting)@)),
    decreases unvisited(registry@, name_set(old(visiting)@)), 1int, 0int,
{
    let names = resolve_nested_record(field.type_signature.as_str(), registry);
    let children = expand_names(registry, &names, visiting);
    FieldDoc::new(
        field.name.clone(),
        field.type_signature.clone(),
        copy_lines(&field.doc_lines),
        children,
    )
}

/// Builds the nodes of the records called `names`, one record after the other,
/// leaving out those that are being expanded already.
fn expand_names(registry: &Registry, names: &Vec<String>, visiting: &mut Vec<String>) -> (docs:
    Vec<FieldDoc>)
    ensures
        final(visiting)@ == old(visiting)@,
        docs_view(docs@) == expansion(registry@, texts(names@), name_set(old(visiting)@)),
    decreases unvisited(registry@, name_set(old(visiting)@)), 0int, names.len(),
{
    let ghost start = visiting@;
    let mut docs: Vec<FieldDoc> = Vec::new();
    let mut i: usize = 0;
    while i < names.len()
        invariant
            i <= names.len(),
            start == old(visiting)@,
            visiting@ == start,
            docs_view(docs@) == expansion(
                registry@,
                texts(names@).take(i as int),
                name_set(start),
            ),
        decreases names.len() - i,
    {
        let name = &names[i];
        proof {
            registry.lemma_finite();
            let next = texts(names@).take(i + 1);
            assert(next.drop_last() =~= texts(names@).take(i as int));
        }
        if !is_visiting(visiting, name) {
            match registry.get(name.as_str()) {
                Some(record) => {
                    proof {
                        lemma_unvisited_decreases(registry@, name_set(start), name@);
                    }
                    visiting.push(name.clone());
                    assert(name_set(visiting@) =~= name_set(start).insert(name@)) by {
                        assert(visiting@[start.len() as int]@ == name@);
                        assert forall|k: int| 0 <= k < start.len() implies visiting@[k] == start[k] by {}
                    }
                    let mut below = document_fields(registry, &record.fields, visiting);
                    visiting.pop();
                    let ghost added = docs_view(below@);
                    docs.append(&mut below);
                    assert(added == record_docs(
                        registry@,
                        name@,
                        name_set(start).insert(name@),
                    ));
                },
                None => {},
            }
        }
        i += 1;
    }
    assert(texts(names@).take(i as int) =~= texts(names@));
    docs
}

/// Documents the record called `root` while the records called `visiting` count
/// as being expanded: a field that refers to one of them gets no children.
/// Fails exactly when no record called `root` is known.
pub fn build_visiting(root: &str, registry: &Registry, visiting: &Vec<String>) -> (result: Result<
    Vec<FieldDoc>,
    DocError,
>)
    ensures
        is_outcome(registry@, root@, name_set(visiting@), result),
        result is Ok <==> registry@.contains_key(root@),
        result matches Ok(docs) ==> follows_declaration(
            docs_view(docs@),
            registry@[root@].fields,
        ),
{
    match registry.get(root) {
        Some(record) => {
            let mut path = copy_lines(visiting);
            proof {
                lemma_record_docs_order(registry@, root@, name_set(visiting@));
            }
            Ok(document_fields(registry, &record.fields, &mut path))
        },
        None => Err(DocError::UnknownType { name: root.to_owned() }),
    }
}

/// Documents the record called `root`: one node per field, in the order
/// declared, with `root` itself counting as being expanded. Fails exactly when
/// no record called `root` is known.
pub fn build(root: &str, registry: &Registry) -> (result: Result<Vec<FieldDoc>, DocError>)
    ensures
        is_outcome(registry@, root@, set![root@], result),
        result is Ok <==> registry@.contains_key(root@),
        result matches Ok(docs) ==> follows_declaration(
            docs_view(docs@),
            registry@[root@].fields,
        ),
{
    let mut visiting: Vec<String> = Vec::new();
    visiting.push(root.to_owned());
    assert(name_set(visiting@) =~= set![root@]) by {
        assert(visiting@[0]@ == root@);
    }
    build_visiting(root, registry, &visiting)
}

} // verus!
