//! The data of the model: documentation nodes, field and record definitions,
//! each with its mathematical view.

use crate::chars::texts;
use vstd::prelude::*;

verus! {

/// One node of a documentation tree, as a mathematical value.
pub struct FieldDocView {
    pub name: Seq<char>,
    pub type_signature: Seq<char>,
    pub doc_lines: Seq<Seq<char>>,
    pub children: Seq<FieldDocView>,
}

/// One node of a documentation tree: a field with the lines written about it
/// and the nodes of the record that its type refers to.
#[derive(Debug, PartialEq, Eq)]
pub struct FieldDoc {
    pub name: String,
    pub type_signature: String,
    pub doc_lines: Vec<String>,
    pub children: Vec<FieldDoc>,
}

/// The mathematical value of a node and, below it, of its children.
pub open spec fn node_view(doc: FieldDoc) -> FieldDocView
    decreases doc,
{
    FieldDocView {
        name: doc.name@,
        type_signature: doc.type_signature@,
        doc_lines: texts(doc.doc_lines@),
        children: Seq::new(
            doc.children@.len(),
            |i: int|
                if 0 <= i < doc.children@.len() {
                    node_view(doc.children@[i])
                } else {
                    arbitrary()
                },
        ),
    }
}

impl View for FieldDoc {
    type V = FieldDocView;

    open spec fn view(&self) -> FieldDocView {
        node_view(*self)
    }
}

/// The views of a sequence of nodes.
pub open spec fn docs_view(docs: Seq<FieldDoc>) -> Seq<FieldDocView> {
    docs.map_values(|d: FieldDoc| d@)
}

impl FieldDoc {
    /// A node with the given parts.
    pub fn new(
        name: String,
        type_signature: String,
        doc_lines: Vec<String>,
        children: Vec<FieldDoc>,
    ) -> (doc: FieldDoc)
        ensures
            doc.name == name,
            doc.type_signature == type_signature,
            doc.doc_lines == doc_lines,
            doc.children == children,
            doc@ == (FieldDocView {
                name: name@,
                type_signature: type_signature@,
                doc_lines: texts(doc_lines@),
                children: docs_view(children@),
            }),
    {
        let doc = FieldDoc { name, type_signature, doc_lines, children };
        assert(doc@.children =~= docs_view(children@));
        doc
    }
}

/// A copy of `lines`.
pub fn copy_lines(lines: &Vec<String>) -> (out: Vec<String>)
    ensures
        out@ == lines@,
{
    let mut out: Vec<String> = Vec::new();
    let mut i: usize = 0;
    while i < lines.len()
        invariant
            i <= lines.len(),
            out@ == lines@.take(i as int),
        decreases lines.len() - i,
    {
        out.push(lines[i].clone());
        i += 1;
    }
    out
}

/// How many levels of nodes `docs` has: none if it is empty, else one more
/// than the deepest list of children.
pub open spec fn height(docs: Seq<FieldDocView>) -> nat
    decreases docs,
{
    if docs.len() == 0 {
        0
    } else {
        let rest = height(docs.drop_last());
        let last = 1 + height(docs.last().children);
        if rest >= last {
            rest
        } else {
            last
        }
    }
}

impl Clone for FieldDoc {
    /// A copy of the node and of everything below it.
    fn clone(&self) -> (copy: FieldDoc)
        ensures
            copy@ == self@,
        decreases self,
    {
        let mut children: Vec<FieldDoc> = Vec::new();
        let mut k: usize = 0;
        while k < self.children.len()
            invariant
                k <= self.children.len(),
                docs_view(children@) == docs_view(self.children@.take(k as int)),
            decreases self.children.len() - k,
        {
            let child = self.children[k].clone();
            children.push(child);
            assert(docs_view(self.children@.take(k + 1)) =~= docs_view(
                self.children@.take(k as int),
            ).push(self.children[k as int]@));
            k += 1;
        }
        assert(self.children@.take(k as int) =~= self.children@);
        let copy = FieldDoc::new(
            self.name.clone(),
            self.type_signature.clone(),
            copy_lines(&self.doc_lines),
            children,
        );
        assert(self@.children =~= docs_view(self.children@));
        copy
    }
}

/// One declared field of a record, as a mathematical value.
pub struct FieldDefView {
    pub name: Seq<char>,
    pub type_signature: Seq<char>,
    pub doc_lines: Seq<Seq<char>>,
}

/// One declared field of a record: its name, the text of its type and the
/// lines written about it.
#[derive(Debug, Clone, PartialEq, Eq)]
pub struct FieldDef {
    pub name: String,
    pub type_signature: String,
    pub doc_lines: Vec<String>,
}

impl View for FieldDef {
    type V = FieldDefView;

    open spec fn view(&self) -> FieldDefView {
        FieldDefView {
            name: self.name@,
            type_signature: self.type_signature@,
            doc_lines: texts(self.doc_lines@),
        }
    }
}

/// The views of a sequence of field definitions.
pub open spec fn fields_view(fields: Seq<FieldDef>) -> Seq<FieldDefView> {
    fields.map_values(|f: FieldDef| f@)
}

impl FieldDef {
    /// A field definition with the given parts.
    pub fn new(name: String, type_signature: String, doc_lines: Vec<String>) -> (def: FieldDef)
        ensures
            def.name == name,
            def.type_signature == type_signature,
            def.doc_lines == doc_lines,
    {
        FieldDef { name, type_signature, doc_lines }
    }
}

/// A record definition, as a mathematical value.
pub struct RecordView {
    pub name: Seq<char>,
    pub fields: Seq<FieldDefView>,
}

/// A record type: the name it is resolved by and its fields in the order
/// declared.
#[derive(Debug, Clone, PartialEq, Eq)]
pub struct RecordDefinition {
    pub name: String,
    pub fields: Vec<FieldDef>,
}

impl View for RecordDefinition {
    type V = RecordView;

    open spec fn view(&self) -> RecordView {
        RecordView { name: self.name@, fields: fields_view(self.fields@) }
    }
}

impl RecordDefinition {
    /// A record definition with the given name and fields.
    pub fn new(name: String, fields: Vec<FieldDef>) -> (def: RecordDefinition)
        ensures
            def.name == name,
            def.fields == fields,
    {
        RecordDefinition { name, fields }
    }
}

} // verus!
