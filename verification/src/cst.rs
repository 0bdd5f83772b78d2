use vstd::prelude::*;

use crate::types::Point;

verus! {

/// One node of a concrete syntax tree: its kind, whether the grammar marks
/// it as named, the field name under which it sits in its parent, its
/// source range, the source text it spans, and its children in order.
pub struct CstNode {
    pub kind: String,
    pub named: bool,
    pub field: Option<String>,
    pub start: Point,
    pub end: Point,
    pub text: String,
    pub children: Vec<CstNode>,
}

/// The first child that sits under the field name `f`, in child order.
pub open spec fn spec_child_by_field(children: Seq<CstNode>, f: Seq<char>) -> Option<CstNode>
    decreases children.len(),
{
    if children.len() == 0 {
        None
    } else {
        match children[0].field {
            Some(g) => if g@ == f {
                Some(children[0])
            } else {
                spec_child_by_field(children.drop_first(), f)
            },
            None => spec_child_by_field(children.drop_first(), f),
        }
    }
}

/// A child found by field lookup is one of the children.
pub proof fn lemma_child_by_field_in(children: Seq<CstNode>, f: Seq<char>)
    ensures
        spec_child_by_field(children, f) matches Some(c) ==> exists|k: int|
            0 <= k < children.len() && children[k] == c,
    decreases children.len(),
{
    if children.len() > 0 {
        let rest = children.drop_first();
        lemma_child_by_field_in(rest, f);
        match spec_child_by_field(children, f) {
            Some(c) => {
                let head_hit = match children[0].field {
                    Some(g) => g@ == f,
                    None => false,
                };
                if head_hit {
                    assert(children[0] == c);
                } else {
                    let k0 = choose|k: int| 0 <= k < rest.len() && rest[k] == c;
                    assert(children[k0 + 1] == c);
                }
            },
            None => {},
        }
    }
}

/// A child found by field lookup sits below its parent in the tree, so
/// recursing into it terminates.
pub proof fn lemma_child_by_field_decreases(n: CstNode, f: Seq<char>)
    ensures
        spec_child_by_field(n.children@, f) matches Some(c) ==> decreases_to!(n => c),
{
    lemma_child_by_field_in(n.children@, f);
    match spec_child_by_field(n.children@, f) {
        Some(c) => {
            let k = choose|k: int| 0 <= k < n.children@.len() && n.children@[k] == c;
            assert(decreases_to!(n.children@ => n.children@[k]));
            assert(decreases_to!(n.children => n.children@));
            assert(decreases_to!(n => n.children));
            assert(decreases_to!(n => c));
        },
        None => {},
    }
}

impl CstNode {
    /// Looks up the first child stored under the field name `f`.
    pub fn child_by_field<'a>(&'a self, f: &str) -> (r: Option<&'a CstNode>)
        ensures
            match r {
                Some(c) => spec_child_by_field(self.children@, f@) == Some(*c),
                None => spec_child_by_field(self.children@, f@) is None,
            },
    {
        let ghost all = self.children@;
        proof {
            assert(all.skip(0) =~= all);
        }
        let mut i: usize = 0;
        while i < self.children.len()
            invariant
                i <= self.children.len(),
                all == self.children@,
                spec_child_by_field(all, f@) == spec_child_by_field(
                    all.skip(i as int),
                    f@,
                ),
            decreases self.children.len() - i,
        {
            let c = &self.children[i];
            proof {
                assert(all.skip(i as int)[0] == all[i as int]);
                assert(all.skip(i as int).drop_first() =~= all.skip(i + 1));
            }
            match &c.field {
                Some(g) => {
                    if *g == f.to_owned() {
                        return Some(c);
                    }
                },
                None => {},
            }
            i = i + 1;
        }
        None
    }

    /// The node's kind equals `k`.
    pub fn is_kind(&self, k: &str) -> (r: bool)
        ensures
            r == (self.kind@ == k@),
    {
        self.kind == k.to_owned()
    }
}

#[verifier::external_type_specification]
#[verifier::external_body]
pub struct ExLanguage(tree_sitter::Language);

#[verifier::external_type_specification]
#[verifier::external_body]
pub struct ExTsNode<'a>(tree_sitter::Node<'a>);

/// Relies on tree_sitter::Node's accessors (kind, is_named, start_position,
/// end_position, byte_range) and tree_sitter::TreeCursor's traversal
/// (goto_first_child, field_name, node, goto_next_sibling) to copy one node
/// and, recursively, its children into the library's own tree type.
#[verifier::external_body]
pub(crate) fn convert_node(n: tree_sitter::Node<'_>, field: Option<String>, code: &str) -> (r:
    CstNode)
{
    let mut children = Vec::new();
    let mut cursor = n.walk();
    if cursor.goto_first_child() {
        loop {
            let f = cursor.field_name().map(str::to_string);
            children.push(convert_node(cursor.node(), f, code));
            if !cursor.goto_next_sibling() { break; }
        }
    }
    let (s, e) = (n.start_position(), n.end_position());
    CstNode { kind: n.kind().to_string(), named: n.is_named(), field,
        start: Point { row: s.row, column: s.column }, end: Point { row: e.row, column: e.column },
        text: code.get(n.byte_range()).unwrap_or("").to_string(), children }
}

} // verus!
