use vstd::prelude::*;

use crate::cst::{spec_child_by_field, CstNode};
use crate::interpret::{
    find_definitions, jumps_view, spec_find_definitions, Error, Jumpable, JumpableV,
};
use crate::types::{Identifier, IdentifierV, Point, SearchParameter};

verus! {

/// The concrete syntax tree that the C grammar assigns to `code`; the
/// grammar is fixed, so the tree is a function of the code alone.
pub uninterp spec fn c_cst(code: Seq<char>) -> Result<CstNode, Error>;

/// Relies on tree_sitter_c::language and tree_sitter::Parser::parse:
/// parsing is deterministic, so the returned tree is the named value
/// `c_cst(code)`.
#[verifier::external_body]
fn c_tree(code: &str) -> (r: Result<CstNode, Error>)
    ensures
        r == c_cst(code@),
{
    crate::interpret::tree(tree_sitter_c::language(), code)
}

/// Shrinks a range by one position on each side: the range of a quoted
/// literal's text without its quotes.
pub fn string_literal_range(r: &core::ops::Range<usize>) -> (res: core::ops::Range<usize>)
    requires
        r.start < usize::MAX,
        r.end >= 1,
    ensures
        res.start == r.start + 1,
        res.end == r.end - 1,
{
    core::ops::Range { start: r.start + 1, end: r.end - 1 }
}

/// The text without its first and last characters: a quoted literal's
/// inner text. Empty when the text is shorter than two characters.
pub open spec fn spec_unquote(s: Seq<char>) -> Seq<char> {
    if s.len() >= 2 {
        s.subrange(1, s.len() - 1)
    } else {
        Seq::empty()
    }
}

/// Strips the first and last characters of a quoted literal's text.
pub fn unquote(s: &String) -> (r: String)
    ensures
        r@ == spec_unquote(s@),
{
    let cs = crate::strutil::chars_of(s.as_str());
    let mut out: Vec<char> = Vec::new();
    if cs.len() >= 2 {
        let rng = string_literal_range(&(core::ops::Range { start: 0, end: cs.len() }));
        let mut i: usize = rng.start;
        while i < rng.end
            invariant
                1 <= i <= rng.end,
                rng.start == 1,
                rng.end == cs.len() - 1,
                cs.len() >= 2,
                cs@ == s@,
                out@ == s@.subrange(1, i as int),
            decreases rng.end - i,
        {
            out.push(cs[i]);
            proof {
                assert(out@ =~= s@.subrange(1, i + 1));
            }
            i = i + 1;
        }
    }
    proof {
        assert(out@ =~= spec_unquote(s@));
    }
    crate::strutil::string_from_chars(&out)
}

/// The children that the grammar marks as named, in order.
pub open spec fn spec_named_children(children: Seq<CstNode>) -> Seq<CstNode>
    decreases children,
{
    if children.len() == 0 {
        Seq::empty()
    } else {
        spec_named_children(children.drop_last()) + (if children.last().named {
            seq![children.last()]
        } else {
            Seq::empty()
        })
    }
}

/// `spec_named_children` distributes over concatenation.
pub proof fn lemma_named_children_concat(s1: Seq<CstNode>, s2: Seq<CstNode>)
    ensures
        spec_named_children(s1 + s2) == spec_named_children(s1) + spec_named_children(s2),
    decreases s2.len(),
{
    if s2.len() == 0 {
        assert(s1 + s2 =~= s1);
        assert(spec_named_children(s1) + spec_named_children(s2) =~= spec_named_children(s1));
    } else {
        lemma_named_children_concat(s1, s2.drop_last());
        assert((s1 + s2).drop_last() =~= s1 + s2.drop_last());
        assert((s1 + s2).last() == s2.last());
        assert(spec_named_children(s1) + spec_named_children(s2) =~= (spec_named_children(s1)
            + spec_named_children(s2.drop_last())) + (if s2.last().named {
            seq![s2.last()]
        } else {
            Seq::<CstNode>::empty()
        }));
    }
}

/// A prefix of the children yields a prefix of the named children.
pub proof fn lemma_named_children_prefix(children: Seq<CstNode>, i: int)
    requires
        0 <= i < children.len(),
    ensures
        spec_named_children(children.take(i + 1)) == spec_named_children(children.take(i)) + (
        if children[i].named {
            seq![children[i]]
        } else {
            Seq::<CstNode>::empty()
        }),
        spec_named_children(children) == spec_named_children(children.take(i + 1))
            + spec_named_children(children.skip(i + 1)),
{
    crate::node_ext::lemma_take_step(children, i);
    assert(spec_named_children(children.take(i + 1)) == spec_named_children(
        children.take(i + 1).drop_last(),
    ) + (if children.take(i + 1).last().named {
        seq![children.take(i + 1).last()]
    } else {
        Seq::<CstNode>::empty()
    }));
    lemma_named_children_concat(children.take(i + 1), children.skip(i + 1));
    assert(children.take(i + 1) + children.skip(i + 1) =~= children);
}

/// Looks up the `k`-th named child of a node.
pub fn named_child<'a>(n: &'a CstNode, k: usize) -> (r: Option<&'a CstNode>)
    ensures
        match r {
            Some(c) => k < spec_named_children(n.children@).len() && spec_named_children(
                n.children@,
            )[k as int] == *c,
            None => k >= spec_named_children(n.children@).len(),
        },
{
    let mut i: usize = 0;
    let mut seen: usize = 0;
    proof {
        assert(spec_named_children(n.children@.take(0)) =~= Seq::<CstNode>::empty());
    }
    while i < n.children.len()
        invariant
            i <= n.children.len(),
            seen == spec_named_children(n.children@.take(i as int)).len(),
            spec_named_children(n.children@.take(i as int)) == spec_named_children(
                n.children@,
            ).take(seen as int),
            seen <= k,
        decreases n.children.len() - i,
    {
        let c = &n.children[i];
        proof {
            lemma_named_children_prefix(n.children@, i as int);
        }
        if c.named {
            if seen == k {
                proof {
                    assert(spec_named_children(n.children@)[k as int] == *c);
                }
                return Some(c);
            }
            seen = seen + 1;
        }
        proof {
            assert(spec_named_children(n.children@.take(i + 1)) =~= spec_named_children(
                n.children@,
            ).take(seen as int));
        }
        i = i + 1;
    }
    proof {
        assert(n.children@.take(n.children@.len() as int) =~= n.children@);
    }
    None
}

/// The `libfuncs` test of one declaration: the declarator chain down to
/// the innermost declarator must exist, and that declarator must name
/// `libfuncs` — only the table bound to `libfuncs` registers built-ins.
pub open spec fn spec_libfuncs_gate(d: CstNode) -> bool {
    if d.kind@ == "init_declarator"@ {
        match spec_child_by_field(d.children@, "declarator"@) {
            Some(d2) => match spec_child_by_field(d2.children@, "declarator"@) {
                Some(d3) => d3.text@ == "libfuncs"@,
                None => false,
            },
            None => false,
        }
    } else {
        false
    }
}

/// The entry one initializer yields: a `{ string literal, identifier }`
/// pair gives the literal's text (quotes still attached) and its start.
pub open spec fn spec_init_pair(vc: CstNode) -> Seq<(Seq<char>, Point)> {
    if vc.kind@ == "initializer_list"@ {
        let named = spec_named_children(vc.children@);
        if named.len() >= 1 && named[0].kind@ == "string_literal"@ && named.len() >= 2
            && named[1].kind@ == "identifier"@ {
            seq![(named[0].text@, named[0].start)]
        } else {
            Seq::empty()
        }
    } else {
        Seq::empty()
    }
}

/// The entries of an initializer list's named children, in order.
pub open spec fn spec_init_items(children: Seq<CstNode>) -> Seq<(Seq<char>, Point)>
    decreases children,
{
    if children.len() == 0 {
        Seq::empty()
    } else {
        spec_init_items(children.drop_last()) + (if children.last().named {
            spec_init_pair(children.last())
        } else {
            Seq::empty()
        })
    }
}

/// The `{nasl name, c symbol}` entries a declaration node yields: only a
/// declaration whose declarator passes the `libfuncs` test and whose value
/// is an initializer list contributes.
pub open spec fn spec_naslfuncnames(node: CstNode) -> Seq<(Seq<char>, Point)> {
    if node.kind@ == "declaration"@ {
        match spec_child_by_field(node.children@, "declarator"@) {
            Some(d) => if spec_libfuncs_gate(d) {
                match spec_child_by_field(d.children@, "value"@) {
                    Some(v) => if v.kind@ == "initializer_list"@ {
                        spec_init_items(v.children@)
                    } else {
                        Seq::empty()
                    },
                    None => Seq::empty(),
                }
            } else {
                Seq::empty()
            },
            None => Seq::empty(),
        }
    } else {
        Seq::empty()
    }
}

/// Element-wise view of a sequence of raw name entries.
pub open spec fn raw_names_view(s: Seq<(String, Point)>) -> Seq<(Seq<char>, Point)> {
    s.map_values(|p: (String, Point)| (p.0@, p.1))
}

/// Reads the entry of one initializer, when it has the expected shape.
fn init_pair(vc: &CstNode) -> (r: Option<(String, Point)>)
    ensures
        match r {
            Some(p) => spec_init_pair(*vc) == seq![(p.0@, p.1)],
            None => spec_init_pair(*vc) == Seq::<(Seq<char>, Point)>::empty(),
        },
{
    if !vc.is_kind("initializer_list") {
        return None;
    }
    match named_child(vc, 0) {
        Some(sl) => {
            if sl.is_kind("string_literal") {
                match named_child(vc, 1) {
                    Some(idn) => {
                        if idn.is_kind("identifier") {
                            Some((sl.text.clone(), sl.start))
                        } else {
                            None
                        }
                    },
                    None => None,
                }
            } else {
                None
            }
        },
        None => None,
    }
}

/// Collects the `{nasl name, c symbol}` entries of one declaration node.
pub fn naslfuncnames(node: &CstNode) -> (r: Vec<(String, Point)>)
    ensures
        raw_names_view(r@) == spec_naslfuncnames(*node),
{
    let mut r: Vec<(String, Point)> = Vec::new();
    proof {
        assert(raw_names_view(r@) =~= Seq::<(Seq<char>, Point)>::empty());
    }
    if !node.is_kind("declaration") {
        return r;
    }
    let d = match node.child_by_field("declarator") {
        Some(d) => d,
        None => {
            return r;
        },
    };
    let gate_ok: bool = if d.is_kind("init_declarator") {
        match d.child_by_field("declarator") {
            Some(d2) => match d2.child_by_field("declarator") {
                Some(d3) => d3.text == "libfuncs".to_owned(),
                None => false,
            },
            None => false,
        }
    } else {
        false
    };
    if !gate_ok {
        return r;
    }
    let v = match d.child_by_field("value") {
        Some(v) => v,
        None => {
            return r;
        },
    };
    if !v.is_kind("initializer_list") {
        return r;
    }
    let mut i: usize = 0;
    while i < v.children.len()
        invariant
            i <= v.children.len(),
            raw_names_view(r@) == spec_init_items(v.children@.take(i as int)),
        decreases v.children.len() - i,
    {
        let ghost prev = r@;
        let vc = &v.children[i];
        if vc.named {
            match init_pair(vc) {
                Some(p) => {
                    let ghost pv = (p.0@, p.1);
                    r.push(p);
                    proof {
                        assert(raw_names_view(r@) =~= raw_names_view(prev).push(pv));
                    }
                },
                None => {},
            }
        }
        proof {
            crate::node_ext::lemma_take_step(v.children@, i as int);
            assert(raw_names_view(r@) =~= spec_init_items(v.children@.take(i + 1)));
        }
        i = i + 1;
    }
    proof {
        assert(v.children@.take(v.children@.len() as int) =~= v.children@);
    }
    r
}

/// The definitions the raw entries stand for: one function definition per
/// entry, named by the literal's text without quotes, located at the
/// literal's start.
pub open spec fn spec_builtin_defs(pairs: Seq<(Seq<char>, Point)>) -> Seq<JumpableV> {
    pairs.map_values(
        |p: (Seq<char>, Point)|
            JumpableV::FunDef(
                IdentifierV {
                    start: p.1,
                    end: Point { row: 0, column: 0 },
                    name: Some(spec_unquote(p.0)),
                },
                Seq::empty(),
            ),
    )
}

/// The built-in definitions of a whole C file: what each named child of the
/// root contributes, in order.
pub open spec fn spec_builtin_items(children: Seq<CstNode>) -> Seq<JumpableV>
    decreases children,
{
    if children.len() == 0 {
        Seq::empty()
    } else {
        spec_builtin_items(children.drop_last()) + (if children.last().named {
            spec_builtin_defs(spec_naslfuncnames(children.last()))
        } else {
            Seq::empty()
        })
    }
}

/// The built-in NASL functions registered in a C source file's `libfuncs`
/// table, each a synthetic function definition pointing into that file.
#[derive(Debug)]
pub struct OpenVASInBuildFunctions {
    definitions: Vec<Jumpable>,
    origin: String,
}

/// The mathematical value of an `OpenVASInBuildFunctions`.
pub struct OpenVASBuiltinsV {
    pub origin: Seq<char>,
    pub definitions: Seq<JumpableV>,
}

impl View for OpenVASInBuildFunctions {
    type V = OpenVASBuiltinsV;

    closed spec fn view(&self) -> OpenVASBuiltinsV {
        OpenVASBuiltinsV { origin: self.origin@, definitions: jumps_view(self.definitions@) }
    }
}

impl Clone for OpenVASInBuildFunctions {
    fn clone(&self) -> (r: Self)
        ensures
            r@ == self@,
    {
        OpenVASInBuildFunctions {
            definitions: crate::interpret::clone_jumps(&self.definitions),
            origin: self.origin.clone(),
        }
    }
}

/// Appends one definition per raw entry to `dst`.
fn push_builtins(dst: &mut Vec<Jumpable>, pairs: &Vec<(String, Point)>)
    ensures
        jumps_view(final (dst)@) == jumps_view(old(dst)@) + spec_builtin_defs(
            raw_names_view(pairs@),
        ),
{
    let ghost d0 = dst@;
    let mut k: usize = 0;
    proof {
        assert(raw_names_view(pairs@).take(0) =~= Seq::<(Seq<char>, Point)>::empty());
        assert(jumps_view(dst@) =~= jumps_view(d0) + spec_builtin_defs(
            raw_names_view(pairs@).take(0),
        ));
    }
    while k < pairs.len()
        invariant
            k <= pairs.len(),
            jumps_view(dst@) == jumps_view(d0) + spec_builtin_defs(
                raw_names_view(pairs@).take(k as int),
            ),
        decreases pairs.len() - k,
    {
        let ghost prev = dst@;
        let name = unquote(&pairs[k].0);
        let jmp = Jumpable::FunDef(
            Identifier { start: pairs[k].1, end: Point::default(), identifier: Some(name) },
            Vec::new(),
        );
        let ghost jval = jmp;
        dst.push(jmp);
        proof {
            crate::interpret::lemma_jumps_view_push(prev, jval);
            assert(crate::interpret::ids_view(Seq::<Identifier>::empty()) =~= Seq::<
                IdentifierV,
            >::empty());
            assert(raw_names_view(pairs@).len() == pairs@.len());
            assert(raw_names_view(pairs@)[k as int] == (pairs@[k as int].0@, pairs@[k as int].1));
            assert(jumps_view(dst@) =~= jumps_view(d0) + spec_builtin_defs(
                raw_names_view(pairs@).take(k + 1),
            ));
        }
        k = k + 1;
    }
    proof {
        assert(raw_names_view(pairs@).take(pairs@.len() as int) =~= raw_names_view(pairs@));
    }
}

impl OpenVASInBuildFunctions {
    /// Parses a C source file's text and gathers the built-in definitions
    /// that its `libfuncs` table registers.
    pub fn new(origin: String, code: String) -> (r: Result<OpenVASInBuildFunctions, Error>)
        ensures
            match c_cst(code@) {
                Ok(root) => match r {
                    Ok(o) => o@.origin == origin@ && o@.definitions == spec_builtin_items(
                        root.children@,
                    ),
                    Err(_) => false,
                },
                Err(e) => match r {
                    Ok(_) => false,
                    Err(e2) => e2 == e,
                },
            },
    {
        let root = match c_tree(code.as_str()) {
            Ok(t) => t,
            Err(e) => {
                return Err(e);
            },
        };
        let mut definitions: Vec<Jumpable> = Vec::new();
        proof {
            assert(jumps_view(definitions@) =~= spec_builtin_items(root.children@.take(0)));
        }
        let mut i: usize = 0;
        while i < root.children.len()
            invariant
                i <= root.children.len(),
                jumps_view(definitions@) == spec_builtin_items(root.children@.take(i as int)),
            decreases root.children.len() - i,
        {
            let c = &root.children[i];
            if c.named {
                let pairs = naslfuncnames(c);
                push_builtins(&mut definitions, &pairs);
            }
            proof {
                crate::node_ext::lemma_take_step(root.children@, i as int);
                assert(jumps_view(definitions@) =~= spec_builtin_items(
                    root.children@.take(i + 1),
                ));
            }
            i = i + 1;
        }
        proof {
            assert(root.children@.take(root.children@.len() as int) =~= root.children@);
        }
        Ok(OpenVASInBuildFunctions { definitions, origin })
    }

    /// Resolves a query against the built-in table: every matching
    /// definition, paired with the C file's path.
    pub fn find_origin_location(&self, sp: &SearchParameter) -> (r: Vec<(String, Point)>)
        ensures
            pairs_view(r@) == spec_origin_points(
                self@.origin,
                spec_find_definitions(self@.definitions, self@.origin, sp@),
            ),
    {
        let found = find_definitions(&self.definitions, &self.origin, sp);
        let mut r: Vec<(String, Point)> = Vec::new();
        let ghost ids = crate::interpret::ids_view(found@);
        let mut i: usize = 0;
        proof {
            assert(r@ =~= Seq::<(String, Point)>::empty());
            assert(pairs_view(r@) =~= spec_origin_points(self@.origin, ids).take(0));
        }
        while i < found.len()
            invariant
                i <= found.len(),
                ids == crate::interpret::ids_view(found@),
                ids.len() == found@.len(),
                pairs_view(r@) == spec_origin_points(self@.origin, ids).take(i as int),
                self@.origin == self.origin@,
            decreases found.len() - i,
        {
            let ghost prev = r@;
            r.push((self.origin.clone(), found[i].start));
            proof {
                assert(crate::interpret::ids_view(found@)[i as int] == found@[i as int]@);
                assert(pairs_view(prev).len() == prev.len());
                assert(r@.len() == i + 1);
                assert(r@[i as int].0@ == self@.origin);
                assert(r@[i as int].1 == ids[i as int].start);
                assert(spec_origin_points(self@.origin, ids)[i as int] == (
                    self@.origin,
                    ids[i as int].start,
                ));
                assert(pairs_view(r@) =~= spec_origin_points(self@.origin, ids).take(i + 1));
            }
            i = i + 1;
        }
        proof {
            assert(spec_origin_points(self@.origin, ids).take(ids.len() as int)
                =~= spec_origin_points(self@.origin, ids));
        }
        r
    }
}

/// Element-wise view of a sequence of located names.
pub open spec fn pairs_view(s: Seq<(String, Point)>) -> Seq<(Seq<char>, Point)> {
    s.map_values(|p: (String, Point)| (p.0@, p.1))
}

/// Every identifier's start position, paired with one origin path.
pub open spec fn spec_origin_points(o: Seq<char>, ids: Seq<IdentifierV>) -> Seq<(Seq<char>, Point)> {
    ids.map_values(|i: IdentifierV| (o, i.start))
}

} // verus!
