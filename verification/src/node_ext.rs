use vstd::prelude::*;

use crate::cst::{spec_child_by_field, CstNode};
use crate::interpret::{args_view, ids_view, jumps_view, DefinitionsV, Jumpable, JumpableV};
use crate::types::{option_view, Argument, ArgumentV, Identifier, IdentifierV};

verus! {

/// Taking one more element appends exactly that element.
pub proof fn lemma_take_step<T>(s: Seq<T>, i: int)
    requires
        0 <= i < s.len(),
    ensures
        s.take(i + 1).drop_last() =~= s.take(i),
        s.take(i + 1).last() == s[i],
{
}

// The extraction rules: what the symbol table of a node is, stated as
// mathematical functions over the library's syntax tree. The executable
// walkers below are proved to return exactly these values.

/// The identifier a leaf node stands for, when its kind is `identifier`.
pub open spec fn spec_identifier(n: CstNode) -> Option<IdentifierV> {
    if n.kind@ == "identifier"@ {
        Some(IdentifierV { start: n.start, end: n.end, name: Some(n.text@) })
    } else {
        None
    }
}

/// The first child that the grammar marks as named.
pub open spec fn spec_first_named(children: Seq<CstNode>) -> Option<CstNode>
    decreases children.len(),
{
    if children.len() == 0 {
        None
    } else if children[0].named {
        Some(children[0])
    } else {
        spec_first_named(children.drop_first())
    }
}

/// The parameter names among a parameter list's named children, in order.
pub open spec fn spec_param_items(children: Seq<CstNode>) -> Seq<IdentifierV>
    decreases children,
{
    if children.len() == 0 {
        Seq::empty()
    } else {
        spec_param_items(children.drop_last()) + (if children.last().named {
            match spec_identifier(children.last()) {
                Some(id) => seq![id],
                None => Seq::empty(),
            }
        } else {
            Seq::empty()
        })
    }
}

/// The parameters of a `parameter_list` node; empty for any other node.
pub open spec fn spec_parameter_list(n: CstNode) -> Seq<IdentifierV> {
    if n.kind@ == "parameter_list"@ {
        spec_param_items(n.children@)
    } else {
        Seq::empty()
    }
}

/// The function definition a `function_declarator` node yields: the
/// declared name, the span of the whole surrounding definition (`parent`),
/// and the parameter list.
pub open spec fn spec_func_declarator(n: CstNode, parent: CstNode) -> Option<JumpableV> {
    if n.kind@ == "function_declarator"@ {
        match spec_child_by_field(n.children@, "declarator"@) {
            Some(c) => match spec_identifier(c) {
                Some(x) => Some(
                    JumpableV::FunDef(
                        IdentifierV { start: parent.start, end: parent.end, name: x.name },
                        match spec_child_by_field(n.children@, "parameters"@) {
                            Some(p) => spec_parameter_list(p),
                            None => Seq::empty(),
                        },
                    ),
                ),
                None => None,
            },
            None => None,
        }
    } else {
        None
    }
}

/// The string-literal argument a node yields: its first named child must be
/// a `string_fragment`, whose text is the literal without quotes.
pub open spec fn spec_string_literal(n: CstNode) -> Option<ArgumentV> {
    if n.kind@ == "string_literal"@ {
        match spec_first_named(n.children@) {
            Some(c) => if c.kind@ == "string_fragment"@ {
                Some(
                    ArgumentV::StringLiteral(
                        IdentifierV { start: c.start, end: c.end, name: Some(c.text@) },
                    ),
                )
            } else {
                None
            },
            None => None,
        }
    } else {
        None
    }
}

/// The string-literal arguments among an argument list's named children.
pub open spec fn spec_arg_items(children: Seq<CstNode>) -> Seq<ArgumentV>
    decreases children,
{
    if children.len() == 0 {
        Seq::empty()
    } else {
        spec_arg_items(children.drop_last()) + (if children.last().named {
            match spec_string_literal(children.last()) {
                Some(a) => seq![a],
                None => Seq::empty(),
            }
        } else {
            Seq::empty()
        })
    }
}

/// The arguments of an `argument_list` node; empty for any other node.
pub open spec fn spec_argument_list(n: CstNode) -> Seq<ArgumentV> {
    if n.kind@ == "argument_list"@ {
        spec_arg_items(n.children@)
    } else {
        Seq::empty()
    }
}

/// The call-site entry of a `call_expression` node: the callee must be an
/// identifier under the `function` field; the `arguments` field, when
/// present, supplies the string-literal arguments.
pub open spec fn spec_call_expression(n: CstNode) -> Seq<JumpableV> {
    if n.kind@ == "call_expression"@ {
        match spec_child_by_field(n.children@, "function"@) {
            Some(f) => match spec_identifier(f) {
                Some(id) => match spec_child_by_field(n.children@, "arguments"@) {
                    Some(a) => seq![JumpableV::CallExpression(id, spec_argument_list(a))],
                    None => seq![JumpableV::CallExpression(id, Seq::empty())],
                },
                None => Seq::empty(),
            },
            None => Seq::empty(),
        }
    } else {
        Seq::empty()
    }
}

/// The assignment entry of an `assignment_expression` node: only a plain
/// identifier on the `left` field counts as a definition.
pub open spec fn spec_assignment_expression(n: CstNode) -> Seq<JumpableV> {
    if n.kind@ == "assignment_expression"@ {
        match spec_child_by_field(n.children@, "left"@) {
            Some(c) => match spec_identifier(c) {
                Some(id) => seq![JumpableV::Assign(id)],
                None => Seq::empty(),
            },
            None => Seq::empty(),
        }
    } else {
        Seq::empty()
    }
}

/// The entries contributed by an expression statement's named children:
/// call sites and assignments, in child order.
pub open spec fn spec_expr_items(children: Seq<CstNode>) -> Seq<JumpableV>
    decreases children,
{
    if children.len() == 0 {
        Seq::empty()
    } else {
        spec_expr_items(children.drop_last()) + (if children.last().named {
            spec_call_expression(children.last()) + spec_assignment_expression(children.last())
        } else {
            Seq::empty()
        })
    }
}

/// The entries of an `expression_statement` node; empty for any other node.
pub open spec fn spec_expression_statement(n: CstNode) -> Seq<JumpableV> {
    if n.kind@ == "expression_statement"@ {
        spec_expr_items(n.children@)
    } else {
        Seq::empty()
    }
}

/// The assignments found under a parenthesized expression's named children,
/// unwrapping nested binary and parenthesized expressions.
pub open spec fn spec_paren_items(children: Seq<CstNode>) -> Seq<JumpableV>
    decreases children,
{
    if children.len() == 0 {
        Seq::empty()
    } else {
        spec_paren_items(children.drop_last()) + (if children.last().named {
            spec_binary_expression(children.last()) + spec_assignment_expression(children.last())
                + spec_parenthesized_expression(children.last())
        } else {
            Seq::empty()
        })
    }
}

/// The assignments of a `parenthesized_expression` node; empty otherwise.
pub open spec fn spec_parenthesized_expression(n: CstNode) -> Seq<JumpableV>
    decreases n,
{
    if n.kind@ == "parenthesized_expression"@ {
        spec_paren_items(n.children@)
    } else {
        Seq::empty()
    }
}

/// The assignments found under a binary expression's named children,
/// unwrapping nested binary, assignment, and parenthesized expressions.
pub open spec fn spec_binary_items(children: Seq<CstNode>) -> Seq<JumpableV>
    decreases children,
{
    if children.len() == 0 {
        Seq::empty()
    } else {
        spec_binary_items(children.drop_last()) + (if children.last().named {
            spec_binary_expression(children.last()) + spec_assignment_expression(children.last())
                + spec_parenthesized_expression(children.last())
        } else {
            Seq::empty()
        })
    }
}

/// The assignments of a `binary_expression` node; empty otherwise.
pub open spec fn spec_binary_expression(n: CstNode) -> Seq<JumpableV>
    decreases n,
{
    if n.kind@ == "binary_expression"@ {
        spec_binary_items(n.children@)
    } else {
        Seq::empty()
    }
}

/// Reads the identifier a leaf node stands for.
pub fn identifier(n: &CstNode) -> (r: Option<Identifier>)
    ensures
        option_view(r) == spec_identifier(*n),
{
    if n.is_kind("identifier") {
        Some(Identifier { start: n.start, end: n.end, identifier: Some(n.text.clone()) })
    } else {
        None
    }
}

/// Collects the parameter names of a `parameter_list` node.
pub fn parameter_list(n: &CstNode) -> (r: Vec<Identifier>)
    ensures
        ids_view(r@) == spec_parameter_list(*n),
{
    let mut r: Vec<Identifier> = Vec::new();
    if !n.is_kind("parameter_list") {
        proof {
            assert(ids_view(r@) =~= spec_parameter_list(*n));
        }
        return r;
    }
    let mut i: usize = 0;
    while i < n.children.len()
        invariant
            i <= n.children.len(),
            n.kind@ == "parameter_list"@,
            ids_view(r@) == spec_param_items(n.children@.take(i as int)),
        decreases n.children.len() - i,
    {
        let ghost prev = r@;
        let c = &n.children[i];
        if c.named {
            match identifier(c) {
                Some(id) => {
                    r.push(id);
                },
                None => {},
            }
        }
        proof {
            lemma_take_step(n.children@, i as int);
            assert(ids_view(r@) =~= spec_param_items(n.children@.take(i + 1)));
        }
        i = i + 1;
    }
    proof {
        assert(n.children@.take(n.children@.len() as int) =~= n.children@);
    }
    r
}

/// Builds the function definition a `function_declarator` node declares,
/// spanning the whole surrounding `parent` definition.
pub fn func_declarator(n: &CstNode, parent: &CstNode) -> (r: Option<crate::interpret::Jumpable>)
    ensures
        match r {
            Some(j) => spec_func_declarator(*n, *parent) == Some(crate::interpret::jumpable_view(
                j,
            )),
            None => spec_func_declarator(*n, *parent) is None,
        },
{
    if !n.is_kind("function_declarator") {
        return None;
    }
    match n.child_by_field("declarator") {
        Some(c) => match identifier(c) {
            Some(x) => {
                let params: Vec<Identifier> = match n.child_by_field("parameters") {
                    Some(p) => parameter_list(p),
                    None => Vec::new(),
                };
                proof {
                    assert(ids_view(Seq::<Identifier>::empty()) =~= Seq::<IdentifierV>::empty());
                }
                Some(
                    crate::interpret::Jumpable::FunDef(
                        Identifier { start: parent.start, end: parent.end, identifier: x.identifier },
                        params,
                    ),
                )
            },
            None => None,
        },
        None => None,
    }
}

/// Finds the first child that the grammar marks as named.
pub fn first_named(n: &CstNode) -> (r: Option<&CstNode>)
    ensures
        match r {
            Some(c) => spec_first_named(n.children@) == Some(*c),
            None => spec_first_named(n.children@) is None,
        },
{
    proof {
        assert(n.children@.skip(0) =~= n.children@);
    }
    let mut i: usize = 0;
    while i < n.children.len()
        invariant
            i <= n.children.len(),
            spec_first_named(n.children@) == spec_first_named(n.children@.skip(i as int)),
        decreases n.children.len() - i,
    {
        proof {
            assert(n.children@.skip(i as int)[0] == n.children@[i as int]);
            assert(n.children@.skip(i as int).drop_first() =~= n.children@.skip(i + 1));
        }
        let c = &n.children[i];
        if c.named {
            return Some(c);
        }
        i = i + 1;
    }
    None
}

/// Reads the string-literal argument a node yields, if any.
pub fn string_literal(n: &CstNode) -> (r: Option<Argument>)
    ensures
        option_view(r) == spec_string_literal(*n),
{
    if !n.is_kind("string_literal") {
        return None;
    }
    match first_named(n) {
        Some(c) => {
            if c.is_kind("string_fragment") {
                Some(
                    Argument::StringLiteral(
                        Identifier { start: c.start, end: c.end, identifier: Some(c.text.clone()) },
                    ),
                )
            } else {
                None
            }
        },
        None => None,
    }
}

/// Collects the string-literal arguments of an `argument_list` node.
pub fn argument_list(n: &CstNode) -> (r: Vec<Argument>)
    ensures
        args_view(r@) == spec_argument_list(*n),
{
    let mut r: Vec<Argument> = Vec::new();
    if !n.is_kind("argument_list") {
        proof {
            assert(args_view(r@) =~= spec_argument_list(*n));
        }
        return r;
    }
    let mut i: usize = 0;
    while i < n.children.len()
        invariant
            i <= n.children.len(),
            n.kind@ == "argument_list"@,
            args_view(r@) == spec_arg_items(n.children@.take(i as int)),
        decreases n.children.len() - i,
    {
        let c = &n.children[i];
        if c.named {
            match string_literal(c) {
                Some(a) => {
                    r.push(a);
                },
                None => {},
            }
        }
        proof {
            lemma_take_step(n.children@, i as int);
            assert(args_view(r@) =~= spec_arg_items(n.children@.take(i + 1)));
        }
        i = i + 1;
    }
    proof {
        assert(n.children@.take(n.children@.len() as int) =~= n.children@);
    }
    r
}

/// The identifiers bound by the assignment entries of a sequence, in order.
pub open spec fn spec_assigns_of(s: Seq<JumpableV>) -> Seq<IdentifierV>
    decreases s,
{
    if s.len() == 0 {
        Seq::empty()
    } else {
        spec_assigns_of(s.drop_last()) + (match s.last() {
            JumpableV::Assign(id) => seq![id],
            _ => Seq::empty(),
        })
    }
}

/// Moves the entries of `src` to the end of `dst`.
pub fn extend_jumps(dst: &mut Vec<Jumpable>, src: Vec<Jumpable>)
    ensures
        jumps_view(final (dst)@) == jumps_view(old(dst)@) + jumps_view(src@),
{
    let ghost d0 = dst@;
    let ghost s0 = src@;
    let mut src = src;
    dst.append(&mut src);
    proof {
        crate::interpret::lemma_jumps_view_concat(d0, s0);
    }
}

/// Builds the call-site entry of a `call_expression` node.
pub fn call_expression(n: &CstNode) -> (r: Vec<Jumpable>)
    ensures
        jumps_view(r@) == spec_call_expression(*n),
{
    let mut r: Vec<Jumpable> = Vec::new();
    proof {
        assert(jumps_view(r@) =~= Seq::<JumpableV>::empty());
    }
    if !n.is_kind("call_expression") {
        return r;
    }
    match n.child_by_field("function") {
        Some(f) => match identifier(f) {
            Some(id) => {
                let args: Vec<Argument> = match n.child_by_field("arguments") {
                    Some(a) => argument_list(a),
                    None => Vec::new(),
                };
                proof {
                    assert(args_view(Seq::<Argument>::empty()) =~= Seq::<ArgumentV>::empty());
                }
                let jmp = Jumpable::CallExpression(id, args);
                let ghost jval = jmp;
                r.push(jmp);
                proof {
                    crate::interpret::lemma_jumps_view_push(Seq::<Jumpable>::empty(), jval);
                    assert(r@ =~= Seq::<Jumpable>::empty().push(jval));
                    assert(jumps_view(r@) =~= spec_call_expression(*n));
                }
            },
            None => {},
        },
        None => {},
    }
    r
}

/// Builds the assignment entry of an `assignment_expression` node.
pub fn assignment_expression(n: &CstNode) -> (r: Vec<Jumpable>)
    ensures
        jumps_view(r@) == spec_assignment_expression(*n),
{
    let mut r: Vec<Jumpable> = Vec::new();
    proof {
        assert(jumps_view(r@) =~= Seq::<JumpableV>::empty());
    }
    if !n.is_kind("assignment_expression") {
        return r;
    }
    match n.child_by_field("left") {
        Some(c) => match identifier(c) {
            Some(id) => {
                let jmp = Jumpable::Assign(id);
                let ghost jval = jmp;
                r.push(jmp);
                proof {
                    crate::interpret::lemma_jumps_view_push(Seq::<Jumpable>::empty(), jval);
                    assert(r@ =~= Seq::<Jumpable>::empty().push(jval));
                    assert(jumps_view(r@) =~= spec_assignment_expression(*n));
                }
            },
            None => {},
        },
        None => {},
    }
    r
}

/// Collects the entries of an `expression_statement` node: call sites and
/// assignments among its named children.
pub fn expression_statement(n: &CstNode) -> (r: Vec<Jumpable>)
    ensures
        jumps_view(r@) == spec_expression_statement(*n),
{
    let mut r: Vec<Jumpable> = Vec::new();
    proof {
        assert(jumps_view(r@) =~= Seq::<JumpableV>::empty());
    }
    if !n.is_kind("expression_statement") {
        return r;
    }
    let mut i: usize = 0;
    while i < n.children.len()
        invariant
            i <= n.children.len(),
            n.kind@ == "expression_statement"@,
            jumps_view(r@) == spec_expr_items(n.children@.take(i as int)),
        decreases n.children.len() - i,
    {
        let c = &n.children[i];
        if c.named {
            extend_jumps(&mut r, call_expression(c));
            extend_jumps(&mut r, assignment_expression(c));
        }
        proof {
            lemma_take_step(n.children@, i as int);
            assert(jumps_view(r@) =~= spec_expr_items(n.children@.take(i + 1)));
        }
        i = i + 1;
    }
    proof {
        assert(n.children@.take(n.children@.len() as int) =~= n.children@);
    }
    r
}

/// Collects the assignments bound inside a `parenthesized_expression` node,
/// unwrapping nested binary and parenthesized expressions.
pub fn parenthesized_expression(n: &CstNode) -> (r: Vec<Jumpable>)
    ensures
        jumps_view(r@) == spec_parenthesized_expression(*n),
    decreases *n, 1int,
{
    let mut r: Vec<Jumpable> = Vec::new();
    proof {
        assert(jumps_view(r@) =~= Seq::<JumpableV>::empty());
    }
    if !n.is_kind("parenthesized_expression") {
        return r;
    }
    let mut i: usize = 0;
    while i < n.children.len()
        invariant
            i <= n.children.len(),
            n.kind@ == "parenthesized_expression"@,
            jumps_view(r@) == spec_paren_items(n.children@.take(i as int)),
        decreases n.children.len() - i,
    {
        let c = &n.children[i];
        if c.named {
            extend_jumps(&mut r, binary_expression(c));
            extend_jumps(&mut r, assignment_expression(c));
            extend_jumps(&mut r, parenthesized_expression(c));
        }
        proof {
            lemma_take_step(n.children@, i as int);
            assert(jumps_view(r@) =~= spec_paren_items(n.children@.take(i + 1)));
        }
        i = i + 1;
    }
    proof {
        assert(n.children@.take(n.children@.len() as int) =~= n.children@);
    }
    r
}

/// Collects the assignments bound inside a `binary_expression` node,
/// unwrapping nested binary and parenthesized expressions.
pub fn binary_expression(n: &CstNode) -> (r: Vec<Jumpable>)
    ensures
        jumps_view(r@) == spec_binary_expression(*n),
    decreases *n, 0int,
{
    let mut r: Vec<Jumpable> = Vec::new();
    proof {
        assert(jumps_view(r@) =~= Seq::<JumpableV>::empty());
    }
    if !n.is_kind("binary_expression") {
        return r;
    }
    let mut i: usize = 0;
    while i < n.children.len()
        invariant
            i <= n.children.len(),
            n.kind@ == "binary_expression"@,
            jumps_view(r@) == spec_binary_items(n.children@.take(i as int)),
        decreases n.children.len() - i,
    {
        let c = &n.children[i];
        if c.named {
            extend_jumps(&mut r, binary_expression(c));
            extend_jumps(&mut r, assignment_expression(c));
            extend_jumps(&mut r, parenthesized_expression(c));
        }
        proof {
            lemma_take_step(n.children@, i as int);
            assert(jumps_view(r@) =~= spec_binary_items(n.children@.take(i + 1)));
        }
        i = i + 1;
    }
    proof {
        assert(n.children@.take(n.children@.len() as int) =~= n.children@);
    }
    r
}

/// Keeps the identifiers bound by the assignment entries, in order.
pub fn assigns_of(v: &Vec<Jumpable>) -> (r: Vec<Identifier>)
    ensures
        ids_view(r@) == spec_assigns_of(jumps_view(v@)),
{
    let mut r: Vec<Identifier> = Vec::new();
    proof {
        assert(ids_view(r@) =~= Seq::<IdentifierV>::empty());
        assert(jumps_view(v@.take(0)) =~= Seq::<JumpableV>::empty());
    }
    let mut i: usize = 0;
    while i < v.len()
        invariant
            i <= v.len(),
            ids_view(r@) == spec_assigns_of(jumps_view(v@.take(i as int))),
        decreases v.len() - i,
    {
        match &v[i] {
            Jumpable::Assign(id) => {
                r.push(id.clone());
            },
            _ => {},
        }
        proof {
            lemma_take_step(v@, i as int);
            crate::interpret::lemma_jumps_view_push(v@.take(i as int), v@[i as int]);
            assert(v@.take(i as int).push(v@[i as int]) =~= v@.take(i + 1));
            let s = jumps_view(v@.take(i as int));
            let jv = crate::interpret::jumpable_view(v@[i as int]);
            assert(s.push(jv).drop_last() =~= s);
            assert(s.push(jv).last() == jv);
            assert(ids_view(r@) =~= spec_assigns_of(jumps_view(v@.take(i + 1))));
        }
        i = i + 1;
    }
    proof {
        assert(v@.take(v@.len() as int) =~= v@);
    }
    r
}

/// The block entry of a `compound_statement` node: an anonymous range over
/// the whole statement, holding the statement's own symbol table.
pub open spec fn spec_compound_statement(origin: Seq<char>, n: CstNode) -> Seq<JumpableV>
    decreases n, 2int,
{
    if n.kind@ == "compound_statement"@ {
        seq![
            JumpableV::Block(
                IdentifierV { start: n.start, end: n.end, name: None },
                spec_defs_of(origin, n),
            ),
        ]
    } else {
        Seq::empty()
    }
}

/// The whole symbol table extracted for a root or block node: every entry
/// in source order, and the include names those entries yield.
pub open spec fn spec_defs_of(origin: Seq<char>, n: CstNode) -> DefinitionsV
    decreases n, 1int,
{
    DefinitionsV {
        origin: origin,
        jumps: spec_jumpables(origin, n),
        includes: crate::interpret::spec_includes(spec_jumpables(origin, n)),
    }
}

/// The entries a function definition's named children yield: the declared
/// function (spanning the whole definition `parent`) and the block of its
/// body, in child order.
pub open spec fn spec_fd_items(origin: Seq<char>, parent: CstNode, children: Seq<CstNode>) -> Seq<
    JumpableV,
>
    decreases children, 0int,
{
    if children.len() == 0 {
        Seq::empty()
    } else {
        spec_fd_items(origin, parent, children.drop_last()) + (if children.last().named {
            match spec_func_declarator(children.last(), parent) {
                Some(fd) => seq![fd],
                None => spec_compound_statement(origin, children.last()),
            }
        } else {
            Seq::empty()
        })
    }
}

/// The entries of a `function_definition` node; empty for any other node.
pub open spec fn spec_func_def(origin: Seq<char>, n: CstNode) -> Seq<JumpableV>
    decreases n, 3int,
{
    if n.kind@ == "function_definition"@ {
        spec_fd_items(origin, n, n.children@)
    } else {
        Seq::empty()
    }
}

/// The entries of an `if_statement` node: one binder spanning the whole
/// statement with the assignments of its condition, then the consequence's
/// entries, then the alternative's (itself possibly an if statement).
pub open spec fn spec_if_statement(origin: Seq<char>, n: CstNode) -> Seq<JumpableV>
    decreases n, 3int
        via spec_if_statement_decreases
{
    if n.kind@ == "if_statement"@ {
        (match spec_child_by_field(n.children@, "condition"@) {
            Some(c) => seq![
                JumpableV::IfDef(
                    IdentifierV { start: n.start, end: n.end, name: None },
                    spec_assigns_of(spec_parenthesized_expression(c)),
                ),
            ],
            None => Seq::empty(),
        }) + (match spec_child_by_field(n.children@, "consequence"@) {
            Some(c) => spec_compound_statement(origin, c) + spec_expression_statement(c),
            None => Seq::empty(),
        }) + (match spec_child_by_field(n.children@, "alternative"@) {
            Some(c) => spec_if_statement(origin, c) + spec_compound_statement(origin, c)
                + spec_expression_statement(c),
            None => Seq::empty(),
        })
    } else {
        Seq::empty()
    }
}

#[via_fn]
proof fn spec_if_statement_decreases(origin: Seq<char>, n: CstNode) {
    crate::cst::lemma_child_by_field_decreases(n, "consequence"@);
    crate::cst::lemma_child_by_field_decreases(n, "alternative"@);
}

/// The entries contributed by the named children of a root or block node:
/// function definitions, expression statements, nested blocks, and if
/// statements, in child order.
pub open spec fn spec_jump_items(origin: Seq<char>, children: Seq<CstNode>) -> Seq<JumpableV>
    decreases children, 0int,
{
    if children.len() == 0 {
        Seq::empty()
    } else {
        spec_jump_items(origin, children.drop_last()) + (if children.last().named {
            spec_func_def(origin, children.last()) + spec_expression_statement(children.last())
                + spec_compound_statement(origin, children.last()) + spec_if_statement(
                origin,
                children.last(),
            )
        } else {
            Seq::empty()
        })
    }
}

/// Every entry extracted for a root or block node, in source order.
pub open spec fn spec_jumpables(origin: Seq<char>, n: CstNode) -> Seq<JumpableV>
    decreases n, 0int,
{
    spec_jump_items(origin, n.children@)
}

/// Builds the block entry of a `compound_statement` node, extracting the
/// statement's own symbol table.
pub fn compound_statement(origin: &str, n: &CstNode) -> (r: Vec<Jumpable>)
    ensures
        jumps_view(r@) == spec_compound_statement(origin@, *n),
    decreases *n, 2int,
{
    let mut r: Vec<Jumpable> = Vec::new();
    proof {
        assert(jumps_view(r@) =~= Seq::<JumpableV>::empty());
    }
    if !n.is_kind("compound_statement") {
        return r;
    }
    let inner = crate::interpret::NASLDefinitions::new(origin, n);
    let jmp = Jumpable::Block(
        Identifier { start: n.start, end: n.end, identifier: None },
        inner,
    );
    let ghost jval = jmp;
    r.push(jmp);
    proof {
        crate::interpret::lemma_jumps_view_push(Seq::<Jumpable>::empty(), jval);
        assert(r@ =~= Seq::<Jumpable>::empty().push(jval));
        assert(jumps_view(r@) =~= spec_compound_statement(origin@, *n));
    }
    r
}

/// Collects the entries of a `function_definition` node: the declared
/// function and the block of its body.
pub fn func_def(origin: &str, n: &CstNode) -> (r: Vec<Jumpable>)
    ensures
        jumps_view(r@) == spec_func_def(origin@, *n),
    decreases *n, 3int,
{
    let mut r: Vec<Jumpable> = Vec::new();
    proof {
        assert(jumps_view(r@) =~= Seq::<JumpableV>::empty());
    }
    if !n.is_kind("function_definition") {
        return r;
    }
    let mut i: usize = 0;
    while i < n.children.len()
        invariant
            i <= n.children.len(),
            n.kind@ == "function_definition"@,
            jumps_view(r@) == spec_fd_items(origin@, *n, n.children@.take(i as int)),
        decreases n.children.len() - i,
    {
        let c = &n.children[i];
        if c.named {
            match func_declarator(c, n) {
                Some(fd) => {
                    let ghost prev = r@;
                    let ghost jval = fd;
                    r.push(fd);
                    proof {
                        crate::interpret::lemma_jumps_view_push(prev, jval);
                    }
                },
                None => {
                    extend_jumps(&mut r, compound_statement(origin, c));
                },
            }
        }
        proof {
            lemma_take_step(n.children@, i as int);
            assert(jumps_view(r@) =~= spec_fd_items(origin@, *n, n.children@.take(i + 1)));
        }
        i = i + 1;
    }
    proof {
        assert(n.children@.take(n.children@.len() as int) =~= n.children@);
    }
    r
}

/// Collects the entries of an `if_statement` node: the binder spanning the
/// whole statement, then the consequence's entries, then the alternative's.
pub fn if_statement(origin: &str, n: &CstNode) -> (r: Vec<Jumpable>)
    ensures
        jumps_view(r@) == spec_if_statement(origin@, *n),
    decreases *n, 3int,
{
    let mut r: Vec<Jumpable> = Vec::new();
    proof {
        assert(jumps_view(r@) =~= Seq::<JumpableV>::empty());
    }
    if !n.is_kind("if_statement") {
        return r;
    }
    match n.child_by_field("condition") {
        Some(c) => {
            let found = parenthesized_expression(c);
            let assignments = assigns_of(&found);
            let jmp = Jumpable::IfDef(
                Identifier { start: n.start, end: n.end, identifier: None },
                assignments,
            );
            let ghost jval = jmp;
            r.push(jmp);
            proof {
                crate::interpret::lemma_jumps_view_push(Seq::<Jumpable>::empty(), jval);
                assert(r@ =~= Seq::<Jumpable>::empty().push(jval));
            }
        },
        None => {},
    }
    match n.child_by_field("consequence") {
        Some(c) => {
            proof {
                crate::cst::lemma_child_by_field_decreases(*n, "consequence"@);
            }
            extend_jumps(&mut r, compound_statement(origin, c));
            extend_jumps(&mut r, expression_statement(c));
        },
        None => {},
    }
    match n.child_by_field("alternative") {
        Some(c) => {
            proof {
                crate::cst::lemma_child_by_field_decreases(*n, "alternative"@);
            }
            extend_jumps(&mut r, if_statement(origin, c));
            extend_jumps(&mut r, compound_statement(origin, c));
            extend_jumps(&mut r, expression_statement(c));
        },
        None => {},
    }
    proof {
        assert(jumps_view(r@) =~= spec_if_statement(origin@, *n));
    }
    r
}

/// Collects every entry for a root or block node, in source order.
pub fn jumpable(origin: &str, n: &CstNode) -> (r: Vec<Jumpable>)
    ensures
        jumps_view(r@) == spec_jumpables(origin@, *n),
    decreases *n, 0int,
{
    let mut r: Vec<Jumpable> = Vec::new();
    proof {
        assert(jumps_view(r@) =~= Seq::<JumpableV>::empty());
    }
    let mut i: usize = 0;
    while i < n.children.len()
        invariant
            i <= n.children.len(),
            jumps_view(r@) == spec_jump_items(origin@, n.children@.take(i as int)),
        decreases n.children.len() - i,
    {
        let c = &n.children[i];
        if c.named {
            extend_jumps(&mut r, func_def(origin, c));
            extend_jumps(&mut r, expression_statement(c));
            extend_jumps(&mut r, compound_statement(origin, c));
            extend_jumps(&mut r, if_statement(origin, c));
        }
        proof {
            lemma_take_step(n.children@, i as int);
            assert(jumps_view(r@) =~= spec_jump_items(origin@, n.children@.take(i + 1)));
        }
        i = i + 1;
    }
    proof {
        assert(n.children@.take(n.children@.len() as int) =~= n.children@);
    }
    r
}

} // verus!
