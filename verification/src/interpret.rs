use vstd::prelude::*;

use crate::cst::{convert_node, CstNode};
use crate::types::{
    option_view, spec_in_pos, spec_matches, Argument, ArgumentV, Identifier, IdentifierV, Point,
    SearchParameter, SearchParameterV,
};

verus! {

/// What can go wrong while turning source text into a syntax tree.
#[derive(Clone, Copy, PartialEq, Eq, Structural, Debug)]
pub enum Error {
    LanguageError,
    ParseError,
}

/// A symbol entry extracted from one file: a definition that a query can
/// jump to, or a call site. `Block` nests the definitions of a compound
/// statement, so scoped symbols stay discoverable.
#[derive(Debug)]
pub enum Jumpable {
    FunDef(Identifier, Vec<Identifier>),
    IfDef(Identifier, Vec<Identifier>),
    Assign(Identifier),
    Block(Identifier, NASLDefinitions),
    CallExpression(Identifier, Vec<Argument>),
}

/// The symbol table of one source file: where it came from, every extracted
/// entry in source order, and the names handed to its top-level
/// `include(...)` calls, in source order.
#[derive(Debug)]
pub struct NASLDefinitions {
    pub origin: String,
    pub jumps: Vec<Jumpable>,
    pub includes: Vec<String>,
}

/// The mathematical value of a `Jumpable`.
pub enum JumpableV {
    FunDef(IdentifierV, Seq<IdentifierV>),
    IfDef(IdentifierV, Seq<IdentifierV>),
    Assign(IdentifierV),
    Block(IdentifierV, DefinitionsV),
    CallExpression(IdentifierV, Seq<ArgumentV>),
}

/// The mathematical value of a `NASLDefinitions`.
pub struct DefinitionsV {
    pub origin: Seq<char>,
    pub jumps: Seq<JumpableV>,
    pub includes: Seq<Seq<char>>,
}

/// Element-wise view of a sequence of identifiers.
pub open spec fn ids_view(s: Seq<Identifier>) -> Seq<IdentifierV> {
    s.map_values(|i: Identifier| i@)
}

/// Element-wise view of a sequence of arguments.
pub open spec fn args_view(s: Seq<Argument>) -> Seq<ArgumentV> {
    s.map_values(|a: Argument| a@)
}

/// Element-wise view of a sequence of strings.
pub open spec fn strings_view(s: Seq<String>) -> Seq<Seq<char>> {
    s.map_values(|x: String| x@)
}

/// The mathematical value of one entry.
pub open spec fn jumpable_view(j: Jumpable) -> JumpableV
    decreases j,
{
    match j {
        Jumpable::FunDef(id, params) => JumpableV::FunDef(id@, ids_view(params@)),
        Jumpable::IfDef(id, binds) => JumpableV::IfDef(id@, ids_view(binds@)),
        Jumpable::Assign(id) => JumpableV::Assign(id@),
        Jumpable::Block(id, inner) => JumpableV::Block(id@, defs_view(inner)),
        Jumpable::CallExpression(id, args) => JumpableV::CallExpression(id@, args_view(args@)),
    }
}

/// Element-wise mathematical value of a sequence of entries.
pub open spec fn jumps_view(s: Seq<Jumpable>) -> Seq<JumpableV>
    decreases s,
{
    if s.len() == 0 {
        Seq::empty()
    } else {
        jumps_view(s.drop_last()).push(jumpable_view(s.last()))
    }
}

/// The mathematical value of a whole symbol table.
pub open spec fn defs_view(d: NASLDefinitions) -> DefinitionsV
    decreases d,
{
    DefinitionsV {
        origin: d.origin@,
        jumps: jumps_view(d.jumps@),
        includes: strings_view(d.includes@),
    }
}

impl View for Jumpable {
    type V = JumpableV;

    open spec fn view(&self) -> JumpableV {
        jumpable_view(*self)
    }
}

impl View for NASLDefinitions {
    type V = DefinitionsV;

    open spec fn view(&self) -> DefinitionsV {
        defs_view(*self)
    }
}

/// The texts of the string-literal arguments that carry one, in order.
pub open spec fn spec_string_args(args: Seq<ArgumentV>) -> Seq<Seq<char>>
    decreases args,
{
    if args.len() == 0 {
        Seq::empty()
    } else {
        spec_string_args(args.drop_last()) + (match args.last() {
            ArgumentV::StringLiteral(id) => match id.name {
                Some(s) => seq![s],
                None => Seq::empty(),
            },
        })
    }
}

/// `spec_string_args` of a sequence with one argument appended.
pub proof fn lemma_string_args_push(s: Seq<ArgumentV>, a: ArgumentV)
    ensures
        spec_string_args(s.push(a)) == spec_string_args(s) + (match a {
            ArgumentV::StringLiteral(id) => match id.name {
                Some(t) => seq![t],
                None => Seq::<Seq<char>>::empty(),
            },
        }),
{
    assert(s.push(a).drop_last() =~= s);
    assert(s.push(a).last() == a);
}

/// The names one entry adds to the included files: the string-literal
/// arguments of a call whose callee is named `include`.
pub open spec fn spec_include_names(j: JumpableV) -> Seq<Seq<char>> {
    match j {
        JumpableV::CallExpression(id, args) => if id.name == Some("include"@) {
            spec_string_args(args)
        } else {
            Seq::empty()
        },
        _ => Seq::empty(),
    }
}

/// The names handed to the `include(...)` calls of a sequence of entries,
/// in source order.
pub open spec fn spec_includes(jumps: Seq<JumpableV>) -> Seq<Seq<char>>
    decreases jumps,
{
    if jumps.len() == 0 {
        Seq::empty()
    } else {
        spec_includes(jumps.drop_last()) + spec_include_names(jumps.last())
    }
}

/// `jumps_view` of a sequence with one entry appended.
pub proof fn lemma_jumps_view_push(s: Seq<Jumpable>, j: Jumpable)
    ensures
        jumps_view(s.push(j)) == jumps_view(s).push(jumpable_view(j)),
{
    assert(s.push(j).drop_last() =~= s);
    assert(s.push(j).last() == j);
}

/// `jumps_view` distributes over concatenation.
pub proof fn lemma_jumps_view_concat(s1: Seq<Jumpable>, s2: Seq<Jumpable>)
    ensures
        jumps_view(s1 + s2) == jumps_view(s1) + jumps_view(s2),
    decreases s2.len(),
{
    if s2.len() == 0 {
        assert(s1 + s2 =~= s1);
        assert(jumps_view(s1) + jumps_view(s2) =~= jumps_view(s1));
    } else {
        lemma_jumps_view_concat(s1, s2.drop_last());
        assert((s1 + s2).drop_last() =~= s1 + s2.drop_last());
        assert((s1 + s2).last() == s2.last());
        assert(jumps_view(s1) + jumps_view(s2) =~= (jumps_view(s1) + jumps_view(
            s2.drop_last(),
        )).push(jumpable_view(s2.last())));
    }
}

impl Clone for Jumpable {
    fn clone(&self) -> (r: Self)
        ensures
            r@ == self@,
        decreases *self,
    {
        match self {
            Jumpable::FunDef(id, params) => Jumpable::FunDef(id.clone(), clone_identifiers(params)),
            Jumpable::IfDef(id, binds) => Jumpable::IfDef(id.clone(), clone_identifiers(binds)),
            Jumpable::Assign(id) => Jumpable::Assign(id.clone()),
            Jumpable::Block(id, inner) => Jumpable::Block(id.clone(), clone_defs(inner)),
            Jumpable::CallExpression(id, args) => Jumpable::CallExpression(
                id.clone(),
                clone_arguments(args),
            ),
        }
    }
}

/// Element-wise copy of a symbol table.
fn clone_defs(d: &NASLDefinitions) -> (r: NASLDefinitions)
    ensures
        r@ == d@,
    decreases *d,
{
    let includes = d.includes.clone();
    proof {
        assert(includes@ =~= d.includes@);
    }
    NASLDefinitions { origin: d.origin.clone(), jumps: clone_jumps(&d.jumps), includes }
}

/// Element-wise copy of a vector of entries.
pub(crate) fn clone_jumps(v: &Vec<Jumpable>) -> (r: Vec<Jumpable>)
    ensures
        jumps_view(r@) == jumps_view(v@),
    decreases *v,
{
    let mut r: Vec<Jumpable> = Vec::new();
    let mut i: usize = 0;
    while i < v.len()
        invariant
            i <= v.len(),
            jumps_view(r@) == jumps_view(v@.take(i as int)),
        decreases v.len() - i,
    {
        let ghost prev = r@;
        let c = v[i].clone();
        proof {
            assert(decreases_to!(*v => v@[i as int]));
        }
        r.push(c);
        proof {
            lemma_jumps_view_push(prev, c);
            assert(v@.take(i + 1).drop_last() =~= v@.take(i as int));
            assert(v@.take(i + 1).last() == v@[i as int]);
        }
        i = i + 1;
    }
    proof {
        assert(v@.take(v@.len() as int) =~= v@);
    }
    r
}

impl Clone for NASLDefinitions {
    fn clone(&self) -> (r: Self)
        ensures
            r@ == self@,
    {
        clone_defs(self)
    }
}

/// Element-wise copy of a vector of identifiers.
fn clone_identifiers(v: &Vec<Identifier>) -> (r: Vec<Identifier>)
    ensures
        r@ == v@,
{
    let r = v.clone();
    proof {
        assert(r@ =~= v@);
    }
    r
}

/// Element-wise copy of a vector of arguments.
fn clone_arguments(v: &Vec<Argument>) -> (r: Vec<Argument>)
    ensures
        r@ == v@,
{
    let r = v.clone();
    proof {
        assert(r@ =~= v@);
    }
    r
}

/// Appends the texts of the string-literal arguments to `r`.
fn push_string_args(r: &mut Vec<String>, args: &Vec<Argument>)
    ensures
        strings_view(final (r)@) == strings_view(old(r)@) + spec_string_args(args_view(args@)),
{
    proof {
        assert(args_view(args@).take(0) =~= Seq::<ArgumentV>::empty());
        assert(strings_view(r@) =~= strings_view(r@) + spec_string_args(
            args_view(args@).take(0),
        ));
    }
    let ghost r0 = r@;
    let mut k: usize = 0;
    while k < args.len()
        invariant
            k <= args.len(),
            strings_view(r@) == strings_view(r0) + spec_string_args(
                args_view(args@).take(k as int),
            ),
        decreases args.len() - k,
    {
        let ghost prev = r@;
        match args[k].to_string() {
            Some(s) => {
                let ghost sv = s@;
                r.push(s);
                proof {
                    assert(strings_view(r@) =~= strings_view(prev).push(sv));
                }
            },
            None => {},
        }
        proof {
            let avk = args@[k as int]@;
            let pre = args_view(args@).take(k as int);
            assert(args_view(args@).len() == args@.len());
            assert(args_view(args@)[k as int] == avk);
            assert(args_view(args@).take(k + 1) =~= pre.push(avk));
            lemma_string_args_push(pre, avk);
            assert(strings_view(r@) =~= strings_view(r0) + spec_string_args(
                args_view(args@).take(k + 1),
            ));
        }
        k = k + 1;
    }
    proof {
        assert(args_view(args@).take(args@.len() as int) =~= args_view(args@));
    }
}

/// Collects the include names of a sequence of entries, in source order.
pub fn includes_of(v: &Vec<Jumpable>) -> (r: Vec<String>)
    ensures
        strings_view(r@) == spec_includes(jumps_view(v@)),
{
    let mut r: Vec<String> = Vec::new();
    proof {
        assert(jumps_view(v@.take(0)) =~= Seq::<JumpableV>::empty());
        assert(strings_view(r@) =~= spec_includes(jumps_view(v@.take(0))));
    }
    let mut i: usize = 0;
    while i < v.len()
        invariant
            i <= v.len(),
            strings_view(r@) == spec_includes(jumps_view(v@.take(i as int))),
        decreases v.len() - i,
    {
        match &v[i] {
            Jumpable::CallExpression(id, args) => {
                if id.matches("include") {
                    push_string_args(&mut r, args);
                }
            },
            _ => {},
        }
        proof {
            crate::node_ext::lemma_take_step(v@, i as int);
            lemma_jumps_view_push(v@.take(i as int), v@[i as int]);
            assert(v@.take(i as int).push(v@[i as int]) =~= v@.take(i + 1));
            let s = jumps_view(v@.take(i as int));
            let jv = jumpable_view(v@[i as int]);
            assert(s.push(jv).drop_last() =~= s);
            assert(s.push(jv).last() == jv);
            assert(strings_view(r@) =~= spec_includes(jumps_view(v@.take(i + 1))));
        }
        i = i + 1;
    }
    proof {
        assert(v@.take(v@.len() as int) =~= v@);
    }
    r
}

/// The entries a query may jump to: every entry but the call sites.
pub open spec fn spec_definitions(s: Seq<JumpableV>) -> Seq<JumpableV>
    decreases s,
{
    if s.len() == 0 {
        Seq::empty()
    } else {
        spec_definitions(s.drop_last()) + (if s.last() is CallExpression {
            Seq::empty()
        } else {
            seq![s.last()]
        })
    }
}

impl NASLDefinitions {
    /// Extracts the symbol table of a parsed file from a root or block node.
    pub fn new(origin: &str, node: &CstNode) -> (r: NASLDefinitions)
        ensures
            r@ == crate::node_ext::spec_defs_of(origin@, *node),
        decreases *node, 1int,
    {
        let jumps = crate::node_ext::jumpable(origin, node);
        let includes = includes_of(&jumps);
        NASLDefinitions { origin: origin.to_owned(), jumps, includes }
    }

    /// The definition entries of this table, in source order: every entry
    /// but the call sites.
    pub fn definitions(&self) -> (r: Vec<Jumpable>)
        ensures
            jumps_view(r@) == spec_definitions(jumps_view(self.jumps@)),
    {
        let mut r: Vec<Jumpable> = Vec::new();
        proof {
            assert(jumps_view(self.jumps@.take(0)) =~= Seq::<JumpableV>::empty());
            assert(jumps_view(r@) =~= spec_definitions(jumps_view(self.jumps@.take(0))));
        }
        let mut i: usize = 0;
        while i < self.jumps.len()
            invariant
                i <= self.jumps.len(),
                jumps_view(r@) == spec_definitions(jumps_view(self.jumps@.take(i as int))),
            decreases self.jumps.len() - i,
        {
            let ghost prev = r@;
            if self.jumps[i].is_definition() {
                let c = self.jumps[i].clone();
                let ghost cval = c;
                r.push(c);
                proof {
                    lemma_jumps_view_push(prev, cval);
                }
            }
            proof {
                crate::node_ext::lemma_take_step(self.jumps@, i as int);
                lemma_jumps_view_push(self.jumps@.take(i as int), self.jumps@[i as int]);
                assert(self.jumps@.take(i as int).push(self.jumps@[i as int]) =~= self.jumps@.take(
                    i + 1,
                ));
                let s = jumps_view(self.jumps@.take(i as int));
                let jv = jumpable_view(self.jumps@[i as int]);
                assert(s.push(jv).drop_last() =~= s);
                assert(s.push(jv).last() == jv);
                assert(jumps_view(r@) =~= spec_definitions(jumps_view(self.jumps@.take(i + 1))));
            }
            i = i + 1;
        }
        proof {
            assert(self.jumps@.take(self.jumps@.len() as int) =~= self.jumps@);
        }
        r
    }
}

impl Jumpable {
    /// Every entry but a call site is a definition a query may jump to.
    pub fn is_definition(&self) -> (r: bool)
        ensures
            r == !(jumpable_view(*self) is CallExpression),
    {
        !matches!(self, Jumpable::CallExpression(_, _))
    }
}

/// The identifiers of `args` whose name equals `name`, in order.
pub open spec fn spec_matching(args: Seq<IdentifierV>, name: Seq<char>) -> Seq<IdentifierV>
    decreases args,
{
    if args.len() == 0 {
        Seq::empty()
    } else {
        spec_matching(args.drop_last(), name) + (if spec_matches(args.last(), name) {
            seq![args.last()]
        } else {
            Seq::empty()
        })
    }
}

/// `spec_matching` of a sequence with one identifier appended.
pub proof fn lemma_matching_push(args: Seq<IdentifierV>, a: IdentifierV, name: Seq<char>)
    ensures
        spec_matching(args.push(a), name) == spec_matching(args, name) + (if spec_matches(a, name) {
            seq![a]
        } else {
            Seq::<IdentifierV>::empty()
        }),
{
    assert(args.push(a).drop_last() =~= args);
    assert(args.push(a).last() == a);
}

/// What a scoped definition entry (a function or an if binder) contributes
/// to a query: its own identifier whenever the name matches, globally; and
/// its bound identifiers only when the query lies in the entry's range and
/// comes from the same file.
pub open spec fn spec_verify_args(
    id: IdentifierV,
    origin: Seq<char>,
    args: Seq<IdentifierV>,
    sp: SearchParameterV,
) -> Seq<IdentifierV> {
    (if spec_matches(id, sp.name) {
        seq![id]
    } else {
        Seq::empty()
    }) + (if origin == sp.origin && spec_in_pos(id, sp.pos) {
        spec_matching(args, sp.name)
    } else {
        Seq::empty()
    })
}

/// What one entry contributes to a query: a block is entered only when the
/// query position lies inside it; function and if binders follow
/// `spec_verify_args`; an assignment matches by name alone; a call site
/// never contributes.
pub open spec fn spec_entry_definitions(
    j: JumpableV,
    origin: Seq<char>,
    sp: SearchParameterV,
) -> Seq<IdentifierV>
    decreases j,
{
    match j {
        JumpableV::Block(id, inner) => if origin == sp.origin && spec_in_pos(id, sp.pos) {
            spec_find_definitions(inner.jumps, inner.origin, sp)
        } else {
            Seq::empty()
        },
        JumpableV::IfDef(id, binds) => spec_verify_args(id, origin, binds, sp),
        JumpableV::FunDef(id, params) => spec_verify_args(id, origin, params, sp),
        JumpableV::Assign(id) => if spec_matches(id, sp.name) {
            seq![id]
        } else {
            Seq::empty()
        },
        JumpableV::CallExpression(_, _) => Seq::empty(),
    }
}

/// Every identifier the entries yield for a query, in source order.
pub open spec fn spec_find_definitions(
    jumps: Seq<JumpableV>,
    origin: Seq<char>,
    sp: SearchParameterV,
) -> Seq<IdentifierV>
    decreases jumps,
{
    if jumps.len() == 0 {
        Seq::empty()
    } else {
        spec_find_definitions(jumps.drop_last(), origin, sp) + spec_entry_definitions(
            jumps.last(),
            origin,
            sp,
        )
    }
}

/// `spec_find_definitions` of a sequence with one entry appended.
pub proof fn lemma_find_definitions_push(
    s: Seq<JumpableV>,
    j: JumpableV,
    origin: Seq<char>,
    sp: SearchParameterV,
)
    ensures
        spec_find_definitions(s.push(j), origin, sp) == spec_find_definitions(s, origin, sp)
            + spec_entry_definitions(j, origin, sp),
{
    assert(s.push(j).drop_last() =~= s);
    assert(s.push(j).last() == j);
}

/// Element-wise view of a sequence of call entries.
pub open spec fn calls_view(s: Seq<(Identifier, Vec<Argument>)>) -> Seq<(IdentifierV, Seq<
    ArgumentV,
>)> {
    s.map_values(|p: (Identifier, Vec<Argument>)| (p.0@, args_view(p.1@)))
}

/// What one entry contributes to the call sites of a name.
pub open spec fn spec_call_entry(j: JumpableV, name: Seq<char>) -> Seq<(IdentifierV, Seq<
    ArgumentV,
>)> {
    match j {
        JumpableV::CallExpression(id, args) => if id.name == Some(name) {
            seq![(id, args)]
        } else {
            Seq::empty()
        },
        _ => Seq::empty(),
    }
}

/// Every call site of `name` among the entries, in source order.
pub open spec fn spec_find_calls(jumps: Seq<JumpableV>, name: Seq<char>) -> Seq<(IdentifierV, Seq<
    ArgumentV,
>)>
    decreases jumps,
{
    if jumps.len() == 0 {
        Seq::empty()
    } else {
        spec_find_calls(jumps.drop_last(), name) + spec_call_entry(jumps.last(), name)
    }
}

/// Appends `src` to `dst`.
fn extend_ids(dst: &mut Vec<Identifier>, src: Vec<Identifier>)
    ensures
        final (dst)@ == old(dst)@ + src@,
{
    let mut src = src;
    dst.append(&mut src);
}

/// The identifiers one scoped definition entry (its own identifier plus its
/// bound names) yields for a query.
fn verify_args(
    id: &Identifier,
    origin: &String,
    args: &Vec<Identifier>,
    defco: &SearchParameter,
) -> (result: Vec<Identifier>)
    ensures
        ids_view(result@) == spec_verify_args(id@, origin@, ids_view(args@), defco@),
{
    let mut result: Vec<Identifier> = Vec::new();
    if id.matches(defco.name.as_str()) {
        result.push(id.clone());
    }
    let ghost head = ids_view(result@);
    proof {
        assert(head =~= if spec_matches(id@, defco@.name) {
            seq![id@]
        } else {
            Seq::<IdentifierV>::empty()
        });
    }
    if *origin == defco.origin && id.in_pos(defco.pos) {
        let mut i: usize = 0;
        proof {
            assert(ids_view(args@).take(0) =~= Seq::<IdentifierV>::empty());
            assert(ids_view(result@) =~= head + spec_matching(ids_view(args@).take(0), defco@.name));
        }
        while i < args.len()
            invariant
                i <= args.len(),
                ids_view(result@) == head + spec_matching(
                    ids_view(args@).take(i as int),
                    defco@.name,
                ),
            decreases args.len() - i,
        {
            let ghost prev = result@;
            let p = &args[i];
            if p.matches(defco.name.as_str()) {
                result.push(p.clone());
                proof {
                    assert(ids_view(result@) =~= ids_view(prev).push(args@[i as int]@));
                }
            }
            proof {
                assert(ids_view(args@).len() == args@.len());
                assert(ids_view(args@)[i as int] == args@[i as int]@);
                assert(ids_view(args@).take(i + 1) =~= ids_view(args@).take(i as int).push(
                    args@[i as int]@,
                ));
                lemma_matching_push(ids_view(args@).take(i as int), args@[i as int]@, defco@.name);
                assert(ids_view(result@) =~= head + spec_matching(
                    ids_view(args@).take(i + 1),
                    defco@.name,
                ));
            }
            i = i + 1;
        }
        proof {
            assert(ids_view(args@).take(args@.len() as int) =~= ids_view(args@));
        }
    }
    proof {
        assert(ids_view(result@) =~= spec_verify_args(id@, origin@, ids_view(args@), defco@));
    }
    result
}

/// Resolves a query over a sequence of entries: walks them in source order
/// and gathers what each contributes.
pub fn find_definitions(
    definitions: &Vec<Jumpable>,
    origin: &String,
    sp: &SearchParameter,
) -> (result: Vec<Identifier>)
    ensures
        ids_view(result@) == spec_find_definitions(jumps_view(definitions@), origin@, sp@),
    decreases *definitions,
{
    let mut result: Vec<Identifier> = Vec::new();
    proof {
        assert(jumps_view(definitions@.take(0)) =~= Seq::<JumpableV>::empty());
        assert(ids_view(result@) =~= spec_find_definitions(
            jumps_view(definitions@.take(0)),
            origin@,
            sp@,
        ));
    }
    let mut i: usize = 0;
    while i < definitions.len()
        invariant
            i <= definitions.len(),
            ids_view(result@) == spec_find_definitions(
                jumps_view(definitions@.take(i as int)),
                origin@,
                sp@,
            ),
        decreases definitions.len() - i,
    {
        let ghost prev = result@;
        match &definitions[i] {
            Jumpable::Block(id, js) => {
                if *origin == sp.origin && id.in_pos(sp.pos) {
                    proof {
                        assert(decreases_to!(*definitions => definitions@[i as int]));
                    }
                    let sub = find_definitions(&js.jumps, &js.origin, sp);
                    let ghost sv = sub@;
                    extend_ids(&mut result, sub);
                    proof {
                        assert(ids_view(result@) =~= ids_view(prev) + ids_view(sv));
                    }
                }
            },
            Jumpable::IfDef(id, binds) => {
                let sub = verify_args(id, origin, binds, sp);
                let ghost sv = sub@;
                extend_ids(&mut result, sub);
                proof {
                    assert(ids_view(result@) =~= ids_view(prev) + ids_view(sv));
                }
            },
            Jumpable::FunDef(id, params) => {
                let sub = verify_args(id, origin, params, sp);
                let ghost sv = sub@;
                extend_ids(&mut result, sub);
                proof {
                    assert(ids_view(result@) =~= ids_view(prev) + ids_view(sv));
                }
            },
            Jumpable::Assign(id) => {
                if id.matches(sp.name.as_str()) {
                    result.push(id.clone());
                    proof {
                        assert(ids_view(result@) =~= ids_view(prev).push(definitions@[i as int]@->Assign_0));
                    }
                }
            },
            Jumpable::CallExpression(_, _) => {},
        }
        proof {
            crate::node_ext::lemma_take_step(definitions@, i as int);
            lemma_jumps_view_push(definitions@.take(i as int), definitions@[i as int]);
            assert(definitions@.take(i as int).push(definitions@[i as int]) =~= definitions@.take(
                i + 1,
            ));
            lemma_find_definitions_push(
                jumps_view(definitions@.take(i as int)),
                jumpable_view(definitions@[i as int]),
                origin@,
                sp@,
            );
            assert(ids_view(result@) =~= spec_find_definitions(
                jumps_view(definitions@.take(i + 1)),
                origin@,
                sp@,
            ));
        }
        i = i + 1;
    }
    proof {
        assert(definitions@.take(definitions@.len() as int) =~= definitions@);
    }
    result
}

/// Streams every call site of `name`, with its arguments, in source order.
pub fn find_calls(calls: &Vec<Jumpable>, name: &str) -> (result: Vec<(Identifier, Vec<Argument>)>)
    ensures
        calls_view(result@) == spec_find_calls(jumps_view(calls@), name@),
{
    let mut result: Vec<(Identifier, Vec<Argument>)> = Vec::new();
    proof {
        assert(jumps_view(calls@.take(0)) =~= Seq::<JumpableV>::empty());
        assert(calls_view(result@) =~= spec_find_calls(jumps_view(calls@.take(0)), name@));
    }
    let mut i: usize = 0;
    while i < calls.len()
        invariant
            i <= calls.len(),
            calls_view(result@) == spec_find_calls(jumps_view(calls@.take(i as int)), name@),
        decreases calls.len() - i,
    {
        let ghost prev = result@;
        match &calls[i] {
            Jumpable::CallExpression(id, params) => {
                if id.matches(name) {
                    result.push((id.clone(), clone_arguments(params)));
                    proof {
                        assert(calls_view(result@) =~= calls_view(prev).push(
                            (id@, args_view(params@)),
                        ));
                    }
                }
            },
            _ => {},
        }
        proof {
            crate::node_ext::lemma_take_step(calls@, i as int);
            lemma_jumps_view_push(calls@.take(i as int), calls@[i as int]);
            assert(calls@.take(i as int).push(calls@[i as int]) =~= calls@.take(i + 1));
            let s = jumps_view(calls@.take(i as int));
            let jv = jumpable_view(calls@[i as int]);
            assert(s.push(jv).drop_last() =~= s);
            assert(s.push(jv).last() == jv);
            assert(calls_view(result@) =~= spec_find_calls(jumps_view(calls@.take(i + 1)), name@));
        }
        i = i + 1;
    }
    proof {
        assert(calls@.take(calls@.len() as int) =~= calls@);
    }
    result
}

/// The concrete syntax tree that the NASL grammar assigns to `code`; the
/// grammar is fixed, so the tree is a function of the code alone.
pub uninterp spec fn nasl_cst(code: Seq<char>) -> Result<CstNode, Error>;

/// Relies on tree_sitter::Parser: set_language binds the given grammar and
/// parse builds the concrete syntax tree, which is copied into the
/// library's own tree type.
#[verifier::external_body]
pub fn tree(language: tree_sitter::Language, code: &str) -> (r: Result<CstNode, Error>) {
    let mut parser = tree_sitter::Parser::new();
    if parser.set_language(language).is_err() {
        return Err(Error::LanguageError);
    }
    match parser.parse(code, None) {
        Some(t) => Ok(convert_node(t.root_node(), None, code)),
        None => Err(Error::ParseError),
    }
}

/// Relies on tree_sitter_nasl::language and tree_sitter::Parser::parse:
/// parsing is deterministic, so the returned tree is the named value
/// `nasl_cst(code)`.
#[verifier::external_body]
pub fn nasl_tree(code: &str) -> (r: Result<CstNode, Error>)
    ensures
        r == nasl_cst(code@),
{
    tree(tree_sitter_nasl::language(), code)
}

/// The start positions of a sequence of identifiers, in order.
pub open spec fn spec_points_of(ids: Seq<IdentifierV>) -> Seq<Point> {
    ids.map_values(|i: IdentifierV| i.start)
}

/// The name of the identifier leaf under `pos`, found by descending into
/// the named child that contains the position.
pub open spec fn spec_find_identifier(pos: Point, n: CstNode) -> Option<Seq<char>>
    decreases n,
{
    if crate::types::spec_pos_le(n.start, pos) && crate::types::spec_pos_le(pos, n.end) {
        if n.children@.len() == 0 && n.kind@ == "identifier"@ {
            Some(n.text@)
        } else {
            spec_find_identifier_first(pos, n.children@)
        }
    } else {
        None
    }
}

/// The first hit among the named children.
pub open spec fn spec_find_identifier_first(pos: Point, children: Seq<CstNode>) -> Option<
    Seq<char>,
>
    decreases children,
{
    if children.len() == 0 {
        None
    } else if children[0].named {
        match spec_find_identifier(pos, children[0]) {
            Some(t) => Some(t),
            None => spec_find_identifier_first(pos, children.drop_first()),
        }
    } else {
        spec_find_identifier_first(pos, children.drop_first())
    }
}

/// Finds the identifier leaf under the cursor position.
pub fn find_identifier(pos: Point, n: &CstNode) -> (r: Option<String>)
    ensures
        match r {
            Some(t) => spec_find_identifier(pos, *n) == Some(t@),
            None => spec_find_identifier(pos, *n) is None,
        },
    decreases *n,
{
    if !(crate::types::pos_le(n.start, pos) && crate::types::pos_le(pos, n.end)) {
        return None;
    }
    if n.children.len() == 0 && n.is_kind("identifier") {
        return Some(n.text.clone());
    }
    proof {
        assert(n.children@.skip(0) =~= n.children@);
    }
    let mut i: usize = 0;
    while i < n.children.len()
        invariant
            i <= n.children.len(),
            crate::types::spec_pos_le(n.start, pos),
            crate::types::spec_pos_le(pos, n.end),
            spec_find_identifier_first(pos, n.children@) == spec_find_identifier_first(
                pos,
                n.children@.skip(i as int),
            ),
        decreases n.children.len() - i,
    {
        proof {
            assert(n.children@.skip(i as int)[0] == n.children@[i as int]);
            assert(n.children@.skip(i as int).drop_first() =~= n.children@.skip(i + 1));
        }
        let c = &n.children[i];
        if c.named {
            match find_identifier(pos, c) {
                Some(t) => {
                    proof {
                        assert(spec_find_identifier(pos, n.children@[i as int]) == Some(t@));
                        assert(spec_find_identifier_first(pos, n.children@.skip(i as int))
                            == Some(t@));
                        assert(spec_find_identifier(pos, *n) == Some(t@)) by {
                            assert(crate::types::spec_pos_le(n.start, pos));
                            assert(crate::types::spec_pos_le(pos, n.end));
                            assert(n.children@.len() > 0);
                            assert(spec_find_identifier_first(pos, n.children@) == Some(t@));
                        };
                    }
                    return Some(t);
                },
                None => {},
            }
        }
        i = i + 1;
    }
    None
}

impl NASLDefinitions {
    /// Turns source text into the file's symbol table: parses it with the
    /// NASL grammar and extracts the entries of the root node.
    pub fn new_parse_tree(origin: &str, code: &str) -> (r: Result<NASLDefinitions, Error>)
        ensures
            match nasl_cst(code@) {
                Ok(root) => match r {
                    Ok(d) => d@ == crate::node_ext::spec_defs_of(origin@, root),
                    Err(_) => false,
                },
                Err(e) => match r {
                    Ok(_) => false,
                    Err(e2) => e2 == e,
                },
            },
    {
        match nasl_tree(code) {
            Ok(t) => Ok(NASLDefinitions::new(origin, &t)),
            Err(e) => Err(e),
        }
    }

    /// The file this table was extracted from.
    pub fn origin(self) -> (r: String)
        ensures
            r == self.origin,
    {
        self.origin
    }

    /// The names of the files this one includes, in source order.
    pub fn includes(&self) -> (r: &Vec<String>)
        ensures
            r@ == self.includes@,
    {
        &self.includes
    }

    /// Builds the query for the identifier under the cursor: parses the
    /// code and finds the identifier leaf containing (line, column).
    pub fn search_parameter(origin: &str, code: &str, line: usize, column: usize) -> (r: Option<
        SearchParameter,
    >)
        ensures
            match nasl_cst(code@) {
                Ok(root) => match spec_find_identifier(Point { row: line, column }, root) {
                    Some(name) => match r {
                        Some(sp) => sp@ == (SearchParameterV {
                            origin: origin@,
                            name,
                            pos: Point { row: line, column },
                        }),
                        None => false,
                    },
                    None => r is None,
                },
                Err(_) => r is None,
            },
    {
        let pos = Point { row: line, column };
        match nasl_tree(code) {
            Ok(t) => match find_identifier(pos, &t) {
                Some(name) => Some(SearchParameter { origin: origin.to_owned(), name, pos }),
                None => None,
            },
            Err(_) => None,
        }
    }

    /// The start positions of every definition this table yields for the
    /// query, in source order.
    pub fn find_points(&self, sp: &SearchParameter) -> (r: Vec<Point>)
        ensures
            r@ == spec_points_of(
                spec_find_definitions(jumps_view(self.jumps@), self.origin@, sp@),
            ),
    {
        let found = find_definitions(&self.jumps, &self.origin, sp);
        let mut r: Vec<Point> = Vec::new();
        let mut i: usize = 0;
        while i < found.len()
            invariant
                i <= found.len(),
                r@ == spec_points_of(ids_view(found@)).take(i as int),
                ids_view(found@) == spec_find_definitions(
                    jumps_view(self.jumps@),
                    self.origin@,
                    sp@,
                ),
            decreases found.len() - i,
        {
            r.push(found[i].start);
            proof {
                assert(r@ =~= spec_points_of(ids_view(found@)).take(i + 1));
            }
            i = i + 1;
        }
        proof {
            assert(spec_points_of(ids_view(found@)).take(found@.len() as int) =~= spec_points_of(
                ids_view(found@),
            ));
        }
        r
    }
}

} // verus!
