use vstd::prelude::*;

use crate::cst::CstNode;
use crate::handler::{spec_all_points, spec_goto_points, spec_table_points};
use crate::interpret::{
    spec_call_entry, spec_entry_definitions, spec_find_calls, spec_find_definitions,
    spec_includes, spec_verify_args, DefinitionsV, JumpableV,
};
use crate::node_ext::spec_defs_of;
use crate::openvas_funcs::{spec_origin_points, OpenVASBuiltinsV};
use crate::types::{spec_in_pos, spec_matches, IdentifierV, SearchParameterV};

verus! {

// The laws the resolver obeys, each proved once and for all. Determinism
// needs no lemma of its own: every resolution function's contract equates
// its result with a mathematical function of the inputs alone.

/// Call streaming keeps source order: the call sites of a name found over
/// two runs of entries, one after the other, are those of the first run
/// followed by those of the second.
pub proof fn lemma_calls_source_order(s1: Seq<JumpableV>, s2: Seq<JumpableV>, name: Seq<char>)
    ensures
        spec_find_calls(s1 + s2, name) == spec_find_calls(s1, name) + spec_find_calls(s2, name),
    decreases s2.len(),
{
    if s2.len() == 0 {
        assert(s1 + s2 =~= s1);
        assert(spec_find_calls(s1, name) + spec_find_calls(s2, name) =~= spec_find_calls(
            s1,
            name,
        ));
    } else {
        lemma_calls_source_order(s1, s2.drop_last(), name);
        assert((s1 + s2).drop_last() =~= s1 + s2.drop_last());
        assert((s1 + s2).last() == s2.last());
        assert(spec_find_calls(s1, name) + spec_find_calls(s2, name) =~= (spec_find_calls(
            s1,
            name,
        ) + spec_find_calls(s2.drop_last(), name)) + spec_call_entry(s2.last(), name));
    }
}

/// Resolution walks entries in source order too: what two runs of entries
/// yield is what the first yields followed by what the second yields.
pub proof fn lemma_resolution_source_order(
    s1: Seq<JumpableV>,
    s2: Seq<JumpableV>,
    origin: Seq<char>,
    sp: SearchParameterV,
)
    ensures
        spec_find_definitions(s1 + s2, origin, sp) == spec_find_definitions(s1, origin, sp)
            + spec_find_definitions(s2, origin, sp),
    decreases s2.len(),
{
    if s2.len() == 0 {
        assert(s1 + s2 =~= s1);
        assert(spec_find_definitions(s1, origin, sp) + spec_find_definitions(s2, origin, sp)
            =~= spec_find_definitions(s1, origin, sp));
    } else {
        lemma_resolution_source_order(s1, s2.drop_last(), origin, sp);
        assert((s1 + s2).drop_last() =~= s1 + s2.drop_last());
        assert((s1 + s2).last() == s2.last());
        assert(spec_find_definitions(s1, origin, sp) + spec_find_definitions(s2, origin, sp)
            =~= (spec_find_definitions(s1, origin, sp) + spec_find_definitions(
            s2.drop_last(),
            origin,
            sp,
        )) + spec_entry_definitions(s2.last(), origin, sp));
    }
}

/// Include extraction: the include names of an extracted symbol table are
/// exactly the string-literal arguments of those of its entries that call
/// `include`, in source order.
pub proof fn lemma_include_extraction(origin: Seq<char>, n: CstNode)
    ensures
        spec_defs_of(origin, n).includes == spec_includes(spec_defs_of(origin, n).jumps),
{
}

/// Scope locality: a function definition whose range does not contain the
/// query position, or which sits in another file, contributes none of its
/// parameters — at most its own name.
pub proof fn lemma_scope_locality(
    id: IdentifierV,
    params: Seq<IdentifierV>,
    origin: Seq<char>,
    sp: SearchParameterV,
)
    requires
        !(origin == sp.origin && spec_in_pos(id, sp.pos)),
    ensures
        spec_find_definitions(seq![JumpableV::FunDef(id, params)], origin, sp) == (
        if spec_matches(id, sp.name) {
            seq![id]
        } else {
            Seq::<IdentifierV>::empty()
        }),
{
    let s = seq![JumpableV::FunDef(id, params)];
    assert(s.drop_last() =~= Seq::<JumpableV>::empty());
    assert(s.last() == JumpableV::FunDef(id, params));
    assert(spec_verify_args(id, origin, params, sp) =~= (if spec_matches(id, sp.name) {
        seq![id]
    } else {
        Seq::<IdentifierV>::empty()
    }));
    assert(spec_find_definitions(Seq::<JumpableV>::empty(), origin, sp) =~= Seq::<
        IdentifierV,
    >::empty());
    assert(spec_entry_definitions(s.last(), origin, sp) == spec_verify_args(
        id,
        origin,
        params,
        sp,
    ));
    assert(spec_find_definitions(s, origin, sp) =~= (if spec_matches(id, sp.name) {
        seq![id]
    } else {
        Seq::<IdentifierV>::empty()
    }));
}

/// Global assignment visibility: an assignment entry whose name equals the
/// query name contributes its identifier, wherever the query position lies
/// and whatever file it comes from.
pub proof fn lemma_global_assignment_visibility(
    jumps: Seq<JumpableV>,
    origin: Seq<char>,
    sp: SearchParameterV,
    k: int,
)
    requires
        0 <= k < jumps.len(),
        jumps[k] is Assign,
        spec_matches(jumps[k]->Assign_0, sp.name),
    ensures
        spec_find_definitions(jumps, origin, sp).contains(jumps[k]->Assign_0),
    decreases jumps.len(),
{
    let id = jumps[k]->Assign_0;
    let prefix = spec_find_definitions(jumps.drop_last(), origin, sp);
    if k == jumps.len() - 1 {
        assert(spec_entry_definitions(jumps.last(), origin, sp) == seq![id]);
        assert(spec_find_definitions(jumps, origin, sp)[prefix.len() as int] == id);
        assert(spec_find_definitions(jumps, origin, sp).contains(id));
    } else {
        lemma_global_assignment_visibility(jumps.drop_last(), origin, sp, k);
        let m = choose|m: int| 0 <= m < prefix.len() && prefix[m] == id;
        assert(spec_find_definitions(jumps, origin, sp)[m] == id);
        assert(spec_find_definitions(jumps, origin, sp).contains(id));
    }
}

/// Cross-file resolution: every answer of a multi-table resolution carries
/// the origin path of the table that contributed it, so a name resolved in
/// an included file points at that file.
pub proof fn lemma_cross_file(ds: Seq<DefinitionsV>, sp: SearchParameterV)
    ensures
        forall|m: int| 0 <= m < spec_all_points(ds, sp).len() ==> exists|j: int|
            0 <= j < ds.len() && (#[trigger] spec_all_points(ds, sp)[m]).0 == ds[j].origin,
    decreases ds.len(),
{
    if ds.len() > 0 {
        lemma_cross_file(ds.drop_last(), sp);
        let prefix = spec_all_points(ds.drop_last(), sp);
        let tail = spec_table_points(ds.last(), sp);
        assert forall|m: int| 0 <= m < spec_all_points(ds, sp).len() implies exists|j: int|
            0 <= j < ds.len() && (#[trigger] spec_all_points(ds, sp)[m]).0 == ds[j].origin by {
            if m < prefix.len() {
                assert(spec_all_points(ds, sp)[m] == prefix[m]);
                let j0 = choose|j: int| 0 <= j < ds.drop_last().len() && prefix[m].0
                    == ds.drop_last()[j].origin;
                assert(ds[j0] == ds.drop_last()[j0]);
                assert(0 <= j0 < ds.len() && spec_all_points(ds, sp)[m].0 == ds[j0].origin);
            } else {
                assert(spec_all_points(ds, sp)[m] == tail[m - prefix.len()]);
                assert(tail[m - prefix.len()].0 == ds.last().origin);
                assert(0 <= ds.len() - 1 < ds.len() && spec_all_points(ds, sp)[m].0 == ds[ds.len()
                    - 1].origin);
            }
        }
    }
}

/// The built-in fallback is a last resort: whenever the NASL tables yield
/// any answer, the response equals that answer, whatever built-in table is
/// held — the built-ins are not consulted.
pub proof fn lemma_builtin_fallback_last_resort(
    ds: Seq<DefinitionsV>,
    sp: SearchParameterV,
    builtins: Option<OpenVASBuiltinsV>,
)
    requires
        spec_all_points(ds, sp).len() > 0,
    ensures
        spec_goto_points(ds, sp, builtins) == spec_all_points(ds, sp),
{
}

/// And only as a last resort: when the NASL tables yield nothing, the
/// response is exactly what the held built-in table yields, or empty when
/// none is held.
pub proof fn lemma_builtin_fallback_on_empty(
    ds: Seq<DefinitionsV>,
    sp: SearchParameterV,
    builtins: Option<OpenVASBuiltinsV>,
)
    requires
        spec_all_points(ds, sp).len() == 0,
    ensures
        spec_goto_points(ds, sp, builtins) == (match builtins {
            Some(b) => spec_origin_points(
                b.origin,
                spec_find_definitions(b.definitions, b.origin, sp),
            ),
            None => Seq::<(Seq<char>, crate::types::Point)>::empty(),
        }),
{
}

} // verus!
