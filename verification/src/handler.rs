use vstd::prelude::*;

use crate::interpret::{
    defs_view, find_definitions, ids_view, spec_find_definitions, DefinitionsV, NASLDefinitions,
};
use crate::openvas_funcs::{pairs_view, spec_origin_points, OpenVASBuiltinsV, OpenVASInBuildFunctions};
use crate::strutil::concat_str;
use crate::types::{option_view, Point, SearchParameter, SearchParameterV};

verus! {

/// The configuration payload of the editor: optional include-search roots
/// and an optional OpenVAS source path.
#[derive(Debug)]
pub struct Paths {
    pub paths: Option<Vec<String>>,
    pub openvas: Option<String>,
}

/// The envelope the configuration arrives in.
#[derive(Debug)]
pub struct Settings {
    pub settings: Option<Paths>,
}

/// Element-wise mathematical value of a sequence of symbol tables.
pub open spec fn defs_views(s: Seq<NASLDefinitions>) -> Seq<DefinitionsV> {
    s.map_values(|d: NASLDefinitions| defs_view(d))
}

/// What one symbol table yields for a query: each resolved definition's
/// start position, paired with the table's own origin path.
pub open spec fn spec_table_points(d: DefinitionsV, sp: SearchParameterV) -> Seq<(Seq<char>, Point)> {
    spec_origin_points(d.origin, spec_find_definitions(d.jumps, d.origin, sp))
}

/// What a list of symbol tables yields for a query, table by table.
pub open spec fn spec_all_points(ds: Seq<DefinitionsV>, sp: SearchParameterV) -> Seq<(Seq<char>, Point)>
    decreases ds,
{
    if ds.len() == 0 {
        Seq::empty()
    } else {
        spec_all_points(ds.drop_last(), sp) + spec_table_points(ds.last(), sp)
    }
}

/// The answer of a whole request: the NASL tables' findings; only when
/// those are empty, the built-in table's findings; empty when neither has
/// any.
pub open spec fn spec_goto_points(
    ds: Seq<DefinitionsV>,
    sp: SearchParameterV,
    builtins: Option<OpenVASBuiltinsV>,
) -> Seq<(Seq<char>, Point)> {
    let nasl = spec_all_points(ds, sp);
    if nasl.len() > 0 {
        nasl
    } else {
        match builtins {
            Some(b) => spec_origin_points(
                b.origin,
                spec_find_definitions(b.definitions, b.origin, sp),
            ),
            None => Seq::empty(),
        }
    }
}

/// Resolves a query over every loaded symbol table, keeping table order.
pub fn find_all_points(defs: &Vec<NASLDefinitions>, sp: &SearchParameter) -> (r: Vec<(String, Point)>)
    ensures
        pairs_view(r@) == spec_all_points(defs_views(defs@), sp@),
{
    let ghost ds = defs_views(defs@);
    let mut r: Vec<(String, Point)> = Vec::new();
    proof {
        assert(ds.take(0) =~= Seq::<DefinitionsV>::empty());
        assert(pairs_view(r@) =~= spec_all_points(ds.take(0), sp@));
    }
    let mut i: usize = 0;
    while i < defs.len()
        invariant
            i <= defs.len(),
            ds == defs_views(defs@),
            ds.len() == defs@.len(),
            pairs_view(r@) == spec_all_points(ds.take(i as int), sp@),
        decreases defs.len() - i,
    {
        let ghost mid = pairs_view(r@);
        let d = &defs[i];
        let found = find_definitions(&d.jumps, &d.origin, sp);
        let ghost ids = ids_view(found@);
        proof {
            assert(ds[i as int] == defs@[i as int]@);
        }
        let mut k: usize = 0;
        proof {
            assert(pairs_view(r@) =~= mid + spec_origin_points(d.origin@, ids).take(0));
        }
        while k < found.len()
            invariant
                k <= found.len(),
                ids == ids_view(found@),
                ids.len() == found@.len(),
                pairs_view(r@) == mid + spec_origin_points(d.origin@, ids).take(k as int),
            decreases found.len() - k,
        {
            let ghost prev = r@;
            r.push((d.origin.clone(), found[k].start));
            proof {
                assert(ids_view(found@)[k as int] == found@[k as int]@);
                assert(pairs_view(prev).len() == prev.len());
                assert(pairs_view(r@) =~= pairs_view(prev).push((d.origin@, found@[k as int]@.start)));
                assert(spec_origin_points(d.origin@, ids)[k as int] == (d.origin@, ids[k as int].start));
                assert(pairs_view(r@) =~= mid + spec_origin_points(d.origin@, ids).take(k + 1));
            }
            k = k + 1;
        }
        proof {
            assert(spec_origin_points(d.origin@, ids).take(ids.len() as int) =~= spec_origin_points(
                d.origin@,
                ids,
            ));
            crate::node_ext::lemma_take_step(ds, i as int);
            assert(spec_table_points(ds[i as int], sp@) == spec_origin_points(
                d.origin@,
                spec_find_definitions(defs@[i as int]@.jumps, defs@[i as int]@.origin, sp@),
            ));
            assert(pairs_view(r@) =~= spec_all_points(ds.take(i + 1), sp@));
        }
        i = i + 1;
    }
    proof {
        assert(ds.take(ds.len() as int) =~= ds);
    }
    r
}

/// Answers a go-to-definition request over the loaded symbol tables: the
/// NASL findings when there are any; otherwise, and only then, the held
/// built-in table is consulted.
pub fn goto_definition_points(
    defs: &Vec<NASLDefinitions>,
    sp: &SearchParameter,
    builtins: &Option<OpenVASInBuildFunctions>,
) -> (r: Vec<(String, Point)>)
    ensures
        pairs_view(r@) == spec_goto_points(defs_views(defs@), sp@, option_view(*builtins)),
{
    let found = find_all_points(defs, sp);
    proof {
        assert(pairs_view(found@).len() == found@.len());
    }
    if found.len() > 0 {
        found
    } else {
        match builtins {
            Some(b) => b.find_origin_location(sp),
            None => found,
        }
    }
}

/// The result URI of an origin path: the path behind a `file://` scheme.
pub fn file_uri(path: &str) -> (r: String)
    ensures
        r@ == "file://"@ + path@,
{
    concat_str("file://", path)
}

} // verus!
