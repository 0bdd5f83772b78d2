use vstd::prelude::*;

use crate::interpret::strings_view;
use crate::strutil::{concat_str, spec_strip_scheme, strip_file_scheme};

verus! {

/// One candidate path: the root, a slash, and the include name, with a
/// leading `file://` scheme removed.
pub open spec fn spec_candidate(root: Seq<char>, inc: Seq<char>) -> Seq<char> {
    spec_strip_scheme(root + "/"@ + inc)
}

/// The candidates one include name yields: one per root, in root order.
pub open spec fn spec_candidates_for(inc: Seq<char>, roots: Seq<Seq<char>>) -> Seq<Seq<char>> {
    roots.map_values(|r: Seq<char>| spec_candidate(r, inc))
}

/// Every candidate path: for each include name, each root, in order.
pub open spec fn spec_include_candidates(includes: Seq<Seq<char>>, roots: Seq<Seq<char>>) -> Seq<
    Seq<char>,
>
    decreases includes,
{
    if includes.len() == 0 {
        Seq::empty()
    } else {
        spec_include_candidates(includes.drop_last(), roots) + spec_candidates_for(
            includes.last(),
            roots,
        )
    }
}

/// Builds one candidate path.
pub fn candidate(root: &str, inc: &str) -> (r: String)
    ensures
        r@ == spec_candidate(root@, inc@),
{
    let joined = concat_str(concat_str(root, "/").as_str(), inc);
    strip_file_scheme(joined.as_str())
}

/// Builds every candidate path for the given include names and search
/// roots: for each include name, each root joined with a slash, with a
/// leading `file://` scheme removed. Callers test which candidates exist on
/// disk and load those.
pub fn include_candidates(includes: &Vec<String>, roots: &Vec<String>) -> (r: Vec<String>)
    ensures
        strings_view(r@) == spec_include_candidates(strings_view(includes@), strings_view(roots@)),
{
    let ghost incs = strings_view(includes@);
    let ghost rts = strings_view(roots@);
    let mut r: Vec<String> = Vec::new();
    proof {
        assert(incs.take(0) =~= Seq::<Seq<char>>::empty());
        assert(strings_view(r@) =~= spec_include_candidates(incs.take(0), rts));
    }
    let mut i: usize = 0;
    while i < includes.len()
        invariant
            i <= includes.len(),
            incs == strings_view(includes@),
            rts == strings_view(roots@),
            incs.len() == includes@.len(),
            rts.len() == roots@.len(),
            strings_view(r@) == spec_include_candidates(incs.take(i as int), rts),
        decreases includes.len() - i,
    {
        let ghost mid = strings_view(r@);
        let inc = &includes[i];
        proof {
            assert(incs[i as int] == includes@[i as int]@);
        }
        let mut k: usize = 0;
        proof {
            assert(spec_candidates_for(inc@, rts).take(0) =~= Seq::<Seq<char>>::empty());
            assert(strings_view(r@) =~= mid + spec_candidates_for(inc@, rts).take(0));
        }
        while k < roots.len()
            invariant
                k <= roots.len(),
                incs == strings_view(includes@),
                rts == strings_view(roots@),
                rts.len() == roots@.len(),
                strings_view(r@) == mid + spec_candidates_for(inc@, rts).take(k as int),
            decreases roots.len() - k,
        {
            let ghost prev = r@;
            let c = candidate(roots[k].as_str(), inc.as_str());
            let ghost cv = c@;
            r.push(c);
            proof {
                assert(rts[k as int] == roots@[k as int]@);
                assert(spec_candidates_for(inc@, rts)[k as int] == spec_candidate(
                    rts[k as int],
                    inc@,
                ));
                assert(strings_view(r@) =~= strings_view(prev).push(cv));
                assert(strings_view(r@) =~= mid + spec_candidates_for(inc@, rts).take(k + 1));
            }
            k = k + 1;
        }
        proof {
            assert(spec_candidates_for(inc@, rts).take(rts.len() as int) =~= spec_candidates_for(
                inc@,
                rts,
            ));
            crate::node_ext::lemma_take_step(incs, i as int);
            assert(strings_view(r@) =~= spec_include_candidates(incs.take(i + 1), rts));
        }
        i = i + 1;
    }
    proof {
        assert(incs.take(incs.len() as int) =~= incs);
    }
    r
}

} // verus!
