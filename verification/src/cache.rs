use vstd::prelude::*;

use crate::openvas_funcs::{
    c_cst, spec_builtin_items, OpenVASBuiltinsV, OpenVASInBuildFunctions,
};
use crate::strutil::{chars_of, concat_str};

verus! {

/// Process-lifetime configuration: the include-search roots, and the
/// built-in table parsed from the OpenVAS C sources, once one was supplied.
#[derive(Debug)]
pub struct Cache {
    pub paths: Vec<String>,
    internal: Option<OpenVASInBuildFunctions>,
}

impl Cache {
    /// The built-in table currently held, as a mathematical value.
    pub closed spec fn spec_internal(&self) -> Option<OpenVASBuiltinsV> {
        match self.internal {
            Some(b) => Some(b@),
            None => None,
        }
    }

    /// The include-search roots currently held.
    pub closed spec fn spec_paths(&self) -> Seq<Seq<char>> {
        crate::interpret::strings_view(self.paths@)
    }

    /// Creates a cache over the given search roots, holding no built-ins.
    pub fn new(paths: Vec<String>) -> (r: Cache)
        ensures
            r.spec_paths() == crate::interpret::strings_view(paths@),
            r.spec_internal() is None,
    {
        Cache { paths, internal: None }
    }

    /// Adds search roots at the end, keeping the built-in table.
    pub fn update_paths(&mut self, paths: Vec<String>)
        ensures
            final (self).spec_paths() == old(self).spec_paths() + crate::interpret::strings_view(
                paths@,
            ),
            final (self).spec_internal() == old(self).spec_internal(),
    {
        let ghost p0 = self.paths@;
        let ghost added = paths@;
        let mut p = paths;
        self.paths.append(&mut p);
        proof {
            assert(crate::interpret::strings_view(p0 + added)
                =~= crate::interpret::strings_view(p0) + crate::interpret::strings_view(added));
        }
    }

    /// Parses the given C source text and holds the built-in table it
    /// yields; when parsing fails, the held table stays as it was.
    pub fn set_internal(&mut self, origin: String, code: String)
        ensures
            final (self).spec_paths() == old(self).spec_paths(),
            match c_cst(code@) {
                Ok(root) => match final (self).spec_internal() {
                    Some(b) => b.origin == origin@ && b.definitions == spec_builtin_items(
                        root.children@,
                    ),
                    None => false,
                },
                Err(_) => final (self).spec_internal() == old(self).spec_internal(),
            },
    {
        match OpenVASInBuildFunctions::new(origin, code) {
            Ok(i) => {
                self.internal = Some(i);
            },
            Err(_) => {},
        }
    }

    /// A copy of the held built-in table, when one was set.
    pub fn internal(&mut self) -> (r: Option<OpenVASInBuildFunctions>)
        ensures
            final (self).spec_paths() == old(self).spec_paths(),
            final (self).spec_internal() == old(self).spec_internal(),
            match r {
                Some(b) => old(self).spec_internal() == Some(b@),
                None => old(self).spec_internal() is None,
            },
    {
        match &self.internal {
            Some(b) => Some(b.clone()),
            None => None,
        }
    }
}

/// The path of the built-in table's C source: a path already naming a `.c`
/// file is used as is; anything else is taken as the OpenVAS source root,
/// under which the table sits at `nasl/nasl_init.c`.
pub open spec fn spec_openvas_init_path(p: Seq<char>) -> Seq<char> {
    if p.len() >= 2 && p.subrange(p.len() - 2, p.len() as int) == ".c"@ {
        p
    } else {
        p + "/nasl/nasl_init.c"@
    }
}

/// Resolves the configured OpenVAS path to the C file holding `libfuncs`.
pub fn openvas_init_path(path: &str) -> (r: String)
    ensures
        r@ == spec_openvas_init_path(path@),
{
    let cs = chars_of(path);
    proof {
        reveal_strlit(".c");
    }
    if cs.len() >= 2 && cs[cs.len() - 2] == '.' && cs[cs.len() - 1] == 'c' {
        proof {
            assert(path@.subrange(path@.len() - 2, path@.len() as int) =~= ".c"@);
        }
        path.to_owned()
    } else {
        proof {
            assert(!(path@.len() >= 2 && path@.subrange(path@.len() - 2, path@.len() as int)
                == ".c"@)) by {
                reveal_strlit(".c");
                if path@.len() >= 2 && path@.subrange(path@.len() - 2, path@.len() as int)
                    == ".c"@ {
                    assert(path@.subrange(path@.len() - 2, path@.len() as int)[0] == path@[path@.len()
                        - 2]);
                    assert(path@.subrange(path@.len() - 2, path@.len() as int)[1] == path@[path@.len()
                        - 1]);
                }
            };
        }
        concat_str(path, "/nasl/nasl_init.c")
    }
}

} // verus!
