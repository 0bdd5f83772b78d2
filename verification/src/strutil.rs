use vstd::prelude::*;
use vstd::std_specs::iter::IteratorSpec;

verus! {

/// Collects the characters of a string, in order.
pub fn chars_of(s: &str) -> (r: Vec<char>)
    ensures
        r@ == s@,
{
    let mut r: Vec<char> = Vec::new();
    let mut it = s.chars();
    let mut done = false;
    proof {
        assert(r@ + it.remaining() =~= s@);
    }
    while !done
        invariant
            r@ + it.remaining() == s@,
            done ==> it.remaining().len() == 0,
        decreases (if done {
            0int
        } else {
            1int
        }), s@.len() - r@.len(),
    {
        let ghost prev = r@;
        match it.next() {
            Some(c) => {
                r.push(c);
                proof {
                    assert(r@ + it.remaining() =~= s@);
                }
            },
            None => {
                done = true;
            },
        }
    }
    proof {
        assert(r@ =~= s@);
    }
    r
}

/// Relies on String's FromIterator over characters: the collected string
/// holds exactly the vector's characters, in order.
#[verifier::external_body]
pub fn string_from_chars(v: &Vec<char>) -> (r: String)
    ensures
        r@ == v@,
{
    v.iter().collect()
}

/// The string without a leading `file://` scheme, when it carries one.
pub open spec fn spec_strip_scheme(s: Seq<char>) -> Seq<char> {
    if s.len() >= 7 && s.subrange(0, 7) == "file://"@ {
        s.skip(7)
    } else {
        s
    }
}

/// Removes a leading `file://` scheme, if present.
pub fn strip_file_scheme(s: &str) -> (r: String)
    ensures
        r@ == spec_strip_scheme(s@),
{
    let cs = chars_of(s);
    proof {
        reveal_strlit("file://");
    }
    if cs.len() >= 7 && cs[0] == 'f' && cs[1] == 'i' && cs[2] == 'l' && cs[3] == 'e' && cs[4] == ':'
        && cs[5] == '/' && cs[6] == '/' {
        proof {
            assert(s@.subrange(0, 7) =~= "file://"@);
        }
        let mut out: Vec<char> = Vec::new();
        let mut i: usize = 7;
        while i < cs.len()
            invariant
                7 <= i <= cs.len(),
                cs@ == s@,
                out@ == s@.subrange(7, i as int),
            decreases cs.len() - i,
        {
            out.push(cs[i]);
            proof {
                assert(out@ =~= s@.subrange(7, i + 1));
            }
            i = i + 1;
        }
        proof {
            assert(out@ =~= s@.skip(7));
        }
        string_from_chars(&out)
    } else {
        proof {
            assert(!(s@.len() >= 7 && s@.subrange(0, 7) == "file://"@)) by {
                reveal_strlit("file://");
                if s@.len() >= 7 && s@.subrange(0, 7) == "file://"@ {
                    assert(s@.subrange(0, 7)[0] == s@[0]);
                    assert(s@.subrange(0, 7)[1] == s@[1]);
                    assert(s@.subrange(0, 7)[2] == s@[2]);
                    assert(s@.subrange(0, 7)[3] == s@[3]);
                    assert(s@.subrange(0, 7)[4] == s@[4]);
                    assert(s@.subrange(0, 7)[5] == s@[5]);
                    assert(s@.subrange(0, 7)[6] == s@[6]);
                }
            };
        }
        s.to_owned()
    }
}

/// The string followed by another: plain concatenation.
pub fn concat_str(a: &str, b: &str) -> (r: String)
    ensures
        r@ == a@ + b@,
{
    let r = a.to_owned();
    r.concat(b)
}

} // verus!
