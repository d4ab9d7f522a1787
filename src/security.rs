//! The security-scopes value handed to dependencies that ask for it.
use vstd::prelude::*;

verus! {

/// The scope names joined by single spaces.
pub open spec fn join_scopes(s: Seq<Seq<char>>) -> Seq<char>
    decreases s.len(),
{
    if s.len() == 0 {
        Seq::empty()
    } else if s.len() == 1 {
        s[0]
    } else {
        join_scopes(s.drop_last()) + seq![' '] + s.last()
    }
}

#[derive(Clone, Debug)]
pub struct PySecurityScopes {
    pub scopes: Vec<String>,
}

impl PySecurityScopes {
    /// The given scopes, or none.
    pub fn new(scopes: Option<Vec<String>>) -> (r: Self)
        ensures
            scopes.is_some() ==> r.scopes == scopes.unwrap(),
            scopes.is_none() ==> r.scopes@.len() == 0,
    {
        match scopes {
            Some(s) => PySecurityScopes { scopes: s },
            None => PySecurityScopes { scopes: Vec::new() },
        }
    }

    pub fn scope_str(&self) -> (r: String)
        ensures
            r@ == join_scopes(self.scopes@.map_values(|x: String| x@)),
    {
        let ghost names = self.scopes@.map_values(|x: String| x@);
        let mut out = String::new();
        let mut i: usize = 0;
        while i < self.scopes.len()
            invariant
                i <= self.scopes@.len(),
                names == self.scopes@.map_values(|x: String| x@),
                out@ == join_scopes(names.take(i as int)),
            decreases self.scopes@.len() - i,
        {
            let ghost t = names.take(i as int + 1);
            assert(t.drop_last() =~= names.take(i as int));
            assert(t.last() == self.scopes@[i as int]@);
            proof {
                reveal_strlit(" ");
            }
            if i > 0 {
                out.append(" ");
            }
            out.append(self.scopes[i].as_str());
            proof {
                if i == 0 {
                    assert(out@ =~= t[0]);
                }
            }
            i = i + 1;
        }
        assert(names.take(i as int) =~= names);
        out
    }
}

} // verus!
