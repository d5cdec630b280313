//! The environment: a stack of scopes, each mapping names to expressions.
//!
//! The innermost scope is the last one.  Lookup walks from the innermost
//! scope outward; `def` writes into the innermost scope.  A scope is pushed
//! for the duration of one user-defined function call and popped when the
//! call's body has been evaluated.

use crate::error::{RispError, RispResult};
use crate::parser::{exp_view, ExpV, RispExp};
use vstd::prelude::*;

verus! {

/// One scope, as bindings in insertion order.
pub type ScopeV = Seq<(Seq<char>, ExpV)>;

/// The whole chain, outermost scope first.
pub type EnvV = Seq<ScopeV>;

pub struct RispEnv {
    scopes: Vec<Vec<(String, RispExp)>>,
}

pub open spec fn scope_view(sc: Seq<(String, RispExp)>) -> ScopeV {
    Seq::new(sc.len(), |i: int| (sc[i].0@, exp_view(sc[i].1)))
}

impl View for RispEnv {
    type V = EnvV;

    closed spec fn view(&self) -> EnvV {
        Seq::new(self.scopes@.len(), |i: int| scope_view(self.scopes@[i]@))
    }
}

/// The first binding for `name` in the scope, front to back.
pub open spec fn scope_lookup_from(sc: ScopeV, name: Seq<char>, i: int) -> Option<ExpV>
    decreases sc.len() - i,
{
    if i < 0 || i >= sc.len() {
        None
    } else if sc[i].0 == name {
        Some(sc[i].1)
    } else {
        scope_lookup_from(sc, name, i + 1)
    }
}

pub open spec fn scope_lookup(sc: ScopeV, name: Seq<char>) -> Option<ExpV> {
    scope_lookup_from(sc, name, 0)
}

/// The binding for `name`, innermost scope first.
pub open spec fn env_lookup_from(env: EnvV, name: Seq<char>, i: int) -> Option<ExpV>
    decreases i + 1,
{
    if i < 0 || i >= env.len() {
        None
    } else {
        match scope_lookup(env[i], name) {
            Some(v) => Some(v),
            None => env_lookup_from(env, name, i - 1),
        }
    }
}

pub open spec fn env_lookup(env: EnvV, name: Seq<char>) -> Option<ExpV> {
    env_lookup_from(env, name, env.len() - 1)
}

/// The position of the first binding for `name` in the scope, if any.
pub open spec fn first_key_idx(sc: ScopeV, name: Seq<char>, i: int) -> Option<int>
    decreases sc.len() - i,
{
    if i < 0 || i >= sc.len() {
        None
    } else if sc[i].0 == name {
        Some(i)
    } else {
        first_key_idx(sc, name, i + 1)
    }
}

/// The scope after `name -> v` is written: the first existing binding is
/// overwritten in place, a fresh name is appended.
pub open spec fn scope_def(sc: ScopeV, name: Seq<char>, v: ExpV) -> ScopeV {
    match first_key_idx(sc, name, 0) {
        Some(j) => sc.update(j, (name, v)),
        None => sc.push((name, v)),
    }
}

/// The environment after `name -> v` is written into the innermost scope.
pub open spec fn env_def(env: EnvV, name: Seq<char>, v: ExpV) -> EnvV {
    env.update(env.len() - 1, scope_def(env[env.len() - 1], name, v))
}

impl RispEnv {
    /// A well-formed environment always has its global scope.
    pub open spec fn wf(&self) -> bool {
        self@.len() >= 1
    }

    pub fn new() -> (r: RispEnv)
        ensures
            r.wf(),
            r@ =~= seq![Seq::<(Seq<char>, ExpV)>::empty()],
    {
        let mut scopes: Vec<Vec<(String, RispExp)>> = Vec::new();
        scopes.push(Vec::new());
        let r = RispEnv { scopes };
        proof {
            assert(r@[0] =~= Seq::<(Seq<char>, ExpV)>::empty());
            assert(r@ =~= seq![Seq::<(Seq<char>, ExpV)>::empty()]);
        }
        r
    }

    /// Bind `name` to `exp` in the innermost scope; always succeeds and
    /// evaluates to nil.
    #[verifier::loop_isolation(false)]
    pub fn def(&mut self, name: &String, exp: &RispExp) -> (r: RispResult<RispExp>)
        requires
            old(self).wf(),
        ensures
            final(self).wf(),
            final(self)@ == env_def(old(self)@, name@, exp_view(*exp)),
            r matches Ok(e) && e@ == ExpV::Nil,
    {
        let ghost env0 = self@;
        let last = self.scopes.len() - 1;
        let ghost sc0 = scope_view(self.scopes@[last as int]@);
        let pair = (name.clone(), exp.clone());
        let n = self.scopes[last].len();
        let mut j: usize = 0;
        let mut found = false;
        while j < n && !found
            invariant
                last < self.scopes@.len(),
                self@ == env0,
                n == self.scopes@[last as int]@.len(),
                j <= n,
                !found ==> first_key_idx(sc0, name@, 0) == first_key_idx(sc0, name@, j as int),
                found ==> j < n && first_key_idx(sc0, name@, 0) == Some(j as int),
            decreases n - j + if found {
                0int
            } else {
                1int
            },
    {
            if self.scopes[last][j].0 == *name {
                found = true;
            } else {
                j = j + 1;
            }
        }
        if found {
            let scope = &mut self.scopes[last];
            scope[j] = pair;
            proof {
                assert(scope_view(self.scopes@[last as int]@) =~= sc0.update(
                    j as int,
                    (name@, exp_view(*exp)),
                ));
                assert(self@ =~= env0.update(
                    env0.len() - 1,
                    sc0.update(j as int, (name@, exp_view(*exp))),
                ));
                assert(self@ =~= env_def(env0, name@, exp_view(*exp)));
            }
        } else {
            let scope = &mut self.scopes[last];
            scope.push(pair);
            proof {
                assert(scope_view(self.scopes@[last as int]@) =~= sc0.push(
                    (name@, exp_view(*exp)),
                ));
                assert(self@ =~= env0.update(env0.len() - 1, sc0.push((name@, exp_view(*exp)))));
                assert(self@ =~= env_def(env0, name@, exp_view(*exp)));
            }
        }
        Ok(RispExp::Nil)
    }

    /// Whether `name` is bound in any scope.
    #[verifier::loop_isolation(false)]
    pub fn has_interned_var(&self, name: &String) -> (r: bool)
        ensures
            r == (env_lookup(self@, name@) is Some),
    {
        match self.get(name) {
            Some(_) => true,
            None => false,
        }
    }

    /// The value bound to `name`, innermost scope first.
    #[verifier::loop_isolation(false)]
    pub fn get(&self, name: &String) -> (r: Option<&RispExp>)
        ensures
            match r {
                Some(e) => env_lookup(self@, name@) == Some(exp_view(*e)),
                None => env_lookup(self@, name@) is None,
            },
    {
        let depth = self.scopes.len();
        let mut i: usize = depth;
        while i > 0
            invariant
                depth == self.scopes@.len(),
                0 <= i <= depth,
                env_lookup(self@, name@) == env_lookup_from(self@, name@, i as int - 1),
            decreases i,
        {
            i = i - 1;
            let ghost sc = self@[i as int];
            let n = self.scopes[i].len();
            let mut j: usize = 0;
            while j < n
                invariant
                    i < depth == self.scopes@.len(),
                    n == self.scopes@[i as int]@.len(),
                    sc == self@[i as int],
                    0 <= j <= n,
                    scope_lookup(sc, name@) == scope_lookup_from(sc, name@, j as int),
                decreases n - j,
            {
                if self.scopes[i][j].0 == *name {
                    return Some(&self.scopes[i][j].1);
                }
                j = j + 1;
            }
        }
        None
    }

    /// Open a fresh innermost scope for one function call.
    pub fn push_scope(&mut self)
        ensures
            final(self)@ == old(self)@.push(Seq::<(Seq<char>, ExpV)>::empty()),
            final(self).wf(),
    {
        self.scopes.push(Vec::new());
        proof {
            assert(scope_view(self.scopes@.last()@) =~= Seq::<(Seq<char>, ExpV)>::empty());
            assert(self@ =~= old(self)@.push(Seq::<(Seq<char>, ExpV)>::empty()));
        }
    }

    /// Close the innermost scope when the call returns.
    pub fn pop_scope(&mut self)
        requires
            old(self)@.len() >= 2,
        ensures
            final(self)@ == old(self)@.drop_last(),
            final(self).wf(),
    {
        let _ = self.scopes.pop();
        proof {
            assert(self@ =~= old(self)@.drop_last());
        }
    }
}

impl Default for RispEnv {
    fn default() -> (r: RispEnv)
        ensures
            r.wf(),
            r@ =~= seq![Seq::<(Seq<char>, ExpV)>::empty()],
    {
        RispEnv::new()
    }
}

impl Clone for RispEnv {
    fn clone(&self) -> (r: Self)
        ensures
            r@ == self@,
    {
        let mut scopes: Vec<Vec<(String, RispExp)>> = Vec::new();
        let depth = self.scopes.len();
        let mut i: usize = 0;
        while i < depth
            invariant
                depth == self.scopes@.len(),
                0 <= i <= depth,
                scopes@.len() == i,
                forall|k: int|
                    0 <= k < i ==> scope_view(#[trigger] scopes@[k]@) == scope_view(
                        self.scopes@[k]@,
                    ),
            decreases depth - i,
        {
            let src = &self.scopes[i];
            let m = src.len();
            let mut sc: Vec<(String, RispExp)> = Vec::new();
            let mut j: usize = 0;
            while j < m
                invariant
                    m == src@.len(),
                    0 <= j <= m,
                    sc@.len() == j,
                    forall|t: int|
                        0 <= t < j ==> (#[trigger] sc@[t]).0@ == src@[t].0@ && exp_view(sc@[t].1)
                            == exp_view(src@[t].1),
                decreases m - j,
            {
                sc.push((src[j].0.clone(), src[j].1.clone()));
                j = j + 1;
            }
            proof {
                assert(scope_view(sc@) =~= scope_view(src@));
            }
            scopes.push(sc);
            i = i + 1;
        }
        let r = RispEnv { scopes };
        proof {
            assert(r@ =~= self@);
        }
        r
    }
}

} // verus!
