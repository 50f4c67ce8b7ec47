//! Shell variables as the expansion code reads them.

use vstd::prelude::*;

verus! {

/// The value bound to `name` by the first entry with that name, if any.
pub open spec fn lookup_in(vars: Seq<(Seq<char>, Seq<char>)>, name: Seq<char>) -> Option<Seq<char>>
    decreases vars.len(),
{
    if vars.len() == 0 {
        None
    } else if vars[0].0 == name {
        Some(vars[0].1)
    } else {
        lookup_in(vars.drop_first(), name)
    }
}

/// Shell variables, in the order they were first set.
pub struct ShellEnvironment {
    vars: Vec<(String, String)>,
}

impl View for ShellEnvironment {
    type V = Seq<(Seq<char>, Seq<char>)>;

    closed spec fn view(&self) -> Seq<(Seq<char>, Seq<char>)> {
        self.vars@.map_values(|p: (String, String)| (p.0@, p.1@))
    }
}

proof fn lemma_lookup_update(vars: Seq<(Seq<char>, Seq<char>)>, i: int, name: Seq<char>, value: Seq<char>, n: Seq<char>)
    requires
        0 <= i < vars.len(),
        vars[i].0 == name,
        forall|k: int| 0 <= k < i ==> vars[k].0 != name,
    ensures
        lookup_in(vars.update(i, (name, value)), n) == if n == name { Some(value) } else { lookup_in(vars, n) },
    decreases i,
{
    let u = vars.update(i, (name, value));
    if i > 0 {
        assert(u.drop_first() =~= vars.drop_first().update(i - 1, (name, value)));
        assert(u[0] == vars[0]);
        lemma_lookup_update(vars.drop_first(), i - 1, name, value, n);
    } else {
        assert(u.drop_first() =~= vars.drop_first());
    }
}

proof fn lemma_lookup_push(vars: Seq<(Seq<char>, Seq<char>)>, name: Seq<char>, value: Seq<char>, n: Seq<char>)
    requires
        forall|k: int| 0 <= k < vars.len() ==> vars[k].0 != name,
    ensures
        lookup_in(vars.push((name, value)), n) == if n == name { Some(value) } else { lookup_in(vars, n) },
    decreases vars.len(),
{
    let p = vars.push((name, value));
    if vars.len() > 0 {
        assert(p.drop_first() =~= vars.drop_first().push((name, value)));
        assert(p[0] == vars[0]);
        lemma_lookup_push(vars.drop_first(), name, value, n);
        assert(lookup_in(p, n) == if p[0].0 == n { Some(p[0].1) } else { lookup_in(p.drop_first(), n) });
        assert(lookup_in(vars, n) == if vars[0].0 == n { Some(vars[0].1) } else { lookup_in(vars.drop_first(), n) });
    } else {
        assert(p.drop_first() =~= Seq::<(Seq<char>, Seq<char>)>::empty());
        assert(p[0] == (name, value));
        assert(lookup_in(p.drop_first(), n) is None);
    }
}

impl ShellEnvironment {
    /// The value of `name`, if set.
    pub open spec fn spec_lookup(&self, name: Seq<char>) -> Option<Seq<char>> {
        lookup_in(self@, name)
    }

    /// An environment with no variables.
    pub fn new() -> (env: Self)
        ensures
            env@ == Seq::<(Seq<char>, Seq<char>)>::empty(),
    {
        let env = ShellEnvironment { vars: Vec::new() };
        assert(env@ =~= Seq::<(Seq<char>, Seq<char>)>::empty());
        env
    }

    /// Looks up a variable by name.
    pub fn lookup(&self, name: &String) -> (r: Option<&String>)
        ensures
            match r {
                Some(v) => self.spec_lookup(name@) == Some(v@),
                None => self.spec_lookup(name@) is None,
            },
    {
        let mut i: usize = 0;
        assert(self@.skip(0) =~= self@);
        while i < self.vars.len()
            invariant
                i <= self.vars@.len(),
                self@.len() == self.vars@.len(),
                lookup_in(self@, name@) == lookup_in(self@.skip(i as int), name@),
            decreases self.vars.len() - i,
        {
            assert(self@.skip(i as int).drop_first() =~= self@.skip(i + 1));
            if self.vars[i].0 == *name {
                return Some(&self.vars[i].1);
            }
            i += 1;
        }
        None
    }

    /// Binds `name` to `value`, replacing an existing binding.
    pub fn set(&mut self, name: &str, value: &str)
        ensures
            forall|n: Seq<char>| #[trigger] final(self).spec_lookup(n)
                == if n == name@ { Some(value@) } else { old(self).spec_lookup(n) },
    {
        let key = String::from_str(name);
        let val = String::from_str(value);
        let ghost old_view = self@;
        let mut i: usize = 0;
        while i < self.vars.len()
            invariant
                i <= self.vars@.len(),
                self@ == old_view,
                old_view == old(self)@,
                self@.len() == self.vars@.len(),
                key@ == name@,
                val@ == value@,
                forall|k: int| 0 <= k < i ==> self@[k].0 != name@,
            decreases self.vars.len() - i,
        {
            if self.vars[i].0 == key {
                assert(old_view[i as int] == (self.vars@[i as int].0@, self.vars@[i as int].1@));
                assert(old_view[i as int].0 == name@);
                self.vars.set(i, (key, val));
                proof {
                    assert(self@ =~= old_view.update(i as int, (name@, value@)));
                    assert forall|n: Seq<char>| #[trigger] self.spec_lookup(n)
                        == if n == name@ { Some(value@) } else { lookup_in(old_view, n) } by {
                        lemma_lookup_update(old_view, i as int, name@, value@, n);
                    }
                }
                return;
            }
            i += 1;
        }
        self.vars.push((key, val));
        proof {
            assert(self@ =~= old_view.push((name@, value@)));
            assert forall|n: Seq<char>| #[trigger] self.spec_lookup(n)
                == if n == name@ { Some(value@) } else { lookup_in(old_view, n) } by {
                lemma_lookup_push(old_view, name@, value@, n);
            }
        }
    }

    /// An independent copy with the same bindings (what a subshell, a
    /// pipeline builtin or a command substitution runs in).
    pub fn duplicate(&self) -> (r: Self)
        ensures
            r@ == self@,
    {
        let mut vars: Vec<(String, String)> = Vec::new();
        let mut i: usize = 0;
        while i < self.vars.len()
            invariant
                i <= self.vars@.len(),
                vars@.map_values(|p: (String, String)| (p.0@, p.1@)) == self@.take(i as int),
                self@ == self.vars@.map_values(|p: (String, String)| (p.0@, p.1@)),
            decreases self.vars.len() - i,
        {
            let ghost before = vars@.map_values(|p: (String, String)| (p.0@, p.1@));
            let k = self.vars[i].0.clone();
            let v = self.vars[i].1.clone();
            vars.push((k, v));
            proof {
                assert(vars@.map_values(|p: (String, String)| (p.0@, p.1@)) =~= before.push(self@[i as int]));
                assert(self@.take(i + 1) =~= self@.take(i as int).push(self@[i as int]));
            }
            i += 1;
        }
        assert(self@.take(self@.len() as int) =~= self@);
        ShellEnvironment { vars }
    }

    /// The bindings, in the order they were first set.
    pub fn vars(&self) -> (r: &Vec<(String, String)>)
        ensures
            r@.map_values(|p: (String, String)| (p.0@, p.1@)) == self@,
    {
        &self.vars
    }
}

} // verus!
