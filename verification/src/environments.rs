use vstd::prelude::*;

use crate::text::str_eq;

verus! {

/// A variable of an environment: its name, its value and whether it is used.
pub struct EnvironmentVariable {
    pub key: String,
    pub value: String,
    pub enabled: bool,
}

/// A variable as a triple of key, value and whether it is used.
pub open spec fn var_model(v: EnvironmentVariable) -> (Seq<char>, Seq<char>, bool) {
    (v.key@, v.value@, v.enabled)
}

/// The variables as triples.
pub open spec fn var_models(vs: Seq<EnvironmentVariable>) -> Seq<(Seq<char>, Seq<char>, bool)> {
    vs.map_values(|v: EnvironmentVariable| var_model(v))
}

/// The variables, in order, whose key is not `key`.
pub open spec fn without_key(vs: Seq<(Seq<char>, Seq<char>, bool)>, key: Seq<char>) -> Seq<
    (Seq<char>, Seq<char>, bool),
>
    decreases vs.len(),
{
    if vs.len() == 0 {
        Seq::empty()
    } else {
        let rest = without_key(vs.drop_last(), key);
        if vs.last().0 == key {
            rest
        } else {
            rest.push(vs.last())
        }
    }
}

impl EnvironmentVariable {
    /// A variable that is used.
    pub fn new(key: String, value: String) -> (r: EnvironmentVariable)
        ensures
            var_model(r) == (key@, value@, true),
    {
        EnvironmentVariable { key, value, enabled: true }
    }
}

/// An environment of variables, by its id and name.
pub struct Environment {
    pub id: String,
    pub name: String,
    pub variables: Vec<EnvironmentVariable>,
}

impl Environment {
    /// The variables as triples.
    pub open spec fn vars(self) -> Seq<(Seq<char>, Seq<char>, bool)> {
        var_models(self.variables@)
    }

    /// Adds a variable after the others.
    pub fn add_variable(&mut self, var: EnvironmentVariable)
        ensures
            final(self).id == old(self).id,
            final(self).name == old(self).name,
            final(self).vars() == old(self).vars().push(var_model(var)),
    {
        self.variables.push(var);
        proof { assert(var_models(self.variables@) =~= var_models(old(self).variables@).push(var_model(var))); }
    }

    /// Removes every variable whose key is `key`; the others keep their order.
    pub fn remove_variable(&mut self, key: &str)
        ensures
            final(self).id == old(self).id,
            final(self).name == old(self).name,
            final(self).vars() == without_key(old(self).vars(), key@),
    {
        let mut old_vars: Vec<EnvironmentVariable> = Vec::new();
        std::mem::swap(&mut old_vars, &mut self.variables);
        let ghost all = var_models(old_vars@);
        let mut kept: Vec<EnvironmentVariable> = Vec::new();
        let mut i: usize = 0;
        while i < old_vars.len()
            invariant
                all == var_models(old_vars@),
                i <= old_vars@.len(),
                var_models(kept@) == without_key(all.take(i as int), key@),
            decreases old_vars@.len() - i,
        {
            proof { assert(all.take(i + 1).drop_last() =~= all.take(i as int)); }
            if !str_eq(&old_vars[i].key, key) {
                let v = EnvironmentVariable {
                    key: old_vars[i].key.clone(),
                    value: old_vars[i].value.clone(),
                    enabled: old_vars[i].enabled,
                };
                let ghost before = var_models(kept@);
                kept.push(v);
                proof { assert(var_models(kept@) =~= before.push(var_model(v))); }
            }
            i += 1;
        }
        proof { assert(all.take(i as int) =~= all); }
        self.variables = kept;
    }
}

} // verus!
