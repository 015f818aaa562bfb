use vstd::prelude::*;

use crate::text::str_equal;

verus! {

/// Whether a name is registered, comparing character for character.
pub open spec fn spec_registered(names: Seq<String>, name: Seq<char>) -> bool {
    exists|i: int| 0 <= i < names.len() && (#[trigger] names[i])@ == name
}

/// The per-context function registry: every scalar or aggregate function the
/// planner can resolve is registered by name once per context, and lookup is
/// case-sensitive.
pub struct FunctionRegistry {
    names: Vec<String>,
}

impl FunctionRegistry {
    /// Whether a function name is registered.
    pub closed spec fn spec_contains(self, name: Seq<char>) -> bool {
        spec_registered(self.names@, name)
    }

    /// How many names are registered.
    pub closed spec fn spec_len(self) -> nat {
        self.names@.len()
    }

    /// An empty registry.
    pub fn new() -> (r: FunctionRegistry)
        ensures
            forall|n: Seq<char>| !r.spec_contains(n),
            r.spec_len() == 0,
    {
        FunctionRegistry { names: Vec::new() }
    }

    /// Case-sensitive lookup.
    pub fn contains(&self, name: &str) -> (r: bool)
        ensures
            r == self.spec_contains(name@),
    {
        let n = self.names.len();
        let mut i: usize = 0;
        while i < n
            invariant
                i <= n,
                n == self.names@.len(),
                forall|k: int| 0 <= k < i ==> (#[trigger] self.names@[k])@ != name@,
            decreases n - i,
        {
            if str_equal(self.names[i].as_str(), name) {
                return true;
            }
            i += 1;
        }
        false
    }

    /// Registers a function name. Each name binds once per context: a second
    /// registration of the same name is refused and changes nothing, and
    /// every other name keeps its binding.
    pub fn register(&mut self, name: String) -> (fresh: bool)
        ensures
            fresh == !old(self).spec_contains(name@),
            final(self).spec_contains(name@),
            forall|n: Seq<char>|
                n != name@ ==> final(self).spec_contains(n) == old(self).spec_contains(n),
            fresh ==> final(self).spec_len() == old(self).spec_len() + 1,
            !fresh ==> *final(self) == *old(self),
    {
        if self.contains(name.as_str()) {
            false
        } else {
            let ghost before = self.names@;
            let ghost added = name@;
            self.names.push(name);
            proof {
                assert(self.names@[before.len() as int]@ == added);
                assert forall|n: Seq<char>|
                    n != added implies spec_registered(self.names@, n) == spec_registered(
                    before,
                    n,
                ) by {
                    if spec_registered(self.names@, n) {
                        let i = choose|i: int|
                            0 <= i < self.names@.len() && (#[trigger] self.names@[i])@ == n;
                        assert(i < before.len());
                        assert(before[i] == self.names@[i]);
                    }
                    if spec_registered(before, n) {
                        let i = choose|i: int|
                            0 <= i < before.len() && (#[trigger] before[i])@ == n;
                        assert(self.names@[i] == before[i]);
                    }
                }
            }
            true
        }
    }
}

} // verus!
