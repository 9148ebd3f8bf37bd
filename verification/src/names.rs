//! Package names: a scope and a name, rendered `scope/name`.

use vstd::prelude::*;

verus! {

/// The identity of a package in the registry: its scope and its name.
#[derive(Debug, Clone)]
pub struct PackageName {
    pub scope: String,
    pub name: String,
}

impl PackageName {
    /// The textual form `scope/name`.
    pub open spec fn display_seq(self) -> Seq<char> {
        self.scope@ + seq!['/'] + self.name@
    }

    /// Renders the name in its textual form.
    pub fn text(&self) -> (r: String)
        ensures
            r@ == self.display_seq(),
    {
        let mut r = self.scope.clone();
        let slash = "/";
        proof {
            reveal_strlit("/");
            assert(slash@ =~= seq!['/']);
        }
        r.append(slash);
        r.append(self.name.as_str());
        r
    }
}

} // verus!
