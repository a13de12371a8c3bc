//! The one-time image-build gate: per profile, the expensive build runs
//! at most once per process, however many requests arrive.

use vstd::prelude::*;

use crate::profile::Implementation;

verus! {

/// Which profiles' images have already been built in this process.
pub struct BuildGate {
    pub unbound: bool,
    pub hickory: bool,
    pub bind: bool,
}

impl BuildGate {
    /// Whether the image for `imp` has been built.
    pub open spec fn built(self, imp: Implementation) -> bool {
        match imp {
            Implementation::Unbound => self.unbound,
            Implementation::Hickory => self.hickory,
            Implementation::Bind => self.bind,
        }
    }

    /// Gate state once `imp` has been requested: its flag is set; every
    /// other profile keeps its flag.
    pub open spec fn after_ensure(self, imp: Implementation) -> BuildGate {
        match imp {
            Implementation::Unbound => BuildGate { unbound: true, ..self },
            Implementation::Hickory => BuildGate { hickory: true, ..self },
            Implementation::Bind => BuildGate { bind: true, ..self },
        }
    }

    /// A fresh gate: nothing has been built.
    pub fn new() -> (g: BuildGate)
        ensures
            forall|imp: Implementation| !g.built(imp),
    {
        BuildGate { unbound: false, hickory: false, bind: false }
    }

    /// Decides whether the caller must build the image for `imp` now:
    /// true exactly on the first request naming the profile; afterwards
    /// the profile counts as built. A build failure is fatal to fixture
    /// setup and is the caller's to raise, so nothing is reported here.
    pub fn ensure_built(&mut self, imp: &Implementation) -> (needs_build: bool)
        ensures
            needs_build == !old(self).built(*imp),
            *final(self) == old(self).after_ensure(*imp),
    {
        match imp {
            Implementation::Unbound => {
                let needs = !self.unbound;
                self.unbound = true;
                needs
            },
            Implementation::Hickory => {
                let needs = !self.hickory;
                self.hickory = true;
                needs
            },
            Implementation::Bind => {
                let needs = !self.bind;
                self.bind = true;
                needs
            },
        }
    }
}

/// How many of the requests in `reqs`, served in order against gate `g`,
/// perform a build for profile `imp`.
pub open spec fn builds_for(g: BuildGate, reqs: Seq<Implementation>, imp: Implementation) -> nat
    decreases reqs.len(),
{
    if reqs.len() == 0 {
        0
    } else {
        (if reqs[0] == imp && !g.built(imp) {
            1nat
        } else {
            0nat
        }) + builds_for(g.after_ensure(reqs[0]), reqs.drop_first(), imp)
    }
}

/// However many requests run in sequence, a profile's image is built at
/// most once per process; starting from a fresh gate it is built exactly
/// once as soon as any request names the profile.
pub proof fn lemma_build_at_most_once(g: BuildGate, reqs: Seq<Implementation>, imp: Implementation)
    ensures
        builds_for(g, reqs, imp) <= 1,
        g.built(imp) ==> builds_for(g, reqs, imp) == 0,
        !g.built(imp) && reqs.contains(imp) ==> builds_for(g, reqs, imp) == 1,
    decreases reqs.len(),
{
    if reqs.len() > 0 {
        let g1 = g.after_ensure(reqs[0]);
        lemma_build_at_most_once(g1, reqs.drop_first(), imp);
        assert(g1.built(imp) == (g.built(imp) || reqs[0] == imp));
        if !g.built(imp) && reqs.contains(imp) && reqs[0] != imp {
            let i = choose|i: int| 0 <= i < reqs.len() && reqs[i] == imp;
            assert(reqs.drop_first()[i - 1] == imp);
            assert(reqs.drop_first().contains(imp));
        }
    }
}

} // verus!
