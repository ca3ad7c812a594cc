//! The icon table: named icons with a placeholder fallback, so a missing
//! name degrades to the library mark instead of failing.

use vstd::prelude::*;
use crate::resources::Image;
use crate::theme::brand::spec_named_lookup;

verus! {

/// A named icon table. Loading the image data is the host's concern; the
/// table stores handles under names.
pub struct IconResources(pub Vec<(String, Image)>);

impl IconResources {
    /// An empty table.
    pub fn new() -> (r: Self)
        ensures
            r.0@.len() == 0,
    {
        IconResources(Vec::new())
    }

    /// Whether the placeholder icon is present.
    pub open spec fn has_fallback(self) -> bool {
        spec_named_lookup(self.0@, "pelican_ui"@) >= 0
    }

    /// Looks an icon up by name. A known name answers its most recently
    /// inserted icon; an unknown name answers the placeholder instead of
    /// failing.
    pub fn get(&self, name: &String) -> (r: Image)
        requires
            self.has_fallback(),
        ensures
            r == if spec_named_lookup(self.0@, name@) >= 0 {
                self.0@[spec_named_lookup(self.0@, name@)].1
            } else {
                self.0@[spec_named_lookup(self.0@, "pelican_ui"@)].1
            },
    {
        match self.lookup(name) {
            Some(image) => image,
            None => {
                let fallback = "pelican_ui".to_owned();
                match self.lookup(&fallback) {
                    Some(image) => image,
                    None => unreached(),
                }
            },
        }
    }

    /// The most recently inserted icon under a name, if any.
    fn lookup(&self, name: &String) -> (r: Option<Image>)
        ensures
            r == if spec_named_lookup(self.0@, name@) >= 0 {
                Some(self.0@[spec_named_lookup(self.0@, name@)].1)
            } else {
                None::<Image>
            },
    {
        let n = self.0.len();
        let mut k: usize = n;
        while k > 0
            invariant
                0 <= k <= n,
                n == self.0@.len(),
                forall|j: int| k <= j < n ==> (#[trigger] self.0@[j]).0@ != name@,
            decreases k,
        {
            k = k - 1;
            let hit = self.0[k].0.eq(name);
            if hit {
                proof {
                    crate::theme::brand::lemma_named_lookup_at(self.0@, name@, k as int);
                }
                return Some(self.0[k].1);
            }
        }
        proof {
            crate::theme::brand::lemma_named_lookup_none(self.0@, name@);
        }
        None
    }

    /// Inserts an icon under a name, shadowing any earlier entry under it.
    pub fn insert(&mut self, icon_name: String, icon: Image)
        ensures
            final(self).0@ == old(self).0@.push((icon_name, icon)),
    {
        self.0.push((icon_name, icon));
    }

    /// Every named icon, in insertion order.
    pub fn all(&self) -> (r: Vec<(String, Image)>)
        ensures
            r@.len() == self.0@.len(),
            forall|j: int| 0 <= j < r@.len()
                ==> (#[trigger] r@[j]).0@ == self.0@[j].0@ && r@[j].1 == self.0@[j].1,
    {
        let mut r: Vec<(String, Image)> = Vec::new();
        let mut k: usize = 0;
        while k < self.0.len()
            invariant
                0 <= k <= self.0@.len(),
                r@.len() == k,
                forall|j: int| 0 <= j < k
                    ==> (#[trigger] r@[j]).0@ == self.0@[j].0@ && r@[j].1 == self.0@[j].1,
            decreases self.0@.len() - k,
        {
            let key = self.0[k].0.clone();
            r.push((key, self.0[k].1));
            k = k + 1;
        }
        r
    }
}

} // verus!
