//! Branding resources: the marks every application carries, and a named
//! table of branding illustrations.

use vstd::prelude::*;
use crate::resources::Image;

verus! {

/// The branding marks and illustrations of one theme.
#[derive(Clone, Debug)]
pub struct BrandResources {
    pub wordmark: Image,
    pub logo: Image,
    pub app_icon: Image,
    pub error: Image,
    pub illustrations: Illustrations,
}

impl BrandResources {
    /// Groups already-loaded branding marks.
    pub fn new(
        logo: Image,
        wordmark: Image,
        app_icon: Image,
        error: Image,
        illustrations: Illustrations,
    ) -> (r: Self)
        ensures
            r.logo == logo,
            r.wordmark == wordmark,
            r.app_icon == app_icon,
            r.error == error,
            r.illustrations == illustrations,
    {
        BrandResources { logo, wordmark, app_icon, error, illustrations }
    }
}

/// The last entry under a key, or `-1` when the key is absent. A later
/// insertion under the same name shadows an earlier one.
pub open spec fn spec_named_lookup(entries: Seq<(String, Image)>, name: Seq<char>) -> int
    decreases entries.len(),
{
    if entries.len() == 0 {
        -1int
    } else if entries.last().0@ == name {
        entries.len() - 1
    } else {
        spec_named_lookup(entries.drop_last(), name)
    }
}

pub(crate) proof fn lemma_named_lookup_at(entries: Seq<(String, Image)>, name: Seq<char>, i: int)
    requires
        0 <= i < entries.len(),
        entries[i].0@ == name,
        forall|j: int| i < j < entries.len() ==> (#[trigger] entries[j]).0@ != name,
    ensures
        spec_named_lookup(entries, name) == i,
    decreases entries.len(),
{
    if i < entries.len() - 1 {
        assert(forall|j: int| i < j < entries.drop_last().len()
            ==> (#[trigger] entries.drop_last()[j]).0@ != name);
        lemma_named_lookup_at(entries.drop_last(), name, i);
    }
}

pub(crate) proof fn lemma_named_lookup_none(entries: Seq<(String, Image)>, name: Seq<char>)
    requires
        forall|j: int| 0 <= j < entries.len() ==> (#[trigger] entries[j]).0@ != name,
    ensures
        spec_named_lookup(entries, name) == -1,
    decreases entries.len(),
{
    if entries.len() > 0 {
        assert(forall|j: int| 0 <= j < entries.drop_last().len()
            ==> (#[trigger] entries.drop_last()[j]).0@ != name);
        lemma_named_lookup_none(entries.drop_last(), name);
    }
}

/// The predicate that keeps every entry not named `name`; removal filters
/// the table by it.
pub open spec fn spec_keeps(name: Seq<char>) -> spec_fn((String, Image)) -> bool {
    |e: (String, Image)| e.0@ != name
}

/// A named table of branding illustrations. Loading the image data is the
/// host's concern; the table stores handles under names.
#[derive(Clone, Debug)]
pub struct Illustrations(pub Vec<(String, Image)>);

impl Illustrations {
    /// An empty table.
    pub fn new() -> (r: Self)
        ensures
            r.0@.len() == 0,
    {
        Illustrations(Vec::new())
    }

    /// Looks an illustration up by name: the most recently inserted entry
    /// under that name, or nothing when the name is unknown.
    pub fn get(&self, name: &String) -> (r: Option<Image>)
        ensures
            r == if spec_named_lookup(self.0@, name@) >= 0 {
                Some(self.0@[spec_named_lookup(self.0@, name@)].1)
            } else {
                None::<Image>
            },
    {
        let n = self.0.len();
        let mut k: usize = n;
        while k > 0
            invariant
                0 <= k <= n,
                n == self.0@.len(),
                forall|j: int| k <= j < n ==> (#[trigger] self.0@[j]).0@ != name@,
            decreases k,
        {
            k = k - 1;
            let hit = self.0[k].0.eq(name);
            if hit {
                proof {
                    lemma_named_lookup_at(self.0@, name@, k as int);
                }
                return Some(self.0[k].1);
            }
        }
        proof {
            lemma_named_lookup_none(self.0@, name@);
        }
        None
    }

    /// Removes every entry under the given name; all other entries keep
    /// their order.
    pub fn remove(&mut self, name: &String)
        ensures
            final(self).0@ == old(self).0@.filter(spec_keeps(name@)),
            forall|j: int| 0 <= j < final(self).0@.len()
                ==> (#[trigger] final(self).0@[j]).0@ != name@,
    {
        let ghost before = self.0@;
        let mut kept: Vec<(String, Image)> = Vec::new();
        while self.0.len() > 0
            invariant
                self.0@.len() <= before.len(),
                forall|j: int| 0 <= j < self.0@.len()
                    ==> #[trigger] self.0@[j] == before[before.len() - self.0@.len() + j],
                kept@ == before.take(before.len() - self.0@.len()).filter(spec_keeps(name@)),
            decreases self.0@.len(),
        {
            let ghost k = before.len() - self.0@.len();
            let (key, image) = self.0.remove(0);
            let hit = key.eq(name);
            proof {
                assert((key, image) == before[k]);
            }
            let ghost kept_before = kept@;
            if !hit {
                kept.push((key, image));
            }
            proof {
                reveal(Seq::filter);
                assert(before.take(k + 1).drop_last() =~= before.take(k));
                assert(before.take(k + 1).last() == before[k]);
                assert(spec_keeps(name@)(before[k]) == (before[k].0@ != name@));
                assert(hit == !spec_keeps(name@)(before[k]));
                if spec_keeps(name@)(before[k]) {
                    assert(kept@ == kept_before.push(before[k]));
                } else {
                    assert(kept@ == kept_before);
                }
                assert(kept@ == before.take(k + 1).filter(spec_keeps(name@)));
            }
        }
        proof {
            assert(before.take(before.len() as int) =~= before);
        }
        self.0 = kept;
        proof {
            assert forall|j: int| 0 <= j < self.0@.len() implies
                (#[trigger] self.0@[j]).0@ != name@ by {
                before.lemma_filter_pred(spec_keeps(name@), j);
            }
        }
    }

    /// Inserts an illustration under a name, shadowing any earlier entry
    /// under it.
    pub fn insert(&mut self, name: String, image: Image)
        ensures
            final(self).0@ == old(self).0@.push((name, image)),
            spec_named_lookup(final(self).0@, name@) == final(self).0@.len() - 1,
    {
        self.0.push((name, image));
    }
}

impl Default for Illustrations {
    fn default() -> (r: Self)
        ensures
            r.0@.len() == 0,
    {
        Illustrations::new()
    }
}

} // verus!
