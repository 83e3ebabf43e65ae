//! Skins the player has used, each kept once by its URL.
use vstd::prelude::*;
use crate::text::str_eq;

verus! {

/// A skin the player has used.
#[derive(Debug, Clone)]
pub struct SkinEntry {
    pub cape_id: String,
    pub model: String,
    pub name: String,
    pub url: String,
}

/// The skins the player has used, in the order first used.
#[derive(Debug)]
pub struct SkinHistory {
    pub skins: Vec<SkinEntry>,
}

/// Whether a skin with URL `url` is recorded.
pub open spec fn has_url(skins: Seq<SkinEntry>, url: Seq<char>) -> bool {
    exists|i: int| 0 <= i < skins.len() && (#[trigger] skins[i]).url@ == url
}

/// No two skins share a URL.
pub open spec fn urls_unique(skins: Seq<SkinEntry>) -> bool {
    forall|i: int, j: int| 0 <= i < j < skins.len() ==> (#[trigger] skins[i]).url@ != (#[trigger] skins[j]).url@
}

/// The skins after recording `entry`: unchanged when its URL is already
/// recorded, else with `entry` added at the end.
pub open spec fn add_skin_spec(skins: Seq<SkinEntry>, entry: SkinEntry) -> Seq<SkinEntry> {
    if has_url(skins, entry.url@) {
        skins
    } else {
        skins.push(entry)
    }
}

impl Default for SkinHistory {
    fn default() -> (r: Self)
        ensures
            r.skins@.len() == 0,
    {
        SkinHistory { skins: Vec::new() }
    }
}

impl SkinHistory {
    /// Records a skin unless one with the same URL is already recorded.
    pub fn add_skin(&mut self, entry: SkinEntry)
        ensures
            final(self).skins@ == add_skin_spec(old(self).skins@, entry),
    {
        let mut i: usize = 0;
        while i < self.skins.len()
            invariant
                i <= self.skins@.len(),
                self.skins@ == old(self).skins@,
                forall|k: int| 0 <= k < i ==> (#[trigger] self.skins@[k]).url@ != entry.url@,
            decreases self.skins.len() - i,
        {
            if str_eq(self.skins[i].url.as_str(), entry.url.as_str()) {
                return;
            }
            i = i + 1;
        }
        self.skins.push(entry);
    }
}

/// Adding a skin keeps the URLs unique, and afterwards its URL is recorded.
pub proof fn lemma_add_skin_keeps_urls_unique(before: Seq<SkinEntry>, entry: SkinEntry)
    requires
        urls_unique(before),
    ensures
        ({
            let after = add_skin_spec(before, entry);
            &&& urls_unique(after)
            &&& has_url(after, entry.url@)
            &&& after.len() <= before.len() + 1
        }),
{
    let after = add_skin_spec(before, entry);
    if !has_url(before, entry.url@) {
        assert(after[before.len() as int] == entry);
        assert forall|i: int, j: int| 0 <= i < j < after.len() implies (#[trigger] after[i]).url@ != (
        #[trigger] after[j]).url@ by {
            if j == before.len() {
                assert(after[i] == before[i]);
            } else {
                assert(after[i] == before[i] && after[j] == before[j]);
            }
        }
    }
}

} // verus!
