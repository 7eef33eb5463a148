//! Artwork for the landing page: the sleeves behind the cards, held only for
//! as long as they are worth holding.
//!
//! A feed has hundreds of cards, a screen shows a dozen of them, and the user
//! scrolls through the rest. So this is a cache, bounded in entries and in how
//! big an entry can get. Nothing here fetches: the cache records what is
//! wanted, and [`ArtCache::store`] puts the answer away. An answer for a card
//! that has been dropped in the meantime is discarded.

use std::collections::VecDeque;

use vstd::prelude::*;

use crate::cover::Cover;
use crate::text;

verus! {

/// Longest edge at which an entry is kept, in pixels.
pub const EDGE: u32 = 256;

/// Entries kept before the least recently wanted is dropped. With [`EDGE`] that
/// comes to about six MiB of pixels.
pub const CAPACITY: usize = 32;

/// The cards that were on screen lately, and their pictures.
#[derive(Debug)]
pub struct ArtCache {
    /// The keys that have been asked for, in the order in which they were last
    /// wanted, oldest first. Each has its picture once that has arrived; one
    /// whose picture never came stays without.
    pub entries: VecDeque<(String, Option<Cover>)>,
}

/// A key and its picture.
pub type Entry = (Seq<char>, Option<Cover>);

impl View for ArtCache {
    type V = Seq<Entry>;

    open spec fn view(&self) -> Seq<Entry> {
        Seq::new(self.entries@.len(), |i: int| (self.entries@[i].0@, self.entries@[i].1))
    }
}

/// Whether a key is among the entries.
pub open spec fn has_key(entries: Seq<Entry>, key: Seq<char>) -> bool {
    exists|i: int| 0 <= i < entries.len() && (#[trigger] entries[i]).0 == key
}

/// Whether a key stands somewhere among the entries for the first time.
pub open spec fn first_at(entries: Seq<Entry>, key: Seq<char>, i: int) -> bool {
    &&& 0 <= i < entries.len()
    &&& entries[i].0 == key
    &&& forall|j: int| 0 <= j < i ==> (#[trigger] entries[j]).0 != key
}

/// Where a key stands among the entries.
pub open spec fn place_of(entries: Seq<Entry>, key: Seq<char>) -> int {
    choose|i: int| first_at(entries, key, i)
}

/// No key occurs twice.
pub open spec fn distinct(entries: Seq<Entry>) -> bool {
    forall|i: int, j: int|
        0 <= i < j < entries.len() ==> (#[trigger] entries[i]).0 != (#[trigger] entries[j]).0
}

/// The entries after a key has been wanted: it is the newest one.
pub open spec fn wanted(entries: Seq<Entry>, key: Seq<char>) -> Seq<Entry> {
    if has_key(entries, key) {
        let at = place_of(entries, key);
        entries.remove(at).push(entries[at])
    } else {
        entries.push((key, None))
    }
}

/// The newest entries, as many as the cache may hold.
pub open spec fn evicted(entries: Seq<Entry>) -> Seq<Entry> {
    if entries.len() > CAPACITY {
        entries.skip(entries.len() - CAPACITY)
    } else {
        entries
    }
}

/// The entries after an answer: a picture is filed under its key where that
/// key is still held, and then the oldest entries go.
pub open spec fn stored(entries: Seq<Entry>, key: Seq<char>, art: Option<Cover>) -> Seq<Entry> {
    if has_key(entries, key) && art is Some {
        evicted(entries.update(place_of(entries, key), (key, art)))
    } else {
        evicted(entries)
    }
}

/// The picture that is held for a key.
pub open spec fn picture(entries: Seq<Entry>, key: Seq<char>) -> Option<Cover> {
    if has_key(entries, key) {
        entries[place_of(entries, key)].1
    } else {
        None
    }
}

proof fn lemma_place(entries: Seq<Entry>, key: Seq<char>, i: int)
    requires
        first_at(entries, key, i),
    ensures
        has_key(entries, key),
        place_of(entries, key) == i,
{
    let p = place_of(entries, key);
    assert(first_at(entries, key, p));
    if p < i {
        assert(entries[p].0 != key);
    }
    if i < p {
        assert(entries[i].0 != key);
    }
}

/// A key that is held stands somewhere.
proof fn lemma_placed(entries: Seq<Entry>, key: Seq<char>, n: int)
    requires
        0 <= n < entries.len(),
        entries[n].0 == key,
    ensures
        first_at(entries, key, place_of(entries, key)),
        place_of(entries, key) <= n,
    decreases n,
{
    if exists|j: int| 0 <= j < n && (#[trigger] entries[j]).0 == key {
        let j = choose|j: int| 0 <= j < n && (#[trigger] entries[j]).0 == key;
        lemma_placed(entries, key, j);
    } else {
        assert(first_at(entries, key, n));
        lemma_place(entries, key, n);
    }
}

impl Default for ArtCache {
    fn default() -> (r: Self)
        ensures
            r@ == Seq::<Entry>::empty(),
            r.wf(),
    {
        let r = ArtCache { entries: VecDeque::new() };
        proof {
            assert(r@ =~= Seq::<Entry>::empty());
        }
        r
    }
}

impl ArtCache {
    /// No card is held twice.
    pub open spec fn wf(&self) -> bool {
        distinct(self@)
    }

    /// Where a key stands.
    fn position(&self, key: &str) -> (r: Option<usize>)
        ensures
            match r {
                Some(i) => i < self@.len() && has_key(self@, key@) && place_of(self@, key@) == i
                    && self@[i as int].0 == key@,
                None => !has_key(self@, key@),
            },
    {
        let n: usize = self.entries.len();
        let mut i: usize = 0;
        while i < n
            invariant
                i <= n == self.entries@.len(),
                forall|j: int| 0 <= j < i ==> (#[trigger] self@[j]).0 != key@,
            decreases n - i,
        {
            if text::same(self.entries[i].0.as_str(), key) {
                proof {
                    assert(first_at(self@, key@, i as int));
                    lemma_place(self@, key@, i as int);
                }
                return Some(i);
            }
            i += 1;
        }
        None
    }

    /// The picture for a card, if one has arrived.
    pub fn get(&self, key: &str) -> (r: Option<&Cover>)
        ensures
            match r {
                Some(cover) => picture(self@, key@) == Some(*cover),
                None => picture(self@, key@) is None,
            },
    {
        match self.position(key) {
            Some(i) => self.entries[i].1.as_ref(),
            None => None,
        }
    }

    /// Notes that a card is on screen, and says whether its artwork has to be
    /// asked for. That is so only the first time, whatever became of the
    /// question.
    pub fn want(&mut self, key: &str) -> (r: bool)
        ensures
            r == !has_key(old(self)@, key@),
            final(self)@ == wanted(old(self)@, key@),
            old(self).wf() ==> final(self).wf(),
    {
        let ghost before = self@;
        match self.position(key) {
            Some(at) => {
                let held = self.entries.remove(at);
                let entry = held.unwrap();
                self.entries.push_back(entry);
                proof {
                    assert(self@ =~= wanted(before, key@));
                    if distinct(before) {
                        wanting_keeps_keys_apart(before, key@);
                    }
                }
                false
            },
            None => {
                self.entries.push_back((key.to_owned(), None));
                proof {
                    assert(self@ =~= wanted(before, key@));
                    if distinct(before) {
                        wanting_keeps_keys_apart(before, key@);
                    }
                }
                true
            },
        }
    }

    /// Files an answer. `None` means that there was no usable picture, which
    /// needs nothing stored. An answer for a card that is no longer held is
    /// discarded.
    pub fn store(&mut self, key: String, art: Option<Cover>)
        ensures
            final(self)@ == stored(old(self)@, key@, art),
            old(self).wf() ==> final(self).wf(),
            final(self)@.len() <= CAPACITY,
    {
        let ghost before = self@;
        proof {
            if distinct(before) {
                storing_keeps_keys_apart(before, key@, art);
            }
        }
        let at = self.position(key.as_str());
        if let Some(i) = at {
            if art.is_some() {
                let _ = self.entries.remove(i);
                self.entries.insert(i, (key, art));
                proof {
                    assert(self@ =~= before.update(i as int, (key@, art)));
                }
            }
        }
        self.evict();
    }

    /// Drops the least recently wanted entries until the cache is back inside
    /// its capacity.
    fn evict(&mut self)
        ensures
            final(self)@ == evicted(old(self)@),
            final(self)@.len() <= CAPACITY,
    {
        let ghost before = self@;
        let ghost mut gone: int = 0;
        proof {
            assert(before.skip(0) =~= before);
        }
        while self.entries.len() > CAPACITY
            invariant
                0 <= gone <= before.len(),
                before.len() - gone >= CAPACITY || gone == 0,
                self@ == before.skip(gone),
            decreases self.entries.len(),
        {
            let ghost held = self@;
            proof {
                assert(held.len() == self.entries@.len());
            }
            let _ = self.entries.pop_front();
            proof {
                gone = gone + 1;
                assert(self@ =~= held.skip(1));
                assert(self@ =~= before.skip(gone));
            }
        }
        proof {
            assert(self@.len() == before.len() - gone);
        }
    }
}

/// A card stays held once, however often it is wanted.
pub proof fn wanting_keeps_keys_apart(entries: Seq<Entry>, key: Seq<char>)
    requires
        distinct(entries),
    ensures
        distinct(wanted(entries, key)),
        has_key(wanted(entries, key), key),
{
    let r = wanted(entries, key);
    if has_key(entries, key) {
        let at = place_of(entries, key);
        let n = choose|i: int| 0 <= i < entries.len() && (#[trigger] entries[i]).0 == key;
        lemma_placed(entries, key, n);
        assert forall|i: int, j: int| 0 <= i < j < r.len() implies (#[trigger] r[i]).0 != (
        #[trigger] r[j]).0 by {
            let a = if i < at {
                i
            } else {
                i + 1
            };
            let b = if j == r.len() - 1 {
                at
            } else if j < at {
                j
            } else {
                j + 1
            };
            assert(r[i] == entries[a] && r[j] == entries[b]);
            if a < b {
                assert(entries[a].0 != entries[b].0);
            } else {
                assert(entries[b].0 != entries[a].0);
            }
        }
        assert(r[r.len() - 1].0 == key);
    } else {
        assert forall|i: int, j: int| 0 <= i < j < r.len() implies (#[trigger] r[i]).0 != (
        #[trigger] r[j]).0 by {
            assert(r[i] == entries[i]);
            if j < r.len() - 1 {
                assert(r[j] == entries[j]);
            }
        }
        assert(r[r.len() - 1].0 == key);
    }
}

/// A card stays held once, whatever is answered.
pub proof fn storing_keeps_keys_apart(entries: Seq<Entry>, key: Seq<char>, art: Option<Cover>)
    requires
        distinct(entries),
    ensures
        distinct(stored(entries, key, art)),
{
    let r = stored(entries, key, art);
    let d = entries.len() - r.len();
    if has_key(entries, key) {
        let n = choose|i: int| 0 <= i < entries.len() && (#[trigger] entries[i]).0 == key;
        lemma_placed(entries, key, n);
    }
    assert forall|a: int, b: int| 0 <= a < b < r.len() implies (#[trigger] r[a]).0 != (
    #[trigger] r[b]).0 by {
        assert(r[a].0 == entries[a + d].0);
        assert(r[b].0 == entries[b + d].0);
        assert(entries[a + d].0 != entries[b + d].0);
    }
}

/// A card is asked for once: wanting it again right away asks nothing, and an
/// answer without a picture does not change that.
pub proof fn card_is_asked_for_once(entries: Seq<Entry>, key: Seq<char>)
    requires
        distinct(entries),
    ensures
        has_key(wanted(entries, key), key),
        has_key(stored(wanted(entries, key), key, None), key),
{
    wanting_keeps_keys_apart(entries, key);
    let w = wanted(entries, key);
    let s = stored(w, key, None);
    if has_key(entries, key) {
        let n = choose|i: int| 0 <= i < entries.len() && (#[trigger] entries[i]).0 == key;
        lemma_placed(entries, key, n);
    }
    assert(w[w.len() - 1].0 == key);
    assert(s[s.len() - 1] == w[w.len() - 1]);
}

/// A picture that arrives for a card just wanted comes back for that card.
pub proof fn stored_picture_comes_back(entries: Seq<Entry>, key: Seq<char>, cover: Cover)
    requires
        distinct(entries),
    ensures
        picture(stored(wanted(entries, key), key, Some(cover)), key) == Some(cover),
{
    wanting_keeps_keys_apart(entries, key);
    let w = wanted(entries, key);
    storing_keeps_keys_apart(w, key, Some(cover));
    assert(w[w.len() - 1].0 == key) by {
        if has_key(entries, key) {
            let n = choose|i: int| 0 <= i < entries.len() && (#[trigger] entries[i]).0 == key;
            lemma_placed(entries, key, n);
        }
    }
    assert(first_at(w, key, w.len() - 1));
    lemma_place(w, key, w.len() - 1);
    let u = w.update(w.len() - 1, (key, Some(cover)));
    let s = evicted(u);
    assert(s == stored(w, key, Some(cover)));
    assert(first_at(s, key, s.len() - 1));
    lemma_place(s, key, s.len() - 1);
}

/// An answer for a card that has been dropped is discarded: no entry is added,
/// and the next want asks for it again.
pub proof fn late_answers_are_discarded(entries: Seq<Entry>, key: Seq<char>, art: Option<Cover>)
    requires
        !has_key(entries, key),
    ensures
        stored(entries, key, art) == evicted(entries),
        !has_key(stored(entries, key, art), key),
{
    let s = stored(entries, key, art);
    if has_key(s, key) {
        let i = choose|i: int| 0 <= i < s.len() && (#[trigger] s[i]).0 == key;
        let d = entries.len() - s.len();
        assert(s[i].0 == key);
        assert(entries[i + d].0 == key);
    }
}

/// What is dropped is what was wanted longest ago: every entry that stays was
/// wanted after every entry that goes.
pub proof fn oldest_go_first(entries: Seq<Entry>, key: Seq<char>, art: Option<Cover>, i: int)
    requires
        0 <= i < stored(entries, key, art).len(),
    ensures
        stored(entries, key, art).len() <= CAPACITY,
        stored(entries, key, art)[i].0 == entries[entries.len() - stored(
            entries,
            key,
            art,
        ).len() + i].0,
{
    if has_key(entries, key) {
        let n = choose|i: int| 0 <= i < entries.len() && (#[trigger] entries[i]).0 == key;
        lemma_placed(entries, key, n);
    }
}

} // verus!
