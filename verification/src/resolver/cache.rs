//! The URLs that were resolved lately.

use vstd::prelude::*;

use super::ResolvedStream;
use crate::text;

verus! {

broadcast use vstd::string::group_string_axioms;

/// A video id and its stream.
pub type Entry = (Seq<char>, ResolvedStream<Seq<char>>);

/// Streams by video id, the one used longest ago first.
pub struct UrlCache {
    entries: Vec<(String, ResolvedStream)>,
}

impl View for UrlCache {
    type V = Seq<Entry>;

    closed spec fn view(&self) -> Seq<Entry> {
        Seq::new(self.entries@.len(), |i: int| (self.entries@[i].0@, self.entries@[i].1@))
    }
}

/// Where a video stands among the entries.
pub open spec fn place_of(entries: Seq<Entry>, id: Seq<char>) -> Option<int>
    decreases entries.len(),
{
    if entries.len() == 0 {
        None
    } else {
        match place_of(entries.drop_last(), id) {
            Some(i) => Some(i),
            None => if entries.last().0 == id {
                Some(entries.len() - 1)
            } else {
                None
            },
        }
    }
}

/// The entries without a video.
pub open spec fn without(entries: Seq<Entry>, id: Seq<char>) -> Seq<Entry> {
    match place_of(entries, id) {
        Some(i) => entries.remove(i),
        None => entries,
    }
}

/// The stream that is held for a video and still good at a time, in nanoseconds
/// since 1970.
pub open spec fn held(entries: Seq<Entry>, id: Seq<char>, now: u64) -> Option<
    ResolvedStream<Seq<char>>,
> {
    match place_of(entries, id) {
        Some(i) => if entries[i].1.valid(now) {
            Some(entries[i].1)
        } else {
            None
        },
        None => None,
    }
}

/// The entries after a video has been looked up: it is the newest one, or gone
/// if it is no longer good.
pub open spec fn looked_up(entries: Seq<Entry>, id: Seq<char>, now: u64) -> Seq<Entry> {
    match place_of(entries, id) {
        Some(i) => if entries[i].1.valid(now) {
            entries.remove(i).push(entries[i])
        } else {
            entries.remove(i)
        },
        None => entries,
    }
}

/// The entries with a stream put in: it is the newest one. Where there is no
/// room for one more, the one used longest ago goes.
pub open spec fn inserted(
    entries: Seq<Entry>,
    id: Seq<char>,
    stream: ResolvedStream<Seq<char>>,
) -> Seq<Entry> {
    (match place_of(entries, id) {
        Some(i) => entries.remove(i),
        None => if entries.len() >= UrlCache::CAPACITY {
            entries.remove(0)
        } else {
            entries
        },
    }).push((id, stream))
}

/// No video is held twice.
pub open spec fn distinct(entries: Seq<Entry>) -> bool {
    forall|i: int, j: int|
        0 <= i < j < entries.len() ==> (#[trigger] entries[i]).0 != (#[trigger] entries[j]).0
}

proof fn lemma_place_stays(entries: Seq<Entry>, id: Seq<char>, n: int)
    requires
        0 <= n <= entries.len(),
        place_of(entries.take(n), id) is Some,
    ensures
        place_of(entries, id) == place_of(entries.take(n), id),
    decreases entries.len() - n,
{
    if n < entries.len() {
        assert(entries.take(n + 1).drop_last() =~= entries.take(n));
        lemma_place_stays(entries, id, n + 1);
    } else {
        assert(entries.take(n) =~= entries);
    }
}

/// A video that is found is there, and one that is there is found.
proof fn lemma_place(entries: Seq<Entry>, id: Seq<char>)
    ensures
        match place_of(entries, id) {
            Some(i) => 0 <= i < entries.len() && entries[i].0 == id,
            None => forall|i: int| 0 <= i < entries.len() ==> (#[trigger] entries[i]).0 != id,
        },
    decreases entries.len(),
{
    if entries.len() > 0 {
        lemma_place(entries.drop_last(), id);
        assert forall|i: int| 0 <= i < entries.len() - 1 implies entries[i]
            == #[trigger] entries.drop_last()[i] by {}
        if place_of(entries, id) is None {
            assert forall|i: int| 0 <= i < entries.len() implies (#[trigger] entries[i]).0 != id by {
                if i < entries.len() - 1 {
                    assert(entries.drop_last()[i].0 != id);
                }
            }
        }
    }
}

impl UrlCache {
    /// Entries kept at most.
    pub const CAPACITY: usize = 32;

    pub fn new() -> (r: Self)
        ensures
            r@ == Seq::<Entry>::empty(),
    {
        let r = UrlCache { entries: Vec::new() };
        proof {
            assert(r@ =~= Seq::<Entry>::empty());
        }
        r
    }

    fn position(&self, id: &str) -> (r: Option<usize>)
        ensures
            match r {
                Some(i) => place_of(self@, id@) == Some(i as int) && i < self@.len() && self@[i as int].0
                    == id@,
                None => place_of(self@, id@) is None,
            },
    {
        let mut i: usize = 0;
        while i < self.entries.len()
            invariant
                i <= self.entries@.len(),
                place_of(self@.take(i as int), id@) is None,
            decreases self.entries.len() - i,
        {
            proof {
                assert(self@.take(i + 1).drop_last() =~= self@.take(i as int));
                assert(self@.take(i + 1).last() == self@[i as int]);
            }
            if text::same(self.entries[i].0.as_str(), id) {
                proof {
                    lemma_place_stays(self@, id@, i + 1);
                }
                return Some(i);
            }
            i += 1;
        }
        proof {
            assert(self@.take(self@.len() as int) =~= self@);
        }
        None
    }

    /// The stream held for a video, if it is still good at a time, in
    /// nanoseconds since 1970. It is then the newest entry; one that is no
    /// longer good goes.
    pub fn get_at(&mut self, id: &str, now: u64) -> (r: Option<ResolvedStream>)
        ensures
            super::stream_view(r) == held(old(self)@, id@, now),
            final(self)@ == looked_up(old(self)@, id@, now),
    {
        let ghost before = self@;
        match self.position(id) {
            None => None,
            Some(at) => {
                let entry = self.entries.remove(at);
                if !entry.1.valid_at(now) {
                    proof {
                        assert(self@ =~= before.remove(at as int));
                    }
                    return None;
                }
                let stream = entry.1.clone();
                self.entries.push(entry);
                proof {
                    assert(self@ =~= before.remove(at as int).push(before[at as int]));
                }
                Some(stream)
            },
        }
    }

    /// The stream held for a video, if it is still good now.
    pub fn get(&mut self, id: &str) -> (r: Option<ResolvedStream>)
        ensures
            exists|now: u64|
                {
                    &&& super::stream_view(r) == #[trigger] held(old(self)@, id@, now)
                    &&& final(self)@ == looked_up(old(self)@, id@, now)
                },
    {
        let now: u64 = crate::clock::unix_nanos();
        self.get_at(id, now)
    }

    /// Drops what is held for a video.
    pub fn invalidate(&mut self, id: &str)
        ensures
            final(self)@ == without(old(self)@, id@),
    {
        let ghost before = self@;
        if let Some(at) = self.position(id) {
            let _ = self.entries.remove(at);
            proof {
                assert(self@ =~= before.remove(at as int));
            }
        }
    }

    /// Holds a stream for a video.
    pub fn insert(&mut self, id: String, stream: ResolvedStream)
        ensures
            final(self)@ == inserted(old(self)@, id@, stream@),
    {
        let ghost before = self@;
        let ghost mut rest = self@;
        if let Some(at) = self.position(id.as_str()) {
            let _ = self.entries.remove(at);
            proof {
                rest = before.remove(at as int);
                assert(self@ =~= rest);
            }
        } else if self.entries.len() >= Self::CAPACITY {
            let _ = self.entries.remove(0);
            proof {
                rest = before.remove(0);
                assert(self@ =~= rest);
            }
        }
        self.entries.push((id, stream));
        proof {
            assert(self@ =~= rest.push((id@, stream@)));
        }
    }

    /// Drops everything.
    pub fn clear(&mut self)
        ensures
            final(self)@ == Seq::<Entry>::empty(),
    {
        self.entries.clear();
        proof {
            assert(self@ =~= Seq::<Entry>::empty());
        }
    }
}

/// The cache stays inside its capacity.
pub proof fn cache_is_bounded(
    entries: Seq<Entry>,
    id: Seq<char>,
    stream: ResolvedStream<Seq<char>>,
    now: u64,
)
    requires
        entries.len() <= UrlCache::CAPACITY,
    ensures
        inserted(entries, id, stream).len() <= UrlCache::CAPACITY,
        looked_up(entries, id, now).len() <= UrlCache::CAPACITY,
        without(entries, id).len() <= UrlCache::CAPACITY,
{
    lemma_place(entries, id);
}

/// No video is ever held twice.
pub proof fn videos_are_held_once(
    entries: Seq<Entry>,
    id: Seq<char>,
    stream: ResolvedStream<Seq<char>>,
    now: u64,
)
    requires
        distinct(entries),
    ensures
        distinct(inserted(entries, id, stream)),
        distinct(looked_up(entries, id, now)),
        distinct(without(entries, id)),
{
    lemma_place(entries, id);
    match place_of(entries, id) {
        Some(at) => {
            lemma_distinct_remove(entries, at);
            let rest = entries.remove(at);
            assert forall|i: int| 0 <= i < rest.len() implies (#[trigger] rest[i]).0 != id by {
                let k = if i < at {
                    i
                } else {
                    i + 1
                };
                assert(rest[i] == entries[k]);
                if k < at {
                    assert(entries[k].0 != entries[at].0);
                } else {
                    assert(entries[at].0 != entries[k].0);
                }
            }
        },
        None => {
            if entries.len() > 0 {
                lemma_distinct_remove(entries, 0);
            }
        },
    }
}

proof fn lemma_distinct_remove(entries: Seq<Entry>, at: int)
    requires
        distinct(entries),
        0 <= at < entries.len(),
    ensures
        distinct(entries.remove(at)),
{
    let rest = entries.remove(at);
    assert forall|i: int, j: int| 0 <= i < j < rest.len() implies (#[trigger] rest[i]).0 != (
    #[trigger] rest[j]).0 by {
        let a = if i < at {
            i
        } else {
            i + 1
        };
        let b = if j < at {
            j
        } else {
            j + 1
        };
        assert(rest[i] == entries[a] && rest[j] == entries[b]);
        assert(entries[a].0 != entries[b].0);
    }
}

/// What has just been put in comes back, for as long as it is good.
pub proof fn inserted_stream_comes_back(
    entries: Seq<Entry>,
    id: Seq<char>,
    stream: ResolvedStream<Seq<char>>,
    now: u64,
)
    requires
        distinct(entries),
        stream.valid(now),
    ensures
        held(inserted(entries, id, stream), id, now) == Some(stream),
{
    let after = inserted(entries, id, stream);
    videos_are_held_once(entries, id, stream, now);
    lemma_place(after, id);
    assert(after.last() == (id, stream));
    let i = place_of(after, id)->0;
    if i < after.len() - 1 {
        assert(after[i].0 != after[after.len() - 1].0);
    }
}

/// What has been dropped does not come back.
pub proof fn invalidated_stream_is_gone(entries: Seq<Entry>, id: Seq<char>, now: u64)
    requires
        distinct(entries),
    ensures
        held(without(entries, id), id, now) is None,
{
    lemma_place(entries, id);
    let rest = without(entries, id);
    lemma_place(rest, id);
    match place_of(entries, id) {
        Some(at) => {
            if place_of(rest, id) is Some {
                let i = place_of(rest, id)->0;
                let k = if i < at {
                    i
                } else {
                    i + 1
                };
                assert(rest[i] == entries[k]);
                if k < at {
                    assert(entries[k].0 != entries[at].0);
                } else {
                    assert(entries[at].0 != entries[k].0);
                }
            }
        },
        None => {},
    }
}

/// A stream that has just been looked up is the last to go: as long as fewer
/// than the whole capacity of other videos come after it, it stays.
pub proof fn used_stream_outlives_older_ones(
    entries: Seq<Entry>,
    id: Seq<char>,
    other: Seq<char>,
    stream: ResolvedStream<Seq<char>>,
    now: u64,
)
    requires
        distinct(entries),
        2 <= entries.len() <= UrlCache::CAPACITY,
        held(entries, id, now) is Some,
        other != id,
    ensures
        held(inserted(looked_up(entries, id, now), other, stream), id, now) == held(
            entries,
            id,
            now,
        ),
{
    lemma_place(entries, id);
    let at = place_of(entries, id)->0;
    let used = looked_up(entries, id, now);
    videos_are_held_once(entries, id, stream, now);
    videos_are_held_once(used, other, stream, now);
    let after = inserted(used, other, stream);
    lemma_place(used, other);
    lemma_place(after, id);
    assert(used.last() == entries[at]);
    assert(after[after.len() - 2] == used.last());
    let i = place_of(after, id)->0;
    if i < after.len() - 2 {
        assert(after[i].0 != after[after.len() - 2].0);
    }
    if i == after.len() - 1 {
        assert(after[i].0 == other);
    }
}

/// When the cache is full, the entry that goes for a new video is the one used
/// longest ago.
pub proof fn oldest_stream_goes_first(
    entries: Seq<Entry>,
    id: Seq<char>,
    stream: ResolvedStream<Seq<char>>,
)
    requires
        entries.len() == UrlCache::CAPACITY,
        place_of(entries, id) is None,
    ensures
        inserted(entries, id, stream) == entries.skip(1).push((id, stream)),
{
    assert(entries.remove(0) =~= entries.skip(1));
}

/// What is held for a video is a stream that was put in for that very video and
/// is still good, and every such stream is held.
pub proof fn held_stream_is_the_video_s_own(
    entries: Seq<Entry>,
    id: Seq<char>,
    stream: ResolvedStream<Seq<char>>,
    now: u64,
)
    requires
        distinct(entries),
    ensures
        held(entries, id, now) == Some(stream) <==> entries.contains((id, stream)) && stream.valid(
            now,
        ),
{
    lemma_place(entries, id);
    match place_of(entries, id) {
        Some(i) => {
            assert(entries[i].0 == id);
            if entries.contains((id, stream)) {
                let k = choose|k: int| 0 <= k < entries.len() && entries[k] == (id, stream);
                if k < i {
                    assert(entries[k].0 != entries[i].0);
                }
                if i < k {
                    assert(entries[i].0 != entries[k].0);
                }
            }
        },
        None => {
            if entries.contains((id, stream)) {
                let k = choose|k: int| 0 <= k < entries.len() && entries[k] == (id, stream);
                assert(entries[k].0 != id);
            }
        },
    }
}

/// Looking a video up leaves the others as they are, and so does dropping it.
pub proof fn other_streams_are_kept(
    entries: Seq<Entry>,
    id: Seq<char>,
    other: Seq<char>,
    stream: ResolvedStream<Seq<char>>,
    now: u64,
)
    requires
        entries.contains((other, stream)),
        other != id,
    ensures
        looked_up(entries, id, now).contains((other, stream)),
        without(entries, id).contains((other, stream)),
{
    lemma_place(entries, id);
    let k = choose|k: int| 0 <= k < entries.len() && entries[k] == (other, stream);
    match place_of(entries, id) {
        Some(i) => {
            let rest = entries.remove(i);
            let at = if k < i {
                k
            } else {
                k - 1
            };
            assert(rest[at] == (other, stream));
            assert(rest.push(entries[i])[at] == (other, stream));
        },
        None => {},
    }
}

} // verus!
