//! The row of chunks at the bottom of the screen: which of them are shown, and where.
use crate::geometry::less;
use crate::model::{Chunk, ChunkStatus};
use crate::text;
use vstd::prelude::*;

verus! {

/// When chunks were seen to be done. A chunk that was seen before it was done has no time yet.
#[derive(Debug)]
pub struct Times {
    pub entries: Vec<(String, Option<i64>)>,
}

/// What is known under an id: the first entry counts.
pub open spec fn lookup(entries: Seq<(Seq<char>, Option<i64>)>, id: Seq<char>) -> Option<Option<i64>>
    decreases entries.len(),
{
    if entries.len() == 0 {
        None
    } else {
        match lookup(entries.drop_last(), id) {
            Some(time) => Some(time),
            None => if entries.last().0 == id {
                Some(entries.last().1)
            } else {
                None
            },
        }
    }
}

impl View for Times {
    type V = Map<Seq<char>, Option<i64>>;

    open spec fn view(&self) -> Map<Seq<char>, Option<i64>> {
        times_map(self.entries.deep_view())
    }
}

/// Entries as a map.
pub open spec fn times_map(entries: Seq<(Seq<char>, Option<i64>)>) -> Map<Seq<char>, Option<i64>> {
    Map::new(|id: Seq<char>| lookup(entries, id) is Some, |id: Seq<char>| lookup(entries, id)->0)
}

proof fn lemma_lookup_update(
    entries: Seq<(Seq<char>, Option<i64>)>,
    i: int,
    time: Option<i64>,
    id: Seq<char>,
)
    requires
        0 <= i < entries.len(),
        lookup(entries.take(i), entries[i].0) is None,
    ensures
        lookup(entries.update(i, (entries[i].0, time)), id) == if id == entries[i].0 {
            Some(time)
        } else {
            lookup(entries, id)
        },
    decreases entries.len(),
{
    let updated = entries.update(i, (entries[i].0, time));
    if i < entries.len() - 1 {
        let shorter = entries.drop_last();
        assert(shorter.take(i) =~= entries.take(i));
        assert(shorter[i] == entries[i]);
        lemma_lookup_update(shorter, i, time, id);
        assert(updated.drop_last() =~= shorter.update(i, (entries[i].0, time)));
        assert(updated.last() == entries.last());
    } else {
        assert(updated.drop_last() =~= entries.take(i));
        assert(entries.drop_last() =~= entries.take(i));
    }
}

impl Times {
    /// Nothing is known.
    pub fn new() -> (times: Self)
        ensures
            times@ == Map::<Seq<char>, Option<i64>>::empty(),
    {
        let times = Times { entries: Vec::new() };
        proof {
            assert(times@ =~= Map::empty());
        }
        times
    }

    /// The same once more.
    pub fn copy(&self) -> (times: Self)
        ensures
            times@ == self@,
    {
        let mut entries: Vec<(String, Option<i64>)> = Vec::new();
        let mut i: usize = 0;
        while i < self.entries.len()
            invariant
                i <= self.entries.len(),
                entries.deep_view() == self.entries.deep_view().take(i as int),
            decreases self.entries.len() - i,
        {
            let ghost before = entries.deep_view();
            entries.push((self.entries[i].0.clone(), self.entries[i].1));
            proof {
                assert(entries.deep_view() =~= before.push(self.entries.deep_view()[i as int]));
                assert(entries.deep_view() =~= self.entries.deep_view().take(i + 1));
            }
            i += 1;
        }
        proof {
            assert(self.entries.deep_view().take(i as int) =~= self.entries.deep_view());
        }
        Times { entries }
    }

    /// What is known under an id.
    pub fn get(&self, id: &str) -> (known: Option<Option<i64>>)
        ensures
            known == if self@.contains_key(id@) {
                Some(self@[id@])
            } else {
                None
            },
    {
        let ghost all = self.entries.deep_view();
        let mut i: usize = 0;
        while i < self.entries.len()
            invariant
                i <= self.entries.len(),
                all == self.entries.deep_view(),
                lookup(all.take(i as int), id@) is None,
            decreases self.entries.len() - i,
        {
            proof {
                assert(all.take(i + 1).drop_last() =~= all.take(i as int));
                assert(all[i as int] == self.entries[i as int].deep_view());
            }
            if text::same(self.entries[i].0.as_str(), id) {
                proof {
                    lemma_lookup_stays(all, i + 1, id@);
                }
                return Some(self.entries[i].1);
            }
            i += 1;
        }
        proof {
            assert(all.take(i as int) =~= all);
        }
        None
    }

    /// Remembers something under an id.
    pub fn put(&mut self, id: &str, time: Option<i64>)
        ensures
            final(self)@ == old(self)@.insert(id@, time),
    {
        let ghost all = self.entries.deep_view();
        let mut i: usize = 0;
        while i < self.entries.len()
            invariant
                i <= self.entries.len(),
                *self == *old(self),
                all == self.entries.deep_view(),
                lookup(all.take(i as int), id@) is None,
            decreases self.entries.len() - i,
        {
            proof {
                assert(all.take(i + 1).drop_last() =~= all.take(i as int));
                assert(all[i as int] == self.entries[i as int].deep_view());
            }
            if text::same(self.entries[i].0.as_str(), id) {
                self.entries.set(i, (id.to_owned(), time));
                proof {
                    let next = self.entries.deep_view();
                    assert(next =~= all.update(i as int, (id@, time)));
                    assert forall|other: Seq<char>| #[trigger]
                        lookup(next, other) == if other == id@ {
                            Some(time)
                        } else {
                            lookup(all, other)
                        } by {
                        lemma_lookup_update(all, i as int, time, other);
                    }
                    assert(times_map(next) =~= times_map(all).insert(id@, time));
                }
                return ;
            }
            i += 1;
        }
        proof {
            assert(all.take(i as int) =~= all);
        }
        self.entries.push((id.to_owned(), time));
        proof {
            let next = self.entries.deep_view();
            assert(next =~= all.push((id@, time)));
            assert(next.drop_last() =~= all);
            assert(times_map(next) =~= times_map(all).insert(id@, time));
        }
    }

    /// Forgets all but the chunks that there are.
    pub fn retain(&mut self, chunks: &Vec<Chunk>)
        ensures
            final(self)@ == only(old(self)@, chunks.deep_view()),
    {
        let ghost all = self.entries.deep_view();
        let ghost ids = ids_of(chunks.deep_view());
        let mut kept: Vec<(String, Option<i64>)> = Vec::new();
        let mut i: usize = 0;
        while i < self.entries.len()
            invariant
                i <= self.entries.len(),
                *self == *old(self),
                all == self.entries.deep_view(),
                ids == ids_of(chunks.deep_view()),
                forall|id: Seq<char>| #[trigger]
                    lookup(kept.deep_view(), id) == if ids.contains(id) {
                        lookup(all.take(i as int), id)
                    } else {
                        None
                    },
            decreases self.entries.len() - i,
        {
            let ghost before = kept.deep_view();
            proof {
                assert(all.take(i + 1).drop_last() =~= all.take(i as int));
                assert(all[i as int] == self.entries[i as int].deep_view());
            }
            if names(chunks, self.entries[i].0.as_str()) {
                kept.push((self.entries[i].0.clone(), self.entries[i].1));
                proof {
                    assert(kept.deep_view() =~= before.push(all[i as int]));
                    assert(kept.deep_view().drop_last() =~= before);
                }
            }
            proof {
                assert forall|id: Seq<char>| #[trigger]
                    lookup(kept.deep_view(), id) == if ids.contains(id) {
                        lookup(all.take(i + 1), id)
                    } else {
                        None
                    } by {
                    assert(lookup(before, id) == if ids.contains(id) {
                        lookup(all.take(i as int), id)
                    } else {
                        None
                    });
                }
            }
            i += 1;
        }
        self.entries = kept;
        proof {
            assert(all.take(i as int) =~= all);
            assert(self@ =~= only(times_map(all), chunks.deep_view()));
        }
    }
}

proof fn lemma_lookup_stays(entries: Seq<(Seq<char>, Option<i64>)>, n: int, id: Seq<char>)
    requires
        0 <= n <= entries.len(),
        lookup(entries.take(n), id) is Some,
    ensures
        lookup(entries, id) == lookup(entries.take(n), id),
    decreases entries.len(),
{
    if n < entries.len() {
        let shorter = entries.drop_last();
        assert(shorter.take(n) =~= entries.take(n));
        lemma_lookup_stays(shorter, n, id);
    } else {
        assert(entries.take(n) =~= entries);
    }
}

/// The id of a chunk, as a mapping.
pub open spec fn id_of() -> spec_fn(Chunk<Seq<char>>) -> Seq<char> {
    |chunk: Chunk<Seq<char>>| chunk.id
}

/// The ids of chunks.
pub open spec fn ids_of(chunks: Seq<Chunk<Seq<char>>>) -> Set<Seq<char>> {
    chunks.map_values(id_of()).to_set()
}

/// What is known of the chunks that there are.
pub open spec fn only(
    times: Map<Seq<char>, Option<i64>>,
    chunks: Seq<Chunk<Seq<char>>>,
) -> Map<Seq<char>, Option<i64>> {
    times.restrict(ids_of(chunks))
}

fn names(chunks: &Vec<Chunk>, id: &str) -> (answer: bool)
    ensures
        answer == ids_of(chunks.deep_view()).contains(id@),
{
    let ghost all = chunks.deep_view();
    let ghost ids = all.map_values(id_of());
    let mut i: usize = 0;
    while i < chunks.len()
        invariant
            i <= chunks.len(),
            all == chunks.deep_view(),
            ids == all.map_values(id_of()),
            forall|j: int| 0 <= j < i ==> #[trigger] ids[j] != id@,
        decreases chunks.len() - i,
    {
        proof {
            assert(ids[i as int] == chunks[i as int].id@);
        }
        if text::same(chunks[i].id.as_str(), id) {
            return true;
        }
        i += 1;
    }
    false
}

/// How long a chunk that was never seen before has been done, in nanoseconds: too long to be shown.
pub const SHOWN: i64 = 4_000_000_000;

/// Since when a chunk that is done counts as done. One that was never seen before has been done
/// for long.
pub open spec fn done_since(
    times: Map<Seq<char>, Option<i64>>,
    id: Seq<char>,
    now: i64,
) -> i64 {
    if !times.contains_key(id) {
        (now - SHOWN) as i64
    } else {
        match times[id] {
            Some(time) => time,
            None => now,
        }
    }
}

/// What is known after a look at a chunk.
pub open spec fn noted(
    times: Map<Seq<char>, Option<i64>>,
    chunk: Chunk<Seq<char>>,
    now: i64,
) -> Map<Seq<char>, Option<i64>> {
    times.insert(
        chunk.id,
        if chunk.status == ChunkStatus::Ready {
            Some(done_since(times, chunk.id, now))
        } else {
            None
        },
    )
}

/// What is known after a look at all chunks.
pub open spec fn noted_all(
    times: Map<Seq<char>, Option<i64>>,
    chunks: Seq<Chunk<Seq<char>>>,
    now: i64,
) -> Map<Seq<char>, Option<i64>>
    decreases chunks.len(),
{
    if chunks.len() == 0 {
        times
    } else {
        noted(noted_all(times, chunks.drop_last(), now), chunks.last(), now)
    }
}

/// How long a chunk has been done, in nanoseconds. What is not done yet has no such age.
pub open spec fn age(
    times: Map<Seq<char>, Option<i64>>,
    chunk: Chunk<Seq<char>>,
    now: i64,
) -> Option<u64> {
    if chunk.status == ChunkStatus::Ready {
        Some(less(now as int, done_since(times, chunk.id, now) as int) as u64)
    } else {
        None
    }
}

/// How long each chunk has been done.
pub open spec fn all_ages(
    times: Map<Seq<char>, Option<i64>>,
    chunks: Seq<Chunk<Seq<char>>>,
    now: i64,
) -> Seq<Option<u64>>
    decreases chunks.len(),
{
    if chunks.len() == 0 {
        Seq::empty()
    } else {
        let earlier = chunks.drop_last();
        all_ages(times, earlier, now).push(
            age(noted_all(times, earlier, now), chunks.last(), now),
        )
    }
}

/// How long each chunk has been done; and what is remembered of the chunks for the next time.
pub fn ages(chunks: &Vec<Chunk>, times: &mut Times, now: i64) -> (ages: Vec<Option<u64>>)
    requires
        i64::MIN + SHOWN <= now,
    ensures
        ages@ == all_ages(only(old(times)@, chunks.deep_view()), chunks.deep_view(), now),
        ages.len() == chunks.len(),
        final(times)@ == noted_all(
            only(old(times)@, chunks.deep_view()),
            chunks.deep_view(),
            now,
        ),
{
    let ghost all = chunks.deep_view();
    times.retain(chunks);
    let ghost kept = times@;
    let mut ages: Vec<Option<u64>> = Vec::new();
    let mut i: usize = 0;
    while i < chunks.len()
        invariant
            i <= chunks.len(),
            i64::MIN + SHOWN <= now,
            all == chunks.deep_view(),
            ages.len() == i,
            ages@ == all_ages(kept, all.take(i as int), now),
            times@ == noted_all(kept, all.take(i as int), now),
        decreases chunks.len() - i,
    {
        proof {
            assert(all.take(i + 1).drop_last() =~= all.take(i as int));
            assert(all[i as int] == chunks[i as int].deep_view());
        }
        let chunk = &chunks[i];
        if chunk.status == ChunkStatus::Ready {
            let since: i64 = match times.get(chunk.id.as_str()) {
                None => now - SHOWN,
                Some(None) => now,
                Some(Some(time)) => time,
            };
            times.put(chunk.id.as_str(), Some(since));
            ages.push(Some(elapsed(now, since)));
        } else {
            times.put(chunk.id.as_str(), None);
            ages.push(None);
        }
        i += 1;
    }
    proof {
        assert(all.take(i as int) =~= all);
    }
    ages
}

fn elapsed(now: i64, since: i64) -> (age: u64)
    ensures
        age == less(now as int, since as int),
{
    if since >= now {
        0
    } else {
        (now as i128 - since as i128) as u64
    }
}

/// The bits of an infinite `f32`, the largest of those above nothing.
pub const INFINITE: u32 = 0x7F80_0000;

/// Whether an opacity, as the bits of an `f32`, is above nothing.
pub open spec fn visible(opacity: u32) -> bool {
    0 < opacity <= INFINITE
}

/// The chunks of which something is to be seen, by their places, with their opacities.
pub open spec fn shown_items(opacities: Seq<u32>) -> Seq<(usize, u32)>
    decreases opacities.len(),
{
    if opacities.len() == 0 {
        Seq::empty()
    } else {
        let before = shown_items(opacities.drop_last());
        if visible(opacities.last()) {
            before.push(((opacities.len() - 1) as usize, opacities.last()))
        } else {
            before
        }
    }
}

/// The chunks that are shown, by their places, each with its opacity, as the bits of an `f32`.
pub fn queue_items(opacities: &Vec<u32>) -> (items: Vec<(usize, u32)>)
    ensures
        items@ == shown_items(opacities@),
        ascending(items@, opacities.len() as int),
{
    let ghost all = opacities@;
    let mut items: Vec<(usize, u32)> = Vec::new();
    let mut i: usize = 0;
    while i < opacities.len()
        invariant
            i <= opacities.len(),
            all == opacities@,
            items@ == shown_items(all.take(i as int)),
            ascending(items@, i as int),
        decreases opacities.len() - i,
    {
        proof {
            assert(all.take(i + 1).drop_last() =~= all.take(i as int));
        }
        let opacity: u32 = opacities[i];
        if 0 < opacity && opacity <= INFINITE {
            items.push((i, opacity));
        }
        i += 1;
    }
    proof {
        assert(all.take(i as int) =~= all);
    }
    items
}

/// Whether items come in the order of their places, which are below a limit.
pub open spec fn ascending(items: Seq<(usize, u32)>, limit: int) -> bool {
    &&& forall|i: int| 0 <= i < items.len() ==> (#[trigger] items[i]).0 < limit
    &&& forall|i: int, j: int|
        0 <= i < j < items.len() ==> (#[trigger] items[i]).0 < (#[trigger] items[j]).0
}

/// A chunk grows old from the moment it is first seen to be done; one that was done before
/// anybody looked is as old as those that are shown no more, and one that is not done has no age.
pub proof fn law_finished_chunk_grows_old(
    times: Map<Seq<char>, Option<i64>>,
    chunk: Chunk<Seq<char>>,
    now: i64,
    later: i64,
)
    requires
        i64::MIN + SHOWN <= now <= later,
    ensures
        chunk.status != ChunkStatus::Ready ==> age(times, chunk, now) is None,
        chunk.status == ChunkStatus::Ready && !times.contains_key(chunk.id) ==> age(
            times,
            chunk,
            now,
        ) == Some(SHOWN as u64) && age(noted(times, chunk, now), chunk, later) == Some(
            (SHOWN + later - now) as u64,
        ),
        chunk.status == ChunkStatus::Ready && times.contains_key(chunk.id)
            && times[chunk.id] is None ==> age(times, chunk, now) == Some(0u64) && age(
            noted(times, chunk, now),
            chunk,
            later,
        ) == Some((later - now) as u64),
{
}

/// A chunk that is looked at again, with no time gone by, is as old as before.
pub proof fn law_second_look_changes_nothing(
    times: Map<Seq<char>, Option<i64>>,
    chunk: Chunk<Seq<char>>,
    now: i64,
)
    requires
        i64::MIN + SHOWN <= now,
    ensures
        noted(noted(times, chunk, now), chunk, now) == noted(times, chunk, now),
        age(noted(times, chunk, now), chunk, now) == age(times, chunk, now),
{
    assert(noted(noted(times, chunk, now), chunk, now) =~= noted(times, chunk, now));
}

/// A chunk is among those that are shown if and only if something of it is to be seen, and then
/// with its own opacity.
pub proof fn law_visible_chunks_are_shown(opacities: Seq<u32>, place: usize, opacity: u32)
    requires
        opacities.len() <= usize::MAX,
    ensures
        shown_items(opacities).contains((place, opacity)) <==> place < opacities.len()
            && opacities[place as int] == opacity && visible(opacity),
    decreases opacities.len(),
{
    if opacities.len() > 0 {
        let earlier = opacities.drop_last();
        let before = shown_items(earlier);
        let items = shown_items(opacities);
        let last = ((opacities.len() - 1) as usize, opacities.last());
        law_visible_chunks_are_shown(earlier, place, opacity);
        if visible(opacities.last()) {
            assert(items == before.push(last));
            assert(items[before.len() as int] == last);
            if before.contains((place, opacity)) {
                let i = choose|i: int| 0 <= i < before.len() && before[i] == (place, opacity);
                assert(items[i] == (place, opacity));
            }
        }
    }
}

/// Each chunk has its own age, by what is known of it after a look at the chunks before it; what is
/// known of chunks that are gone is forgotten.
pub proof fn law_each_chunk_has_its_age(
    times: Map<Seq<char>, Option<i64>>,
    chunks: Seq<Chunk<Seq<char>>>,
    chunk: Chunk<Seq<char>>,
    now: i64,
    id: Seq<char>,
)
    ensures
        all_ages(times, Seq::empty(), now).len() == 0,
        all_ages(times, chunks.push(chunk), now) == all_ages(times, chunks, now).push(
            age(noted_all(times, chunks, now), chunk, now),
        ),
        noted_all(times, chunks.push(chunk), now) == noted(
            noted_all(times, chunks, now),
            chunk,
            now,
        ),
        only(times, chunks.push(chunk)).contains_key(id) <==> times.contains_key(id) && (id
            == chunk.id || ids_of(chunks).contains(id)),
        noted(times, chunk, now).contains_key(chunk.id),
        chunk.status != ChunkStatus::Ready ==> noted(times, chunk, now)[chunk.id] is None,
        id != chunk.id && times.contains_key(id) ==> noted(times, chunk, now).contains_key(id)
            && noted(times, chunk, now)[id] == times[id],
{
    assert(chunks.push(chunk).drop_last() =~= chunks);
    let all = chunks.push(chunk).map_values(id_of());
    let before = chunks.map_values(id_of());
    assert(all =~= before.push(chunk.id));
    if before.contains(id) {
        let i = choose|i: int| 0 <= i < before.len() && before[i] == id;
        assert(all[i] == id);
    }
    assert(all[before.len() as int] == chunk.id);
}

} // verus!
