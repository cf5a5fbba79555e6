//! A bounded cache of decoded frames.
//!
//! Frames are kept per source under the time at which they are shown,
//! rounded to the nearest tenth of a second. A lookup that finds no frame at
//! the rounded time falls back to the nearest frame of the same source, if
//! one lies less than half a second away. When an insertion takes the cache
//! beyond its capacity, the entries that were used longest ago are dropped.
//!
//! Times are in milliseconds. Entries are stamped with the readings of a
//! monotonic clock. Every function that stamps comes in two forms: one that
//! is handed the reading, and one that reads the cache's own clock. Whatever
//! the readings, the cache never lets its own time run backwards. The forms
//! that read the cache's own clock let it run forwards with every call, so
//! that two uses within one millisecond are still told apart: each stamps
//! later than all stamps before it.

use crate::clock::Clock;
use crate::frame::{Frame, FrameView};
use vstd::prelude::*;

verus! {

/// The number of entries that a cache holds unless told otherwise.
pub const DEFAULT_CAPACITY: usize = 100;

/// The smallest capacity of a cache: with less, a fifth of the capacity
/// would be no entry at all, and nothing would ever be dropped.
pub const MIN_CAPACITY: usize = 5;

/// The slot of `time`: the nearest tenth of a second, halves rounded away
/// from zero.
pub open spec fn quantize(time: int) -> int {
    if time >= 0 {
        (time + 50) / 100
    } else {
        -((50 - time) / 100)
    }
}

/// Milliseconds between the tenth of a second that `slot` stands for and
/// `time`.
pub open spec fn slot_gap(slot: int, time: int) -> int {
    let at = slot * 100;
    if at >= time {
        at - time
    } else {
        time - at
    }
}

/// One cached frame with its key and bookkeeping.
pub struct CachedFrame {
    pub source: String,
    pub slot: i64,
    pub frame: Frame,
    pub last_accessed: u64,
    pub is_loading: bool,
}

/// What a [`CachedFrame`] holds, as plain values.
pub ghost struct CachedFrameView {
    pub source: Seq<char>,
    pub slot: i64,
    pub frame: FrameView,
    pub last_accessed: u64,
    pub is_loading: bool,
}

impl View for CachedFrame {
    type V = CachedFrameView;

    open spec fn view(&self) -> CachedFrameView {
        CachedFrameView {
            source: self.source@,
            slot: self.slot,
            frame: self.frame@,
            last_accessed: self.last_accessed,
            is_loading: self.is_loading,
        }
    }
}

impl CachedFrameView {
    /// The entry is the one kept for `source` at `slot`.
    pub open spec fn has_key(self, source: Seq<char>, slot: int) -> bool {
        self.source == source && self.slot == slot
    }

    /// The entry may serve as a fallback for `source`.
    pub open spec fn is_candidate(self, source: Seq<char>) -> bool {
        self.source == source && !self.is_loading
    }

    /// Milliseconds between the entry's slot and `time`.
    pub open spec fn distance(self, time: int) -> int {
        slot_gap(self.slot as int, time)
    }

    /// The entry with its last access moved to `stamp`.
    pub open spec fn touched(self, stamp: u64) -> CachedFrameView {
        CachedFrameView { last_accessed: stamp, ..self }
    }
}

/// The entry that an insertion writes.
pub open spec fn fresh_entry(
    source: Seq<char>,
    slot: int,
    frame: FrameView,
    stamp: u64,
) -> CachedFrameView {
    CachedFrameView { source, slot: slot as i64, frame, last_accessed: stamp, is_loading: false }
}

/// No two entries of `s` have the same source and slot.
pub open spec fn keys_distinct(s: Seq<CachedFrameView>) -> bool {
    forall|i: int, j: int|
        0 <= i < s.len() && 0 <= j < s.len() && #[trigger] s[i].source == #[trigger] s[j].source
            && s[i].slot == s[j].slot ==> i == j
}

/// The entry at index `i` of `s` is the one kept for `source` at `slot`.
pub open spec fn key_at(s: Seq<CachedFrameView>, source: Seq<char>, slot: int, i: int) -> bool {
    0 <= i < s.len() && s[i].has_key(source, slot)
}

/// The index of the entry kept for `source` at `slot`, if there is one.
pub open spec fn key_index(s: Seq<CachedFrameView>, source: Seq<char>, slot: int) -> Option<int> {
    if exists|i: int| key_at(s, source, slot, i) {
        Some(choose|i: int| key_at(s, source, slot, i))
    } else {
        None
    }
}

/// The entry at index `i` is a fallback candidate for `source` that lies
/// nearest to `time`; of several at the same distance, it is the first.
pub open spec fn is_nearest(s: Seq<CachedFrameView>, source: Seq<char>, time: int, i: int) -> bool {
    &&& 0 <= i < s.len()
    &&& s[i].is_candidate(source)
    &&& forall|j: int|
        0 <= j < s.len() && (#[trigger] s[j]).is_candidate(source) ==> s[i].distance(time)
            < s[j].distance(time) || (s[i].distance(time) == s[j].distance(time) && i <= j)
}

/// The index of the nearest fallback candidate for `source` at `time`, if
/// the source has any candidate.
pub open spec fn nearest_index(s: Seq<CachedFrameView>, source: Seq<char>, time: int) -> Option<
    int,
> {
    if exists|i: int| is_nearest(s, source, time, i) {
        Some(choose|i: int| is_nearest(s, source, time, i))
    } else {
        None
    }
}

/// The frame that a lookup of `source` at `time` finds among the candidates
/// near `time`: the nearest, where it is less than half a second away.
pub open spec fn nearby(s: Seq<CachedFrameView>, source: Seq<char>, time: int) -> Option<
    FrameView,
> {
    match nearest_index(s, source, time) {
        Some(i) => if s[i].distance(time) < 500 {
            Some(s[i].frame)
        } else {
            None
        },
        None => None,
    }
}

/// The frame that a lookup of `source` at `time` returns: the one kept at
/// the slot of `time`, or else the nearby fallback.
pub open spec fn lookup(s: Seq<CachedFrameView>, source: Seq<char>, time: int) -> Option<
    FrameView,
> {
    match key_index(s, source, quantize(time)) {
        Some(i) => Some(s[i].frame),
        None => nearby(s, source, time),
    }
}

/// The entries after a lookup of `source` at `time` made at `stamp`: an
/// entry found at the slot of `time` has its last access moved to `stamp`,
/// and nothing else changes.
pub open spec fn refreshed(
    s: Seq<CachedFrameView>,
    source: Seq<char>,
    time: int,
    stamp: u64,
) -> Seq<CachedFrameView> {
    match key_index(s, source, quantize(time)) {
        Some(i) => s.update(i, s[i].touched(stamp)),
        None => s,
    }
}

/// The entry at index `i` was used longest ago; of several with the same
/// last access, it is the first.
pub open spec fn is_oldest(s: Seq<CachedFrameView>, i: int) -> bool {
    &&& 0 <= i < s.len()
    &&& forall|j: int|
        0 <= j < s.len() ==> s[i].last_accessed < (#[trigger] s[j]).last_accessed || (
        s[i].last_accessed == s[j].last_accessed && i <= j)
}

/// The index of the entry that was used longest ago; `s` is not empty.
pub open spec fn oldest_index(s: Seq<CachedFrameView>) -> int {
    choose|i: int| is_oldest(s, i)
}

/// `s` after the entry used longest ago has been dropped `count` times, or
/// until nothing is left.
pub open spec fn evict_oldest(s: Seq<CachedFrameView>, count: nat) -> Seq<CachedFrameView>
    decreases count,
{
    if count == 0 || s.len() == 0 {
        s
    } else {
        evict_oldest(s.remove(oldest_index(s)), (count - 1) as nat)
    }
}

/// `s` cut back after an insertion: where it holds more than `capacity`
/// entries, a fifth of the capacity is dropped, oldest first.
pub open spec fn trimmed_to(s: Seq<CachedFrameView>, capacity: nat) -> Seq<CachedFrameView> {
    if s.len() > capacity {
        evict_oldest(s, capacity / 5)
    } else {
        s
    }
}

/// The entries after `frame` has been stored for `source` at `time` with the
/// stamp `stamp`: the entry at the slot of `time` is overwritten in place, or
/// a new entry is added at the end, and then the cache is cut back to its
/// capacity.
pub open spec fn stored(
    s: Seq<CachedFrameView>,
    capacity: nat,
    source: Seq<char>,
    time: int,
    frame: FrameView,
    stamp: u64,
) -> Seq<CachedFrameView> {
    let entry = fresh_entry(source, quantize(time), frame, stamp);
    match key_index(s, source, quantize(time)) {
        Some(i) => trimmed_to(s.update(i, entry), capacity),
        None => trimmed_to(s.push(entry), capacity),
    }
}

/// The later of the cache's own time and a clock reading.
pub open spec fn later(clock: u64, now: u64) -> u64 {
    if now > clock {
        now
    } else {
        clock
    }
}

/// The stamp of a use at the clock reading `reading` that is told apart
/// from every use before it: the reading where it is later than the cache's
/// own time, and else one millisecond past the cache's own time, held at the
/// largest `u64`.
pub open spec fn next_stamp(clock: u64, reading: u64) -> u64 {
    if reading > clock {
        reading
    } else if clock < u64::MAX {
        (clock + 1) as u64
    } else {
        clock
    }
}

/// An entry with a given key is found at its index.
pub proof fn lemma_key_index_unique(
    s: Seq<CachedFrameView>,
    source: Seq<char>,
    slot: int,
    i: int,
)
    requires
        keys_distinct(s),
        key_at(s, source, slot, i),
    ensures
        key_index(s, source, slot) == Some(i),
{
}

/// The nearest candidate is found at its index.
pub proof fn lemma_nearest_unique(s: Seq<CachedFrameView>, source: Seq<char>, time: int, i: int)
    requires
        is_nearest(s, source, time, i),
    ensures
        nearest_index(s, source, time) == Some(i),
{
}

/// The oldest entry is found at its index.
pub proof fn lemma_oldest_unique(s: Seq<CachedFrameView>, i: int)
    requires
        is_oldest(s, i),
    ensures
        oldest_index(s) == i,
{
    let c = oldest_index(s);
    assert(s[c].last_accessed <= s[i].last_accessed);
}

/// A sequence that is not empty has an oldest entry.
pub proof fn lemma_oldest_exists(s: Seq<CachedFrameView>)
    requires
        s.len() > 0,
    ensures
        is_oldest(s, oldest_index(s)),
    decreases s.len(),
{
    if s.len() == 1 {
        assert(is_oldest(s, 0));
    } else {
        let head = s.drop_last();
        lemma_oldest_exists(head);
        let h = oldest_index(head);
        let last = s.len() - 1;
        if s[last].last_accessed < head[h].last_accessed {
            assert forall|j: int| 0 <= j < s.len() implies s[last].last_accessed < (
            #[trigger] s[j]).last_accessed || (s[last].last_accessed == s[j].last_accessed && last
                <= j) by {
                if j < last {
                    assert(head[j] == s[j]);
                }
            }
            assert(is_oldest(s, last));
        } else {
            assert forall|j: int| 0 <= j < s.len() implies s[h].last_accessed < (
            #[trigger] s[j]).last_accessed || (s[h].last_accessed == s[j].last_accessed && h
                <= j) by {
                if j < last {
                    assert(head[j] == s[j]);
                }
            }
            assert(is_oldest(s, h));
        }
    }
}

/// What eviction leaves: the number of entries dropped is `count`, or all
/// of them where there are fewer; the entries left are entries of `s`, with
/// distinct keys where `s` has distinct keys; and every entry that was
/// dropped was last used no later than every entry that was left.
pub proof fn lemma_eviction_drops_least_recent(s: Seq<CachedFrameView>, count: nat)
    ensures
        evict_oldest(s, count).len() == if count <= s.len() {
            s.len() - count
        } else {
            0
        },
        keys_distinct(s) ==> keys_distinct(evict_oldest(s, count)),
        forall|i: int|
            0 <= i < evict_oldest(s, count).len() ==> s.contains(
                #[trigger] evict_oldest(s, count)[i],
            ),
        forall|i: int, j: int|
            0 <= i < s.len() && 0 <= j < evict_oldest(s, count).len() && !evict_oldest(
                s,
                count,
            ).contains(#[trigger] s[i]) ==> s[i].last_accessed <= (#[trigger] evict_oldest(
                s,
                count,
            )[j]).last_accessed,
    decreases count,
{
    let r = evict_oldest(s, count);
    if count > 0 && s.len() > 0 {
        lemma_oldest_exists(s);
        let m = oldest_index(s);
        let rest = s.remove(m);
        lemma_eviction_drops_least_recent(rest, (count - 1) as nat);
        assert forall|i: int, j: int|
            0 <= i < s.len() && 0 <= j < r.len() && !r.contains(
                #[trigger] s[i],
            ) implies s[i].last_accessed <= (#[trigger] r[j]).last_accessed by {
            if i != m {
                let a = if i < m {
                    i
                } else {
                    i - 1
                };
                assert(rest[a] == s[i]);
            }
        }
    }
}

/// Eviction never drops an entry that was used no earlier than all others
/// and stands last, as long as fewer entries are dropped than there are.
pub proof fn lemma_eviction_keeps_newest(s: Seq<CachedFrameView>, count: nat)
    requires
        count < s.len(),
        forall|j: int| 0 <= j < s.len() ==> (#[trigger] s[j]).last_accessed <= s.last().last_accessed,
    ensures
        evict_oldest(s, count).len() == s.len() - count,
        evict_oldest(s, count).last() == s.last(),
    decreases count,
{
    if count > 0 {
        lemma_oldest_exists(s);
        let m = oldest_index(s);
        let rest = s.remove(m);
        lemma_eviction_keeps_newest(rest, (count - 1) as nat);
    }
}

/// A stored frame fits the capacity: after an insertion into a cache that
/// held no more than its capacity, the cache again holds no more than its
/// capacity.
pub proof fn lemma_stored_within_capacity(
    s: Seq<CachedFrameView>,
    capacity: nat,
    source: Seq<char>,
    time: int,
    frame: FrameView,
    stamp: u64,
)
    requires
        s.len() <= capacity,
        capacity >= 5,
    ensures
        stored(s, capacity, source, time, frame, stamp).len() <= capacity,
{
    let entry = fresh_entry(source, quantize(time), frame, stamp);
    if key_index(s, source, quantize(time)) is None {
        lemma_eviction_drops_least_recent(s.push(entry), capacity / 5);
    }
}

/// A frame that has just been stored is found again: a lookup at any time
/// in the same slot returns it, whatever else the cache holds, as long as
/// no entry was used after the stamp of the insertion.
pub proof fn lemma_stored_then_found(
    s: Seq<CachedFrameView>,
    capacity: nat,
    source: Seq<char>,
    put_time: i64,
    get_time: i64,
    frame: FrameView,
    stamp: u64,
)
    requires
        keys_distinct(s),
        s.len() <= capacity,
        capacity >= 5,
        forall|j: int| 0 <= j < s.len() ==> (#[trigger] s[j]).last_accessed <= stamp,
        quantize(put_time as int) == quantize(get_time as int),
    ensures
        lookup(
            stored(s, capacity, source, put_time as int, frame, stamp),
            source,
            get_time as int,
        ) == Some(frame),
{
    let slot = quantize(put_time as int);
    let entry = fresh_entry(source, slot, frame, stamp);
    let after = stored(s, capacity, source, put_time as int, frame, stamp);
    match key_index(s, source, slot) {
        Some(i) => {
            let written = s.update(i, entry);
            lemma_key_index_unique(written, source, slot, i);
        },
        None => {
            let written = s.push(entry);
            assert forall|a: int, b: int|
                0 <= a < written.len() && 0 <= b < written.len()
                    && #[trigger] written[a].source == #[trigger] written[b].source
                    && written[a].slot == written[b].slot implies a == b by {
                if a < s.len() && b >= s.len() {
                    assert(key_at(s, source, slot, a));
                }
                if b < s.len() && a >= s.len() {
                    assert(key_at(s, source, slot, b));
                }
            }
            if written.len() > capacity {
                lemma_eviction_keeps_newest(written, capacity / 5);
                lemma_eviction_drops_least_recent(written, capacity / 5);
            }
            lemma_key_index_unique(after, source, slot, after.len() - 1);
        },
    }
}

/// The slot of a time lies no more than half a slot from it.
pub proof fn lemma_quantize_near(time: int)
    ensures
        slot_gap(quantize(time), time) <= 50,
{
}

/// In a cache that holds a single frame, a lookup for the frame's source
/// finds the frame exactly when the frame's slot lies less than half a
/// second from the time asked for.
pub proof fn lemma_single_entry_lookup(entry: CachedFrameView, time: int)
    requires
        !entry.is_loading,
    ensures
        lookup(seq![entry], entry.source, time) == if entry.distance(time) < 500 {
            Some(entry.frame)
        } else {
            None
        },
{
    let s = seq![entry];
    if entry.slot == quantize(time) {
        lemma_key_index_unique(s, entry.source, quantize(time), 0);
    } else {
        lemma_nearest_unique(s, entry.source, time, 0);
    }
}

/// Storing a frame for a key that the cache does not hold yet, in a cache
/// that is full, leaves the cache a fifth of its capacity short of one entry
/// more than it can hold.
pub proof fn lemma_full_cache_drops_a_fifth(
    s: Seq<CachedFrameView>,
    capacity: nat,
    source: Seq<char>,
    time: int,
    frame: FrameView,
    stamp: u64,
)
    requires
        s.len() == capacity,
        capacity >= 5,
        key_index(s, source, quantize(time)) is None,
    ensures
        stored(s, capacity, source, time, frame, stamp).len() == capacity + 1 - capacity / 5,
{
    let entry = fresh_entry(source, quantize(time), frame, stamp);
    lemma_eviction_drops_least_recent(s.push(entry), capacity / 5);
}

/// The cache itself.
pub struct FrameCache {
    entries: Vec<CachedFrame>,
    max_cache_size: usize,
    clock: u64,
    timer: Clock,
}

impl View for FrameCache {
    type V = Seq<CachedFrameView>;

    /// The entries in the order in which they are kept.
    closed spec fn view(&self) -> Seq<CachedFrameView> {
        self.entries@.map_values(|e: CachedFrame| e@)
    }
}

/// Computes the slot of `time`.
pub fn quantize_time(time: i64) -> (slot: i64)
    ensures
        slot == quantize(time as int),
{
    if time >= 0 {
        (((time as i128) + 50) / 100) as i64
    } else {
        (-((50 - (time as i128)) / 100)) as i64
    }
}

/// Computes the milliseconds between `slot` and `time`.
fn slot_distance(slot: i64, time: i64) -> (d: i128)
    ensures
        d == slot_gap(slot as int, time as int),
{
    let at: i128 = (slot as i128) * 100;
    let t: i128 = time as i128;
    if at >= t {
        at - t
    } else {
        t - at
    }
}

impl FrameCache {
    /// The number of entries that the cache may hold.
    pub closed spec fn capacity(&self) -> nat {
        self.max_cache_size as nat
    }

    /// The latest clock reading that the cache has been handed.
    pub closed spec fn clock(&self) -> u64 {
        self.clock
    }

    /// The cache is in order: no key occurs twice, the entries fit the
    /// capacity, none is marked as loading, and none was used after the
    /// cache's own time.
    pub open spec fn wf(&self) -> bool {
        &&& keys_distinct(self@)
        &&& self@.len() <= self.capacity()
        &&& self.capacity() >= 5
        &&& forall|i: int| 0 <= i < self@.len() ==> !(#[trigger] self@[i]).is_loading
        &&& forall|i: int| 0 <= i < self@.len() ==> (#[trigger] self@[i]).last_accessed <= self.clock()
    }

    /// An empty cache of the default capacity.
    pub fn new() -> (cache: Self)
        ensures
            cache.wf(),
            cache@ == Seq::<CachedFrameView>::empty(),
            cache.capacity() == DEFAULT_CAPACITY,
            cache.clock() == 0,
    {
        let cache = FrameCache {
            entries: Vec::new(),
            max_cache_size: DEFAULT_CAPACITY,
            clock: 0,
            timer: Clock::start(),
        };
        cache
    }

    /// An empty cache that holds up to `capacity` entries.
    pub fn with_capacity(capacity: usize) -> (cache: Self)
        requires
            capacity >= MIN_CAPACITY,
        ensures
            cache.wf(),
            cache@ == Seq::<CachedFrameView>::empty(),
            cache.capacity() == capacity,
            cache.clock() == 0,
    {
        let cache = FrameCache {
            entries: Vec::new(),
            max_cache_size: capacity,
            clock: 0,
            timer: Clock::start(),
        };
        cache
    }

    /// Finds the entry kept for `source` at `slot`.
    fn position(&self, source: &String, slot: i64) -> (r: Option<usize>)
        requires
            keys_distinct(self@),
        ensures
            match r {
                Some(i) => key_index(self@, source@, slot as int) == Some(i as int) && i
                    < self.entries@.len(),
                None => key_index(self@, source@, slot as int) is None,
            },
    {
        let n: usize = self.entries.len();
        let mut i: usize = 0;
        while i < n
            invariant
                n == self.entries@.len(),
                i <= n,
                keys_distinct(self@),
                forall|j: int| 0 <= j < i ==> !key_at(self@, source@, slot as int, j),
            decreases n - i,
        {
            if self.entries[i].slot == slot && self.entries[i].source == *source {
                proof {
                    lemma_key_index_unique(self@, source@, slot as int, i as int);
                }
                return Some(i);
            }
            i += 1;
        }
        None
    }

    /// Looks for a frame of `video_path` near `target_time`: the nearest
    /// one that is not loading, where it lies less than half a second away.
    pub fn find_nearby_frame(&self, video_path: &str, target_time: i64) -> (r: Option<Frame>)
        ensures
            match r {
                Some(f) => nearby(self@, video_path@, target_time as int) == Some(f@),
                None => nearby(self@, video_path@, target_time as int) is None,
            },
    {
        let source: String = video_path.to_owned();
        let n: usize = self.entries.len();
        let mut best: Option<usize> = None;
        let mut best_distance: i128 = 0;
        let mut i: usize = 0;
        while i < n
            invariant
                n == self.entries@.len(),
                i <= n,
                source@ == video_path@,
                match best {
                    Some(b) => b < i && is_nearest(
                        self@.take(i as int),
                        video_path@,
                        target_time as int,
                        b as int,
                    ) && best_distance == self@[b as int].distance(target_time as int),
                    None => forall|j: int| 0 <= j < i ==> !(#[trigger] self@[j]).is_candidate(video_path@),
                },
            decreases n - i,
        {
            let entry = &self.entries[i];
            if entry.source == source && !entry.is_loading {
                let distance: i128 = slot_distance(entry.slot, target_time);
                let closer: bool = match best {
                    Some(_) => distance < best_distance,
                    None => true,
                };
                if closer {
                    best = Some(i);
                    best_distance = distance;
                }
            }
            i += 1;
        }
        proof {
            assert(self@.take(n as int) =~= self@);
        }
        match best {
            Some(b) => {
                if best_distance < 500 {
                    Some(self.entries[b].frame.clone())
                } else {
                    None
                }
            },
            None => {
                None
            },
        }
    }

    /// Looks up the frame of `video_path` at `time`, at the clock reading
    /// `now`. A frame kept at the slot of `time` is returned and counts as
    /// used now. Otherwise the nearest frame of the same source is returned
    /// where it lies less than half a second away, and does not count as
    /// used.
    pub fn get_frame_at(&mut self, video_path: &str, time: i64, now: u64) -> (r: Option<Frame>)
        requires
            old(self).wf(),
        ensures
            final(self).wf(),
            final(self).capacity() == old(self).capacity(),
            final(self).clock() == later(old(self).clock(), now),
            final(self)@ == refreshed(
                old(self)@,
                video_path@,
                time as int,
                later(old(self).clock(), now),
            ),
            match r {
                Some(f) => lookup(old(self)@, video_path@, time as int) == Some(f@),
                None => lookup(old(self)@, video_path@, time as int) is None,
            },
    {
        let source: String = video_path.to_owned();
        let slot: i64 = quantize_time(time);
        if now > self.clock {
            self.clock = now;
        }
        match self.position(&source, slot) {
            Some(i) => {
                let stamp: u64 = self.clock;
                let ghost before = self@;
                self.entries[i].last_accessed = stamp;
                proof {
                    assert(self@ =~= before.update(i as int, before[i as int].touched(stamp)));
                }
                Some(self.entries[i].frame.clone())
            },
            None => {
                self.find_nearby_frame(video_path, time)
            },
        }
    }

    /// Finds the entry that was used longest ago.
    fn oldest(&self) -> (m: usize)
        requires
            self.entries@.len() > 0,
        ensures
            m < self.entries@.len(),
            m == oldest_index(self@),
    {
        let n: usize = self.entries.len();
        let mut best: usize = 0;
        let mut i: usize = 1;
        while i < n
            invariant
                n == self.entries@.len(),
                1 <= i <= n,
                best < i,
                is_oldest(self@.take(i as int), best as int),
            decreases n - i,
        {
            if self.entries[i].last_accessed < self.entries[best].last_accessed {
                best = i;
            }
            i += 1;
        }
        proof {
            assert(self@.take(n as int) =~= self@);
            lemma_oldest_unique(self@, best as int);
        }
        best
    }

    /// Drops the entry used longest ago, `count` times or until the cache
    /// is empty.
    fn evict(&mut self, count: usize)
        ensures
            final(self)@ == evict_oldest(old(self)@, count as nat),
            final(self).capacity() == old(self).capacity(),
            final(self).clock() == old(self).clock(),
    {
        let mut dropped: usize = 0;
        while dropped < count && self.entries.len() > 0
            invariant
                dropped <= count,
                self.max_cache_size == old(self).max_cache_size,
                self.clock == old(self).clock,
                evict_oldest(self@, (count - dropped) as nat) == evict_oldest(
                    old(self)@,
                    count as nat,
                ),
            decreases count - dropped,
        {
            let m: usize = self.oldest();
            let ghost before = self@;
            self.entries.remove(m);
            proof {
                assert(self@ =~= before.remove(m as int));
            }
            dropped += 1;
        }
    }

    /// Stores `frame` for `video_path` at `time`, at the clock reading
    /// `now`. A frame already kept at the slot of `time` is overwritten.
    /// Where the cache then holds more than its capacity, a fifth of the
    /// capacity is dropped, the entries used longest ago first.
    pub fn add_frame_at(&mut self, video_path: &str, time: i64, frame: Frame, now: u64)
        requires
            old(self).wf(),
        ensures
            final(self).wf(),
            final(self).capacity() == old(self).capacity(),
            final(self).clock() == later(old(self).clock(), now),
            final(self)@ == stored(
                old(self)@,
                old(self).capacity(),
                video_path@,
                time as int,
                frame@,
                later(old(self).clock(), now),
            ),
    {
        let source: String = video_path.to_owned();
        let slot: i64 = quantize_time(time);
        if now > self.clock {
            self.clock = now;
        }
        let stamp: u64 = self.clock;
        let ghost before = self@;
        let ghost fresh = fresh_entry(video_path@, slot as int, frame@, stamp);
        let entry = CachedFrame { source, slot, frame, last_accessed: stamp, is_loading: false };
        match self.position(&entry.source, slot) {
            Some(i) => {
                self.entries[i] = entry;
                proof {
                    assert(self@ =~= before.update(i as int, fresh));
                }
            },
            None => {
                self.entries.push(entry);
                let ghost written = before.push(fresh);
                proof {
                    assert(self@ =~= written);
                    assert forall|a: int, b: int|
                        0 <= a < written.len() && 0 <= b < written.len()
                            && #[trigger] written[a].source == #[trigger] written[b].source
                            && written[a].slot == written[b].slot implies a == b by {
                        if a < before.len() && b >= before.len() {
                            assert(key_at(before, video_path@, slot as int, a));
                        }
                        if b < before.len() && a >= before.len() {
                            assert(key_at(before, video_path@, slot as int, b));
                        }
                    }
                }
                if self.entries.len() > self.max_cache_size {
                    let remove_count: usize = self.max_cache_size / 5;
                    self.evict(remove_count);
                    proof {
                        lemma_eviction_drops_least_recent(written, remove_count as nat);
                    }
                }
            },
        }
    }

    /// Tells the stamp of a use at the clock reading `reading`.
    fn stamp_after(&self, reading: u64) -> (stamp: u64)
        ensures
            stamp == next_stamp(self.clock(), reading),
    {
        if reading > self.clock {
            reading
        } else if self.clock < u64::MAX {
            self.clock + 1
        } else {
            self.clock
        }
    }

    /// Looks up the frame of `video_path` at `time`, as
    /// [`Self::get_frame_at`] does at the reading of the cache's own clock,
    /// or one millisecond past the cache's own time where the clock has not
    /// moved on since.
    pub fn get_frame(&mut self, video_path: &str, time: i64) -> (r: Option<Frame>)
        requires
            old(self).wf(),
        ensures
            final(self).wf(),
            final(self).capacity() == old(self).capacity(),
            exists|reading: u64| final(self).clock() == next_stamp(old(self).clock(), reading),
            final(self)@ == refreshed(old(self)@, video_path@, time as int, final(self).clock()),
            match r {
                Some(f) => lookup(old(self)@, video_path@, time as int) == Some(f@),
                None => lookup(old(self)@, video_path@, time as int) is None,
            },
    {
        let reading: u64 = self.timer.millis();
        let now: u64 = self.stamp_after(reading);
        self.get_frame_at(video_path, time, now)
    }

    /// Stores `frame` for `video_path` at `time`, as [`Self::add_frame_at`]
    /// does at the reading of the cache's own clock, or one millisecond past
    /// the cache's own time where the clock has not moved on since.
    pub fn add_frame(&mut self, video_path: &str, time: i64, frame: Frame)
        requires
            old(self).wf(),
        ensures
            final(self).wf(),
            final(self).capacity() == old(self).capacity(),
            exists|reading: u64| final(self).clock() == next_stamp(old(self).clock(), reading),
            final(self)@ == stored(
                old(self)@,
                old(self).capacity(),
                video_path@,
                time as int,
                frame@,
                final(self).clock(),
            ),
    {
        let reading: u64 = self.timer.millis();
        let now: u64 = self.stamp_after(reading);
        self.add_frame_at(video_path, time, frame, now);
    }

    /// Empties the cache.
    pub fn clear_cache(&mut self)
        ensures
            final(self)@ == Seq::<CachedFrameView>::empty(),
            final(self).capacity() == old(self).capacity(),
            final(self).clock() == old(self).clock(),
            old(self).wf() ==> final(self).wf(),
    {
        self.entries.clear();
    }

    /// Kept for callers that ask for frames ahead of time: frames are
    /// decoded when they are needed, so this stores nothing.
    pub fn preload_frames(&mut self, video_path: &str, start_time: i64, end_time: i64, fps: u32)
        ensures
            *final(self) == *old(self),
    {
    }

    /// The number of entries, and the number of them that are still
    /// loading. Frames are stored whole, so no entry of a cache that is in
    /// order is loading.
    pub fn get_cache_stats(&self) -> (stats: (usize, usize))
        requires
            self.wf(),
        ensures
            stats.0 == self@.len(),
            stats.1 == self@.filter(|e: CachedFrameView| e.is_loading).len(),
            stats.1 == 0,
    {
        let total_frames: usize = self.entries.len();
        proof {
            let loading = self@.filter(|e: CachedFrameView| e.is_loading);
            if loading.len() > 0 {
                self@.lemma_filter_contains_rev(|e: CachedFrameView| e.is_loading, loading[0]);
            }
        }
        (total_frames, 0)
    }
}

impl Default for FrameCache {
    /// An empty cache of the default capacity.
    fn default() -> (cache: Self)
        ensures
            cache.wf(),
            cache@ == Seq::<CachedFrameView>::empty(),
            cache.capacity() == DEFAULT_CAPACITY,
            cache.clock() == 0,
    {
        FrameCache::new()
    }
}

/// What is stored is found. After a frame has been stored in a cache that
/// is in order, whatever the clock reading, a lookup at any time in the
/// same slot returns that frame.
pub proof fn lemma_add_then_get(
    cache: FrameCache,
    source: Seq<char>,
    put_time: i64,
    get_time: i64,
    frame: FrameView,
    now: u64,
)
    requires
        cache.wf(),
        quantize(put_time as int) == quantize(get_time as int),
    ensures
        lookup(
            stored(
                cache@,
                cache.capacity(),
                source,
                put_time as int,
                frame,
                later(cache.clock(), now),
            ),
            source,
            get_time as int,
        ) == Some(frame),
{
    let stamp = later(cache.clock(), now);
    lemma_stored_then_found(cache@, cache.capacity(), source, put_time, get_time, frame, stamp);
}

} // verus!
