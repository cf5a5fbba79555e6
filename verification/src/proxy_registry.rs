//! The registry of proxies: one record for each proxy that has been asked
//! for, from the request until the record is swept away.
//!
//! A record starts pending, with no progress. The worker and the reader of
//! the transcoder's diagnostic stream move its progress while the transcoder
//! runs. When the transcoder has ended, the record is either ready, with the
//! size of its file, or failed, and stays so.
//!
//! Progress is in thousandths, times are in milliseconds.

use crate::numeral::clamp_u64;
use crate::proxy_settings::ProxySettings;
use vstd::prelude::*;

verus! {

/// Progress of a proxy whose file is complete.
pub const PROGRESS_DONE: u32 = 1000;

/// Progress that is written when the worker takes up a job.
pub const PROGRESS_STARTED: u32 = 100;

/// The state of one proxy.
pub struct ProxyInfo {
    pub proxy_path: String,
    pub original_path: String,
    pub settings: ProxySettings,
    pub generation_progress: u32,
    pub is_ready: bool,
    pub file_size: u64,
    pub created_at: u64,
}

/// What a [`ProxyInfo`] holds, as plain values.
pub ghost struct ProxyInfoView {
    pub proxy_path: Seq<char>,
    pub original_path: Seq<char>,
    pub settings: ProxySettings,
    pub generation_progress: u32,
    pub is_ready: bool,
    pub file_size: u64,
    pub created_at: u64,
}

impl View for ProxyInfo {
    type V = ProxyInfoView;

    open spec fn view(&self) -> ProxyInfoView {
        ProxyInfoView {
            proxy_path: self.proxy_path@,
            original_path: self.original_path@,
            settings: self.settings,
            generation_progress: self.generation_progress,
            is_ready: self.is_ready,
            file_size: self.file_size,
            created_at: self.created_at,
        }
    }
}

impl Clone for ProxyInfo {
    fn clone(&self) -> (info: ProxyInfo)
        ensures
            info@ == self@,
    {
        ProxyInfo {
            proxy_path: self.proxy_path.clone(),
            original_path: self.original_path.clone(),
            settings: self.settings,
            generation_progress: self.generation_progress,
            is_ready: self.is_ready,
            file_size: self.file_size,
            created_at: self.created_at,
        }
    }
}

impl ProxyInfoView {
    /// The record with its progress set to `share`.
    pub open spec fn with_progress(self, share: u32) -> ProxyInfoView {
        ProxyInfoView { generation_progress: share, ..self }
    }

    /// The record after its transcoder has ended and left `size` bytes: ready
    /// and complete where there are any, failed and without progress where
    /// there are none.
    pub open spec fn finished(self, size: u64) -> ProxyInfoView {
        ProxyInfoView {
            is_ready: size > 0,
            generation_progress: if size > 0 {
                1000
            } else {
                0
            },
            file_size: size,
            ..self
        }
    }

    /// The record was made more than `max_age_hours` hours before `now`.
    pub open spec fn is_expired(self, max_age_hours: u64, now: u64) -> bool {
        self.created_at + max_age_hours * 3_600_000 < now
    }
}

/// The record of a proxy that has just been asked for.
pub open spec fn pending_info(
    proxy_path: Seq<char>,
    original_path: Seq<char>,
    settings: ProxySettings,
    now: u64,
) -> ProxyInfoView {
    ProxyInfoView {
        proxy_path,
        original_path,
        settings,
        generation_progress: 0,
        is_ready: false,
        file_size: 0,
        created_at: now,
    }
}

/// The bytes that count as the transcoder's output: the size of its file
/// where it ended well and the file is there, and nothing otherwise.
pub open spec fn output_bytes(exited_ok: bool, file_size: Option<u64>) -> u64 {
    match file_size {
        Some(size) => if exited_ok {
            size
        } else {
            0
        },
        None => 0,
    }
}

/// Tells whether a file can be a proxy: it must be there and hold at least
/// one byte. `file_size` is the size of the file where the file is there.
pub fn is_valid_proxy_file(file_size: Option<u64>) -> (valid: bool)
    ensures
        valid == (file_size matches Some(size) && size > 0),
{
    match file_size {
        Some(size) => size > 0,
        None => false,
    }
}

/// A record under its identifier.
pub struct ProxyRecord {
    pub id: String,
    pub info: ProxyInfo,
}

/// What a [`ProxyRecord`] holds, as plain values.
pub ghost struct ProxyRecordView {
    pub id: Seq<char>,
    pub info: ProxyInfoView,
}

impl View for ProxyRecord {
    type V = ProxyRecordView;

    open spec fn view(&self) -> ProxyRecordView {
        ProxyRecordView { id: self.id@, info: self.info@ }
    }
}

/// No two records of `s` have the same identifier.
pub open spec fn ids_distinct(s: Seq<ProxyRecordView>) -> bool {
    forall|i: int, j: int|
        0 <= i < s.len() && 0 <= j < s.len() && #[trigger] s[i].id == #[trigger] s[j].id ==> i == j
}

/// The record at index `i` of `s` is the one of `id`.
pub open spec fn id_at(s: Seq<ProxyRecordView>, id: Seq<char>, i: int) -> bool {
    0 <= i < s.len() && s[i].id == id
}

/// The index of the record of `id`, if there is one.
pub open spec fn id_index(s: Seq<ProxyRecordView>, id: Seq<char>) -> Option<int> {
    if exists|i: int| id_at(s, id, i) {
        Some(choose|i: int| id_at(s, id, i))
    } else {
        None
    }
}

/// The record of `id`, if there is one.
pub open spec fn record_of(s: Seq<ProxyRecordView>, id: Seq<char>) -> Option<ProxyInfoView> {
    match id_index(s, id) {
        Some(i) => Some(s[i].info),
        None => None,
    }
}

/// `s` after `info` has been registered under `id`: added at the end where
/// `id` has no record, and nothing changed where it has one.
pub open spec fn registered(s: Seq<ProxyRecordView>, id: Seq<char>, info: ProxyInfoView) -> Seq<
    ProxyRecordView,
> {
    match id_index(s, id) {
        Some(_) => s,
        None => s.push(ProxyRecordView { id, info }),
    }
}

/// `s` with the progress of `id` set to `share`; unchanged where `id` has no
/// record.
pub open spec fn progressed(s: Seq<ProxyRecordView>, id: Seq<char>, share: u32) -> Seq<
    ProxyRecordView,
> {
    match id_index(s, id) {
        Some(i) => s.update(i, ProxyRecordView { id, info: s[i].info.with_progress(share) }),
        None => s,
    }
}

/// `s` after the transcoder of `id` has ended and left `size` bytes;
/// unchanged where `id` has no record.
pub open spec fn completed(s: Seq<ProxyRecordView>, id: Seq<char>, size: u64) -> Seq<
    ProxyRecordView,
> {
    match id_index(s, id) {
        Some(i) => s.update(i, ProxyRecordView { id, info: s[i].info.finished(size) }),
        None => s,
    }
}

/// The records of `s` that a sweep at `now` keeps.
pub open spec fn swept(s: Seq<ProxyRecordView>, max_age_hours: u64, now: u64) -> Seq<
    ProxyRecordView,
> {
    s.filter(|r: ProxyRecordView| !r.info.is_expired(max_age_hours, now))
}

/// The files of the records of `s` that a sweep at `now` removes, in the
/// order of the records.
pub open spec fn expired_paths(s: Seq<ProxyRecordView>, max_age_hours: u64, now: u64) -> Seq<
    Seq<char>,
> {
    s.filter(|r: ProxyRecordView| r.info.is_expired(max_age_hours, now)).map_values(
        |r: ProxyRecordView| r.info.proxy_path,
    )
}

/// The number of records of `s` that are ready.
pub open spec fn ready_count(s: Seq<ProxyRecordView>) -> nat {
    s.filter(|r: ProxyRecordView| r.info.is_ready).len()
}

/// The sizes of the files of all records of `s` together.
pub open spec fn total_bytes(s: Seq<ProxyRecordView>) -> nat
    decreases s.len(),
{
    if s.len() == 0 {
        0
    } else {
        total_bytes(s.drop_last()) + s.last().info.file_size as nat
    }
}

/// A record with a given identifier is found at its index.
pub proof fn lemma_id_index_unique(s: Seq<ProxyRecordView>, id: Seq<char>, i: int)
    requires
        ids_distinct(s),
        id_at(s, id, i),
    ensures
        id_index(s, id) == Some(i),
{
}

/// Rewriting the state of the record at index `i` leaves every identifier
/// where it was.
pub proof fn lemma_rewrite_keeps_ids(s: Seq<ProxyRecordView>, i: int, info: ProxyInfoView)
    requires
        ids_distinct(s),
        0 <= i < s.len(),
    ensures
        ids_distinct(s.update(i, ProxyRecordView { id: s[i].id, info })),
        forall|id: Seq<char>| #[trigger]
            id_index(s.update(i, ProxyRecordView { id: s[i].id, info }), id) == id_index(s, id),
{
    let t = s.update(i, ProxyRecordView { id: s[i].id, info });
    assert forall|id: Seq<char>| #[trigger] id_index(t, id) == id_index(s, id) by {
        if exists|k: int| id_at(s, id, k) {
            let k = choose|k: int| id_at(s, id, k);
            lemma_id_index_unique(t, id, k);
        } else {
            if exists|k: int| id_at(t, id, k) {
                let k = choose|k: int| id_at(t, id, k);
                assert(id_at(s, id, k));
            }
        }
    }
}

/// After a registration under `id`, `id` has a record: the one it had, or
/// the new one where it had none. No other record changes, and the
/// identifiers stay distinct.
pub proof fn lemma_registered(s: Seq<ProxyRecordView>, id: Seq<char>, info: ProxyInfoView)
    requires
        ids_distinct(s),
    ensures
        ids_distinct(registered(s, id, info)),
        record_of(registered(s, id, info), id) == match record_of(s, id) {
            Some(known) => Some(known),
            None => Some(info),
        },
        forall|other: Seq<char>|
            other != id ==> #[trigger] record_of(registered(s, id, info), other) == record_of(
                s,
                other,
            ),
{
    let t = registered(s, id, info);
    if id_index(s, id) is None {
        let n = s.len() as int;
        assert forall|a: int, b: int|
            0 <= a < t.len() && 0 <= b < t.len() && #[trigger] t[a].id
                == #[trigger] t[b].id implies a == b by {
            if a < n && b >= n {
                assert(id_at(s, id, a));
            }
            if b < n && a >= n {
                assert(id_at(s, id, b));
            }
        }
        lemma_id_index_unique(t, id, n);
        assert forall|other: Seq<char>| other != id implies #[trigger] record_of(t, other)
            == record_of(s, other) by {
            if exists|k: int| id_at(s, other, k) {
                let k = choose|k: int| id_at(s, other, k);
                lemma_id_index_unique(t, other, k);
            } else {
                if exists|k: int| id_at(t, other, k) {
                    let k = choose|k: int| id_at(t, other, k);
                    assert(id_at(s, other, k));
                }
            }
        }
    }
}

/// After the progress of `id` has been set, the record of `id` holds the
/// new progress and is otherwise as it was. No other record changes, and the
/// identifiers stay distinct.
pub proof fn lemma_progressed(s: Seq<ProxyRecordView>, id: Seq<char>, share: u32)
    requires
        ids_distinct(s),
    ensures
        ids_distinct(progressed(s, id, share)),
        record_of(progressed(s, id, share), id) == match record_of(s, id) {
            Some(known) => Some(known.with_progress(share)),
            None => None,
        },
        forall|other: Seq<char>|
            other != id ==> #[trigger] record_of(progressed(s, id, share), other) == record_of(
                s,
                other,
            ),
{
    match id_index(s, id) {
        Some(i) => {
            lemma_rewrite_keeps_ids(s, i, s[i].info.with_progress(share));
        },
        None => {},
    }
}

/// After the transcoder of `id` has ended, the record of `id` is finished
/// with the bytes it left. No other record changes, and the identifiers stay
/// distinct.
pub proof fn lemma_completed(s: Seq<ProxyRecordView>, id: Seq<char>, size: u64)
    requires
        ids_distinct(s),
    ensures
        ids_distinct(completed(s, id, size)),
        record_of(completed(s, id, size), id) == match record_of(s, id) {
            Some(known) => Some(known.finished(size)),
            None => None,
        },
        forall|other: Seq<char>|
            other != id ==> #[trigger] record_of(completed(s, id, size), other) == record_of(
                s,
                other,
            ),
{
    match id_index(s, id) {
        Some(i) => {
            lemma_rewrite_keeps_ids(s, i, s[i].info.finished(size));
        },
        None => {},
    }
}

/// Every record that a sweep keeps was there before, and the identifiers
/// stay distinct.
pub proof fn lemma_swept_ids_distinct(s: Seq<ProxyRecordView>, max_age_hours: u64, now: u64)
    requires
        ids_distinct(s),
    ensures
        ids_distinct(swept(s, max_age_hours, now)),
        swept(s, max_age_hours, now).len() <= s.len(),
    decreases s.len(),
{
    reveal(Seq::filter);
    let keep = |r: ProxyRecordView| !r.info.is_expired(max_age_hours, now);
    if s.len() > 0 {
        let head = s.drop_last();
        lemma_swept_ids_distinct(head, max_age_hours, now);
        let sub = head.filter(keep);
        let t = s.filter(keep);
        if keep(s.last()) {
            assert forall|i: int, j: int|
                0 <= i < t.len() && 0 <= j < t.len() && #[trigger] t[i].id
                    == #[trigger] t[j].id implies i == j by {
                if i < sub.len() {
                    head.lemma_filter_contains_rev(keep, sub[i]);
                }
                if j < sub.len() {
                    head.lemma_filter_contains_rev(keep, sub[j]);
                }
            }
        }
    }
}

/// Two records are of the same proxy, made for the same source and
/// settings at the same time, and kept in the same file.
pub open spec fn same_origin(a: ProxyRecordView, b: ProxyRecordView) -> bool {
    &&& a.id == b.id
    &&& a.info.proxy_path == b.info.proxy_path
    &&& a.info.original_path == b.info.original_path
    &&& a.info.settings == b.info.settings
    &&& a.info.created_at == b.info.created_at
}

/// Setting the progress of a proxy leaves every record where it stands,
/// with its identifier, source, settings, file and time of making.
pub proof fn lemma_progressed_keeps_origin(s: Seq<ProxyRecordView>, id: Seq<char>, share: u32)
    ensures
        progressed(s, id, share).len() == s.len(),
        forall|i: int|
            0 <= i < s.len() ==> same_origin(#[trigger] progressed(s, id, share)[i], s[i]),
{
    if id_index(s, id) is Some {
        assert(id_at(s, id, id_index(s, id)->0));
    }
}

/// Recording the end of a transcoder leaves every record where it stands,
/// with its identifier, source, settings, file and time of making.
pub proof fn lemma_completed_keeps_origin(s: Seq<ProxyRecordView>, id: Seq<char>, size: u64)
    ensures
        completed(s, id, size).len() == s.len(),
        forall|i: int|
            0 <= i < s.len() ==> same_origin(#[trigger] completed(s, id, size)[i], s[i]),
{
    if id_index(s, id) is Some {
        assert(id_at(s, id, id_index(s, id)->0));
    }
}

/// Every record that a sweep keeps was there before the sweep.
pub proof fn lemma_swept_contained(s: Seq<ProxyRecordView>, max_age_hours: u64, now: u64)
    ensures
        forall|i: int|
            0 <= i < swept(s, max_age_hours, now).len() ==> s.contains(
                #[trigger] swept(s, max_age_hours, now)[i],
            ),
{
    let keep = |r: ProxyRecordView| !r.info.is_expired(max_age_hours, now);
    let t = swept(s, max_age_hours, now);
    assert forall|i: int| 0 <= i < t.len() implies s.contains(#[trigger] t[i]) by {
        assert(s.filter(keep).contains(t[i]));
        s.lemma_filter_contains_rev(keep, t[i]);
    }
}

/// What a sweep does to one proxy: its record is gone where it was made
/// more than the given age before the sweep, and is as it was otherwise.
pub proof fn lemma_swept_record(
    s: Seq<ProxyRecordView>,
    id: Seq<char>,
    max_age_hours: u64,
    now: u64,
)
    requires
        ids_distinct(s),
    ensures
        record_of(swept(s, max_age_hours, now), id) == match record_of(s, id) {
            Some(info) => if info.is_expired(max_age_hours, now) {
                None
            } else {
                Some(info)
            },
            None => None,
        },
{
    let keep = |r: ProxyRecordView| !r.info.is_expired(max_age_hours, now);
    let t = swept(s, max_age_hours, now);
    if exists|k: int| id_at(t, id, k) {
        let k = choose|k: int| id_at(t, id, k);
        s.lemma_filter_contains_rev(keep, t[k]);
        let j = choose|j: int| 0 <= j < s.len() && s[j] == t[k];
        lemma_id_index_unique(s, id, j);
    } else {
        if record_of(s, id) is Some {
            let j = id_index(s, id)->0;
            if keep(s[j]) {
                s.lemma_filter_contains(keep, j);
                let k = choose|k: int| 0 <= k < t.len() && t[k] == s[j];
                assert(id_at(t, id, k));
            }
        }
    }
}

/// The proxies that have been asked for, each under its identifier.
pub struct ProxyRegistry {
    records: Vec<ProxyRecord>,
}

impl View for ProxyRegistry {
    type V = Seq<ProxyRecordView>;

    closed spec fn view(&self) -> Seq<ProxyRecordView> {
        self.records@.map_values(|r: ProxyRecord| r@)
    }
}

impl ProxyRegistry {
    /// The registry is in order: no identifier has two records.
    pub open spec fn wf(&self) -> bool {
        ids_distinct(self@)
    }

    /// A registry without records.
    pub fn new() -> (registry: Self)
        ensures
            registry.wf(),
            registry@ == Seq::<ProxyRecordView>::empty(),
    {
        let registry = ProxyRegistry { records: Vec::new() };
        registry
    }

    /// Finds the record of `id`.
    fn position(&self, id: &String) -> (r: Option<usize>)
        requires
            self.wf(),
        ensures
            match r {
                Some(i) => id_index(self@, id@) == Some(i as int) && i < self.records@.len(),
                None => id_index(self@, id@) is None,
            },
    {
        let n: usize = self.records.len();
        let mut i: usize = 0;
        while i < n
            invariant
                n == self.records@.len(),
                i <= n,
                self.wf(),
                forall|j: int| 0 <= j < i ==> !id_at(self@, id@, j),
            decreases n - i,
        {
            if self.records[i].id == *id {
                proof {
                    lemma_id_index_unique(self@, id@, i as int);
                }
                return Some(i);
            }
            i += 1;
        }
        None
    }

    /// Tells whether `id` has a record.
    pub fn contains(&self, id: &str) -> (found: bool)
        requires
            self.wf(),
        ensures
            found == (record_of(self@, id@) is Some),
    {
        let key: String = id.to_owned();
        self.position(&key).is_some()
    }

    /// Returns a copy of the record of `id`.
    pub fn get(&self, id: &str) -> (info: Option<ProxyInfo>)
        requires
            self.wf(),
        ensures
            match info {
                Some(found) => record_of(self@, id@) == Some(found@),
                None => record_of(self@, id@) is None,
            },
    {
        let key: String = id.to_owned();
        match self.position(&key) {
            Some(i) => Some(self.records[i].info.clone()),
            None => None,
        }
    }

    /// Registers `info` under `id` unless `id` has a record already.
    /// Returns whether the record was added.
    pub fn register(&mut self, id: &str, info: ProxyInfo) -> (added: bool)
        requires
            old(self).wf(),
        ensures
            final(self).wf(),
            final(self)@ == registered(old(self)@, id@, info@),
            added == (record_of(old(self)@, id@) is None),
    {
        let key: String = id.to_owned();
        match self.position(&key) {
            Some(_) => false,
            None => {
                let ghost before = self@;
                let ghost fresh = ProxyRecordView { id: id@, info: info@ };
                self.records.push(ProxyRecord { id: key, info });
                proof {
                    assert(self@ =~= before.push(fresh));
                    assert forall|i: int, j: int|
                        0 <= i < self@.len() && 0 <= j < self@.len() && #[trigger] self@[i].id
                            == #[trigger] self@[j].id implies i == j by {
                        if i < before.len() && j >= before.len() {
                            assert(id_at(before, id@, i));
                        }
                        if j < before.len() && i >= before.len() {
                            assert(id_at(before, id@, j));
                        }
                    }
                }
                true
            },
        }
    }

    /// Sets the progress of `id` to `share` thousandths. Nothing changes
    /// where `id` has no record.
    pub fn set_progress(&mut self, id: &str, share: u32)
        requires
            old(self).wf(),
        ensures
            final(self).wf(),
            final(self)@ == progressed(old(self)@, id@, share),
    {
        let key: String = id.to_owned();
        match self.position(&key) {
            Some(i) => {
                let ghost before = self@;
                self.records[i].info.generation_progress = share;
                proof {
                    assert(self@ =~= before.update(
                        i as int,
                        ProxyRecordView { id: id@, info: before[i as int].info.with_progress(share) },
                    ));
                }
            },
            None => {},
        }
    }

    /// Records the end of the transcoder of `id`. `exited_ok` tells whether
    /// it ended well, and `file_size` is the size of its output file where
    /// the file is there. The record becomes ready and complete where the
    /// transcoder ended well and its file holds at least one byte, and
    /// failed otherwise. Nothing changes where `id` has no record.
    pub fn finish(&mut self, id: &str, exited_ok: bool, file_size: Option<u64>)
        requires
            old(self).wf(),
        ensures
            final(self).wf(),
            final(self)@ == completed(old(self)@, id@, output_bytes(exited_ok, file_size)),
    {
        let size: u64 = match file_size {
            Some(size) => if exited_ok {
                size
            } else {
                0
            },
            None => 0,
        };
        let key: String = id.to_owned();
        match self.position(&key) {
            Some(i) => {
                let ghost before = self@;
                self.records[i].info.is_ready = size > 0;
                self.records[i].info.generation_progress = if size > 0 {
                    PROGRESS_DONE
                } else {
                    0
                };
                self.records[i].info.file_size = size;
                proof {
                    assert(self@ =~= before.update(
                        i as int,
                        ProxyRecordView { id: id@, info: before[i as int].info.finished(size) },
                    ));
                }
            },
            None => {},
        }
    }

    /// Tells whether `info` was made more than `max_age_hours` hours before
    /// `now`.
    fn expired(info: &ProxyInfo, max_age_hours: u64, now: u64) -> (r: bool)
        ensures
            r == info@.is_expired(max_age_hours, now),
    {
        let limit: u128 = (info.created_at as u128) + (max_age_hours as u128) * 3_600_000;
        limit < now as u128
    }

    /// Lists the files of the records that a sweep at `now` would remove.
    pub fn expired_files(&self, max_age_hours: u64, now: u64) -> (files: Vec<String>)
        ensures
            files.deep_view() == expired_paths(self@, max_age_hours, now),
    {
        let ghost old_enough = |r: ProxyRecordView| r.info.is_expired(max_age_hours, now);
        let ghost path = |r: ProxyRecordView| r.info.proxy_path;
        let mut files: Vec<String> = Vec::new();
        let n: usize = self.records.len();
        let mut i: usize = 0;
        while i < n
            invariant
                n == self.records@.len(),
                i <= n,
                old_enough == |r: ProxyRecordView| r.info.is_expired(max_age_hours, now),
                path == |r: ProxyRecordView| r.info.proxy_path,
                files.deep_view() == self@.take(i as int).filter(old_enough).map_values(path),
            decreases n - i,
        {
            let ghost before = files.deep_view();
            if Self::expired(&self.records[i].info, max_age_hours, now) {
                files.push(self.records[i].info.proxy_path.clone());
            }
            proof {
                reveal(Seq::filter);
                let next = self@.take(i + 1);
                assert(next.drop_last() =~= self@.take(i as int));
                if old_enough(self@[i as int]) {
                    assert(files.deep_view() =~= before.push(self@[i as int].info.proxy_path));
                }
            }
            i += 1;
        }
        proof {
            assert(self@.take(n as int) =~= self@);
        }
        files
    }

    /// Removes every record that was made more than `max_age_hours` hours
    /// before `now`, and returns the files of the records removed, in the
    /// order of the records.
    pub fn sweep(&mut self, max_age_hours: u64, now: u64) -> (files: Vec<String>)
        requires
            old(self).wf(),
        ensures
            final(self).wf(),
            final(self)@ == swept(old(self)@, max_age_hours, now),
            files.deep_view() == expired_paths(old(self)@, max_age_hours, now),
    {
        let files: Vec<String> = self.expired_files(max_age_hours, now);
        let ghost keep = |r: ProxyRecordView| !r.info.is_expired(max_age_hours, now);
        let ghost all = self@;
        let mut i: usize = 0;
        let mut seen: usize = 0;
        let total: usize = self.records.len();
        while seen < total
            invariant
                total == all.len(),
                i <= seen <= total,
                keep == |r: ProxyRecordView| !r.info.is_expired(max_age_hours, now),
                self.records@.len() == i + (total - seen),
                self@.take(i as int) == all.take(seen as int).filter(keep),
                self@.skip(i as int) == all.skip(seen as int),
            decreases total - seen,
        {
            let ghost before = self@;
            proof {
                reveal(Seq::filter);
                assert(before[i as int] == before.skip(i as int)[0]);
                let next = all.take(seen + 1);
                assert(next.drop_last() =~= all.take(seen as int));
            }
            if Self::expired(&self.records[i].info, max_age_hours, now) {
                self.records.remove(i);
                proof {
                    assert(self@.skip(i as int) =~= before.skip(i as int).drop_first());
                }
            } else {
                proof {
                    assert(before.skip(i + 1) =~= before.skip(i as int).drop_first());
                }
                i += 1;
            }
            seen += 1;
        }
        proof {
            assert(all.take(total as int) =~= all);
            assert(self@.take(i as int) =~= self@);
            lemma_swept_ids_distinct(all, max_age_hours, now);
        }
        files
    }

    /// The number of records, the number of them that are ready, and the
    /// sizes of all their files together, held at the largest `u64`.
    pub fn stats(&self) -> (stats: (usize, usize, u64))
        ensures
            stats.0 == self@.len(),
            stats.1 == ready_count(self@),
            stats.2 == clamp_u64(total_bytes(self@)),
    {
        let ghost ready = |r: ProxyRecordView| r.info.is_ready;
        let n: usize = self.records.len();
        let mut ready_proxies: usize = 0;
        let mut total_size: u64 = 0;
        let mut i: usize = 0;
        while i < n
            invariant
                n == self.records@.len(),
                i <= n,
                ready == |r: ProxyRecordView| r.info.is_ready,
                ready_proxies == self@.take(i as int).filter(ready).len(),
                ready_proxies <= i,
                total_size == clamp_u64(total_bytes(self@.take(i as int))),
            decreases n - i,
        {
            proof {
                reveal(Seq::filter);
                let next = self@.take(i + 1);
                assert(next.drop_last() =~= self@.take(i as int));
            }
            if self.records[i].info.is_ready {
                ready_proxies += 1;
            }
            let wide: u128 = (total_size as u128) + (self.records[i].info.file_size as u128);
            total_size = if wide > u64::MAX as u128 {
                u64::MAX
            } else {
                wide as u64
            };
            i += 1;
        }
        proof {
            assert(self@.take(n as int) =~= self@);
        }
        (n, ready_proxies, total_size)
    }
}

} // verus!
