//! The proxy generator: requests, the worker's steps, and queries.
//!
//! A request for a proxy is answered at once. It puts a job into the queue
//! and a pending record into the registry, unless the proxy has a record
//! already, in which case nothing happens. A worker takes the jobs out of
//! the queue one at a time, starts the transcoder for each and writes the
//! outcome into the registry, where callers look for it.
//!
//! Nothing here waits, starts a process or touches a file. The caller hands
//! in the answer of the probe for the transcoder, the lines of its
//! diagnostic stream, the way it ended and what is on disk. Functions that
//! need the time come in two forms: one that is handed the reading of a
//! monotonic clock, and one that reads the generator's own clock. Whatever
//! the readings, the generator never lets its own time run backwards: a
//! reading that lies before the latest one counts as the latest one.

use crate::clock::Clock;
use crate::fingerprint::{generate_proxy_id, generate_proxy_path, proxy_id, proxy_path};
use crate::frame_cache::later;
use crate::proxy_queue::{
    by_priority,
    enqueued,
    lemma_enqueued_by_priority,
    ProxyQueue,
    ProxyRequest,
    ProxyRequestView,
};
use crate::proxy_registry::{
    completed,
    expired_paths,
    id_at,
    id_index,
    ids_distinct,
    lemma_completed,
    lemma_completed_keeps_origin,
    lemma_progressed,
    lemma_progressed_keeps_origin,
    lemma_registered,
    lemma_swept_contained,
    output_bytes,
    pending_info,
    progressed,
    ready_count,
    record_of,
    registered,
    swept,
    total_bytes,
    ProxyInfo,
    ProxyInfoView,
    ProxyRecordView,
    ProxyRegistry,
    PROGRESS_STARTED,
};
use crate::numeral::clamp_u64;
use crate::proxy_settings::ProxySettings;
use crate::transcode::{build_transcode_args, transcode_args};
use vstd::prelude::*;

verus! {

/// Milliseconds that the worker rests when it finds the queue empty.
pub const IDLE_MILLIS: u64 = 100;

/// What the worker does next.
pub enum WorkerAction {
    /// Leave the loop: the generator is shutting down.
    Stop,
    /// Rest for so many milliseconds, then look again.
    Idle(u64),
    /// Make the proxy that this request asks for.
    Transcode(ProxyRequest),
}

/// One run of the transcoder.
pub struct TranscodeJob {
    /// The identifier of the proxy that is made.
    pub id: String,
    /// The file that is read.
    pub input: String,
    /// The file that is written, whose directory must exist.
    pub output: String,
    /// The arguments that the transcoder is started with.
    pub args: Vec<String>,
}

/// The file that the worker writes for `id`: the one that the record names,
/// or no name at all where `id` has no record.
pub open spec fn job_output(registry: Seq<ProxyRecordView>, id: Seq<char>) -> Seq<char> {
    match record_of(registry, id) {
        Some(info) => info.proxy_path,
        None => Seq::empty(),
    }
}

/// Decides what the worker does next. It stops when it is no longer meant
/// to run. Otherwise it takes the most urgent request out of the queue, or
/// rests where the queue is empty.
pub fn next_action(running: bool, queue: &mut ProxyQueue) -> (action: WorkerAction)
    requires
        old(queue).wf(),
    ensures
        final(queue).wf(),
        match action {
            WorkerAction::Stop => !running && final(queue)@ == old(queue)@,
            WorkerAction::Idle(millis) => running && old(queue)@.len() == 0 && millis == IDLE_MILLIS
                && final(queue)@ == old(queue)@,
            WorkerAction::Transcode(request) => running && old(queue)@.len() > 0 && request@
                == old(queue)@[0] && final(queue)@ == old(queue)@.drop_first(),
        },
{
    if !running {
        return WorkerAction::Stop;
    }
    match queue.pop_next() {
        Some(request) => WorkerAction::Transcode(request),
        None => WorkerAction::Idle(IDLE_MILLIS),
    }
}

/// Takes up the job of `request`. Where the transcoder is not there, the job
/// is given up and the registry stays as it is. Otherwise the record of the
/// proxy is marked as started, and the run of the transcoder is returned.
pub fn begin_job(registry: &mut ProxyRegistry, request: &ProxyRequest, tool_available: bool) -> (job:
    Option<TranscodeJob>)
    requires
        old(registry).wf(),
    ensures
        final(registry).wf(),
        match job {
            Some(run) => {
                let id = proxy_id(request@.video_path, request@.proxy_settings);
                &&& tool_available
                &&& final(registry)@ == progressed(old(registry)@, id, PROGRESS_STARTED)
                &&& run.id@ == id
                &&& run.input@ == request@.video_path
                &&& run.output@ == job_output(old(registry)@, id)
                &&& run.args.deep_view() == transcode_args(
                    run.input@,
                    run.output@,
                    request@.proxy_settings,
                )
            },
            None => !tool_available && final(registry)@ == old(registry)@,
        },
{
    if !tool_available {
        return None;
    }
    let id: String = generate_proxy_id(request.video_path.as_str(), &request.proxy_settings);
    let output: String = match registry.get(id.as_str()) {
        Some(info) => info.proxy_path,
        None => String::new(),
    };
    registry.set_progress(id.as_str(), PROGRESS_STARTED);
    let input: String = request.video_path.clone();
    let args: Vec<String> = build_transcode_args(
        input.as_str(),
        output.as_str(),
        &request.proxy_settings,
    );
    Some(TranscodeJob { id, input, output, args })
}

/// Takes in a request for the proxy of `video_path` with `settings`, to be
/// kept under `cache_dir`, at the stamp `now`. Where the proxy has a record,
/// whatever its state, nothing happens and no job is returned. Otherwise a
/// pending record is registered, and the job to put into the queue is
/// returned. The record is there before the job can be seen by a worker.
pub fn admit_request(
    registry: &mut ProxyRegistry,
    cache_dir: &str,
    video_path: &str,
    settings: ProxySettings,
    priority: i32,
    now: u64,
) -> (job: Option<ProxyRequest>)
    requires
        old(registry).wf(),
    ensures
        final(registry).wf(),
        final(registry)@ == registered(
            old(registry)@,
            proxy_id(video_path@, settings),
            pending_info(proxy_path(cache_dir@, video_path@, settings), video_path@, settings, now),
        ),
        job is Some <==> record_of(old(registry)@, proxy_id(video_path@, settings)) is None,
        job matches Some(request) ==> request@ == (ProxyRequestView {
            video_path: video_path@,
            proxy_settings: settings,
            priority,
        }),
{
    let id: String = generate_proxy_id(video_path, &settings);
    let info = ProxyInfo {
        proxy_path: generate_proxy_path(cache_dir, video_path, &settings),
        original_path: video_path.to_owned(),
        settings,
        generation_progress: 0,
        is_ready: false,
        file_size: 0,
        created_at: now,
    };
    if registry.register(id.as_str(), info) {
        Some(ProxyRequest { video_path: video_path.to_owned(), proxy_settings: settings, priority })
    } else {
        None
    }
}

/// Gives the file of the proxy of `video_path` with `settings` under
/// `cache_dir` where the proxy can be used: it must be marked ready, and
/// its file must be on disk. `on_disk` tells whether the file at
/// [`generate_proxy_path`] exists.
pub fn usable_proxy_path(
    registry: &ProxyRegistry,
    cache_dir: &str,
    video_path: &str,
    settings: &ProxySettings,
    on_disk: bool,
) -> (path: Option<String>)
    requires
        registry.wf(),
    ensures
        path is Some <==> (record_of(registry@, proxy_id(video_path@, *settings)) matches Some(r)
            && r.is_ready && on_disk),
        path matches Some(file) ==> file@ == proxy_path(cache_dir@, video_path@, *settings),
{
    let id: String = generate_proxy_id(video_path, settings);
    let ready: bool = match registry.get(id.as_str()) {
        Some(info) => info.is_ready,
        None => false,
    };
    if ready && on_disk {
        Some(generate_proxy_path(cache_dir, video_path, settings))
    } else {
        None
    }
}

/// The record is the one that a request for its source and settings makes
/// in the cache directory `cache_dir`: it stands under the identifier of its
/// source and settings, and its file is the one computed from them.
pub open spec fn record_in_place(cache_dir: Seq<char>, r: ProxyRecordView) -> bool {
    &&& r.id == proxy_id(r.info.original_path, r.info.settings)
    &&& r.info.proxy_path == proxy_path(cache_dir, r.info.original_path, r.info.settings)
}

/// Every record of `registry` is the one that a request for its source and
/// settings makes in `cache_dir`.
pub open spec fn records_in_place(cache_dir: Seq<char>, registry: Seq<ProxyRecordView>) -> bool {
    forall|i: int| 0 <= i < registry.len() ==> record_in_place(cache_dir, #[trigger] registry[i])
}

/// No record of `registry` was made after the clock read `clock`.
pub open spec fn made_by(registry: Seq<ProxyRecordView>, clock: u64) -> bool {
    forall|i: int| 0 <= i < registry.len() ==> (#[trigger] registry[i]).info.created_at <= clock
}

/// The requests and records of a generator, as plain values.
pub ghost struct ProxyGeneratorView {
    pub cache_dir: Seq<char>,
    pub queue: Seq<ProxyRequestView>,
    pub registry: Seq<ProxyRecordView>,
}

impl ProxyGeneratorView {
    /// The state after a request for the proxy of `path` with `settings` at
    /// the clock reading `now`. Where the proxy has a record, nothing
    /// changes. Otherwise a job joins the queue and a pending record joins
    /// the registry.
    pub open spec fn requested(
        self,
        path: Seq<char>,
        settings: ProxySettings,
        priority: i32,
        now: u64,
    ) -> ProxyGeneratorView {
        let id = proxy_id(path, settings);
        if record_of(self.registry, id) is Some {
            self
        } else {
            ProxyGeneratorView {
                cache_dir: self.cache_dir,
                queue: enqueued(
                    self.queue,
                    ProxyRequestView { video_path: path, proxy_settings: settings, priority },
                ),
                registry: registered(
                    self.registry,
                    id,
                    pending_info(proxy_path(self.cache_dir, path, settings), path, settings, now),
                ),
            }
        }
    }

    /// The record of the proxy of `path` with `settings`.
    pub open spec fn info(self, path: Seq<char>, settings: ProxySettings) -> Option<ProxyInfoView> {
        record_of(self.registry, proxy_id(path, settings))
    }

    /// Whether the proxy of `path` with `settings` is ready.
    pub open spec fn ready(self, path: Seq<char>, settings: ProxySettings) -> bool {
        match self.info(path, settings) {
            Some(info) => info.is_ready,
            None => false,
        }
    }

    /// The file of the proxy of `path` with `settings`, where the proxy is
    /// ready and its file is still on disk.
    pub open spec fn usable_path(
        self,
        path: Seq<char>,
        settings: ProxySettings,
        on_disk: bool,
    ) -> Option<Seq<char>> {
        if self.ready(path, settings) && on_disk {
            Some(proxy_path(self.cache_dir, path, settings))
        } else {
            None
        }
    }

    /// The state after the transcoder of the proxy of `path` with
    /// `settings` has ended.
    pub open spec fn finished(
        self,
        path: Seq<char>,
        settings: ProxySettings,
        exited_ok: bool,
        file_size: Option<u64>,
    ) -> ProxyGeneratorView {
        ProxyGeneratorView {
            registry: completed(
                self.registry,
                proxy_id(path, settings),
                output_bytes(exited_ok, file_size),
            ),
            ..self
        }
    }

    /// The state after a sweep at the clock reading `now`: the record of
    /// every proxy that was asked for more than `max_age_hours` hours before
    /// is gone.
    pub open spec fn cleaned(self, max_age_hours: u64, now: u64) -> ProxyGeneratorView {
        ProxyGeneratorView { registry: swept(self.registry, max_age_hours, now), ..self }
    }

    /// The state is in order: the queue is ordered by priority, no proxy
    /// has two records, and every record stands under the identifier of its
    /// own source and settings and names the file computed from them.
    pub open spec fn wf(self) -> bool {
        &&& by_priority(self.queue)
        &&& ids_distinct(self.registry)
        &&& records_in_place(self.cache_dir, self.registry)
    }
}

/// A request leaves every record in its place.
proof fn lemma_requested_in_place(
    g: ProxyGeneratorView,
    path: Seq<char>,
    settings: ProxySettings,
    priority: i32,
    now: u64,
)
    requires
        records_in_place(g.cache_dir, g.registry),
    ensures
        records_in_place(g.cache_dir, g.requested(path, settings, priority, now).registry),
        forall|clock: u64|
            made_by(g.registry, clock) && now <= clock ==> made_by(
                #[trigger] g.requested(path, settings, priority, now).registry,
                clock,
            ),
{
    let after = g.requested(path, settings, priority, now).registry;
    assert forall|i: int| 0 <= i < after.len() implies record_in_place(
        g.cache_dir,
        #[trigger] after[i],
    ) by {
        if i < g.registry.len() {
            assert(after[i] == g.registry[i]);
        }
    }
    assert forall|clock: u64| made_by(g.registry, clock) && now <= clock implies made_by(
        #[trigger] g.requested(path, settings, priority, now).registry,
        clock,
    ) by {
        assert forall|i: int| 0 <= i < after.len() implies (#[trigger] after[i]).info.created_at
            <= clock by {
            if i < g.registry.len() {
                assert(after[i] == g.registry[i]);
            }
        }
    }
}

/// Setting the progress of a proxy leaves every record in its place.
proof fn lemma_progressed_in_place(
    cache_dir: Seq<char>,
    registry: Seq<ProxyRecordView>,
    id: Seq<char>,
    share: u32,
    clock: u64,
)
    requires
        records_in_place(cache_dir, registry),
        made_by(registry, clock),
    ensures
        records_in_place(cache_dir, progressed(registry, id, share)),
        made_by(progressed(registry, id, share), clock),
{
    lemma_progressed_keeps_origin(registry, id, share);
    let after = progressed(registry, id, share);
    assert forall|i: int| 0 <= i < after.len() implies record_in_place(
        cache_dir,
        #[trigger] after[i],
    ) && after[i].info.created_at <= clock by {
        assert(record_in_place(cache_dir, registry[i]));
        assert(registry[i].info.created_at <= clock);
    }
}

/// Recording the end of a transcoder leaves every record in its place.
proof fn lemma_completed_in_place(
    cache_dir: Seq<char>,
    registry: Seq<ProxyRecordView>,
    id: Seq<char>,
    size: u64,
    clock: u64,
)
    requires
        records_in_place(cache_dir, registry),
        made_by(registry, clock),
    ensures
        records_in_place(cache_dir, completed(registry, id, size)),
        made_by(completed(registry, id, size), clock),
{
    lemma_completed_keeps_origin(registry, id, size);
    let after = completed(registry, id, size);
    assert forall|i: int| 0 <= i < after.len() implies record_in_place(
        cache_dir,
        #[trigger] after[i],
    ) && after[i].info.created_at <= clock by {
        assert(record_in_place(cache_dir, registry[i]));
        assert(registry[i].info.created_at <= clock);
    }
}

/// A sweep leaves every record that it keeps in its place.
proof fn lemma_swept_in_place(
    cache_dir: Seq<char>,
    registry: Seq<ProxyRecordView>,
    max_age_hours: u64,
    now: u64,
    clock: u64,
)
    requires
        records_in_place(cache_dir, registry),
        made_by(registry, clock),
    ensures
        records_in_place(cache_dir, swept(registry, max_age_hours, now)),
        made_by(swept(registry, max_age_hours, now), clock),
{
    lemma_swept_contained(registry, max_age_hours, now);
    let after = swept(registry, max_age_hours, now);
    assert forall|i: int| 0 <= i < after.len() implies record_in_place(
        cache_dir,
        #[trigger] after[i],
    ) && after[i].info.created_at <= clock by {
        assert(registry.contains(after[i]));
        let k = choose|k: int| 0 <= k < registry.len() && registry[k] == after[i];
        assert(record_in_place(cache_dir, registry[k]));
        assert(registry[k].info.created_at <= clock);
    }
}

/// The path that is given out is the record's own. Where a proxy has a
/// record, and the record was made for the frame rate that is asked for, the
/// file computed from the source and the settings asked for is the file that
/// the record names.
pub proof fn lemma_usable_path_is_the_records(
    g: ProxyGeneratorView,
    path: Seq<char>,
    settings: ProxySettings,
)
    requires
        g.wf(),
        g.info(path, settings) matches Some(info) && info.settings.whole_frame_rate()
            == settings.whole_frame_rate(),
    ensures
        g.info(path, settings) matches Some(info) && proxy_path(g.cache_dir, path, settings)
            == info.proxy_path,
{
    let id = proxy_id(path, settings);
    let i = id_index(g.registry, id)->0;
    assert(id_at(g.registry, id, i));
    assert(record_in_place(g.cache_dir, g.registry[i]));
}

/// Asking twice is asking once. After a request the proxy has exactly one
/// record, the queue has grown by one job at most, and the same request
/// made again, with whatever priority and at whatever time, changes nothing.
pub proof fn lemma_request_idempotent(
    g: ProxyGeneratorView,
    path: Seq<char>,
    settings: ProxySettings,
    priority: i32,
    now: u64,
    later_priority: i32,
    later_now: u64,
)
    requires
        g.wf(),
    ensures
        g.requested(path, settings, priority, now).wf(),
        g.requested(path, settings, priority, now).requested(
            path,
            settings,
            later_priority,
            later_now,
        ) == g.requested(path, settings, priority, now),
        exists|i: int|
            id_at(
                g.requested(path, settings, priority, now).registry,
                proxy_id(path, settings),
                i,
            ) && forall|j: int|
                id_at(
                    g.requested(path, settings, priority, now).registry,
                    proxy_id(path, settings),
                    j,
                ) ==> j == i,
        g.requested(path, settings, priority, now).queue.len() <= g.queue.len() + 1,
{
    let id = proxy_id(path, settings);
    let info = pending_info(proxy_path(g.cache_dir, path, settings), path, settings, now);
    lemma_registered(g.registry, id, info);
    lemma_requested_in_place(g, path, settings, priority, now);
    if record_of(g.registry, id) is None {
        lemma_enqueued_by_priority(
            g.queue,
            ProxyRequestView { video_path: path, proxy_settings: settings, priority },
        );
    }
}

/// The life of a proxy. A proxy that is asked for and has no record yet is
/// pending, without progress and not ready. Progress that is written while
/// the transcoder runs does not make it ready. Once the transcoder has ended
/// well and left a file that holds at least one byte, the proxy is ready and
/// complete, with the size of its file. From then on its path is given out
/// as long as the file is on disk, and not once the file has gone, though
/// the proxy stays marked as ready.
pub proof fn lemma_proxy_lifecycle(
    g: ProxyGeneratorView,
    path: Seq<char>,
    settings: ProxySettings,
    priority: i32,
    now: u64,
    share: u32,
    file_size: u64,
)
    requires
        g.wf(),
        g.info(path, settings) is None,
        file_size > 0,
    ensures
        ({
            let asked = g.requested(path, settings, priority, now);
            let running = ProxyGeneratorView {
                registry: progressed(asked.registry, proxy_id(path, settings), share),
                ..asked
            };
            let done = running.finished(path, settings, true, Some(file_size));
            &&& asked.info(path, settings) == Some(
                pending_info(proxy_path(g.cache_dir, path, settings), path, settings, now),
            )
            &&& !asked.ready(path, settings)
            &&& !running.ready(path, settings)
            &&& running.usable_path(path, settings, true) is None
            &&& done.info(path, settings) == Some(
                pending_info(
                    proxy_path(g.cache_dir, path, settings),
                    path,
                    settings,
                    now,
                ).finished(file_size),
            )
            &&& done.ready(path, settings)
            &&& done.usable_path(path, settings, true) == Some(
                proxy_path(g.cache_dir, path, settings),
            )
            &&& done.info(path, settings) matches Some(record) && done.usable_path(
                path,
                settings,
                true,
            ) == Some(record.proxy_path)
            &&& done.usable_path(path, settings, false) is None
        }),
{
    let id = proxy_id(path, settings);
    let info = pending_info(proxy_path(g.cache_dir, path, settings), path, settings, now);
    let asked = g.requested(path, settings, priority, now);
    lemma_registered(g.registry, id, info);
    lemma_progressed(asked.registry, id, share);
    let running = ProxyGeneratorView { registry: progressed(asked.registry, id, share), ..asked };
    lemma_completed(running.registry, id, file_size);
}

/// A transcoder that ends badly, or leaves no file or an empty one, leaves
/// its proxy failed: not ready, without progress and without size.
pub proof fn lemma_failed_job(
    g: ProxyGeneratorView,
    path: Seq<char>,
    settings: ProxySettings,
    exited_ok: bool,
    file_size: Option<u64>,
)
    requires
        g.wf(),
        g.info(path, settings) is Some,
        !exited_ok || file_size is None || file_size == Some(0u64),
    ensures
        !g.finished(path, settings, exited_ok, file_size).ready(path, settings),
        g.finished(path, settings, exited_ok, file_size).info(path, settings) matches Some(info)
            && info.generation_progress == 0 && info.file_size == 0,
{
    lemma_completed(g.registry, proxy_id(path, settings), output_bytes(exited_ok, file_size));
}

/// Requests, records and the directory in which the proxies are kept.
pub struct ProxyGenerator {
    proxy_cache_dir: String,
    generation_queue: ProxyQueue,
    proxy_registry: ProxyRegistry,
    clock: u64,
    timer: Clock,
}

impl View for ProxyGenerator {
    type V = ProxyGeneratorView;

    closed spec fn view(&self) -> ProxyGeneratorView {
        ProxyGeneratorView {
            cache_dir: self.proxy_cache_dir@,
            queue: self.generation_queue@,
            registry: self.proxy_registry@,
        }
    }
}

impl ProxyGenerator {
    /// The latest clock reading that the generator has been handed.
    pub closed spec fn clock(&self) -> u64 {
        self.clock
    }

    /// The generator is in order: its state is in order, and no record was
    /// made after the latest clock reading that the generator has seen.
    pub open spec fn wf(&self) -> bool {
        self@.wf() && made_by(self@.registry, self.clock())
    }

    /// A generator without requests or records that keeps its proxies in
    /// `cache_dir`.
    pub fn new(cache_dir: String) -> (generator: Self)
        ensures
            generator.wf(),
            generator@ == (ProxyGeneratorView {
                cache_dir: cache_dir@,
                queue: Seq::empty(),
                registry: Seq::empty(),
            }),
            generator.clock() == 0,
    {
        ProxyGenerator {
            proxy_cache_dir: cache_dir,
            generation_queue: ProxyQueue::new(),
            proxy_registry: ProxyRegistry::new(),
            clock: 0,
            timer: Clock::start(),
        }
    }

    /// Asks for the proxy of `video_path` with `settings`, at the clock
    /// reading `now`. A proxy that has a record, whatever its state, is not
    /// asked for again. A new record is stamped with the later of `now` and
    /// the latest reading that the generator has seen.
    pub fn request_proxy_at(
        &mut self,
        video_path: &str,
        settings: ProxySettings,
        priority: i32,
        now: u64,
    )
        requires
            old(self).wf(),
        ensures
            final(self).wf(),
            final(self).clock() == later(old(self).clock(), now),
            final(self)@ == old(self)@.requested(
                video_path@,
                settings,
                priority,
                later(old(self).clock(), now),
            ),
    {
        if now > self.clock {
            self.clock = now;
        }
        let now: u64 = self.clock;
        proof {
            lemma_requested_in_place(old(self)@, video_path@, settings, priority, now);
        }
        match admit_request(
            &mut self.proxy_registry,
            self.proxy_cache_dir.as_str(),
            video_path,
            settings,
            priority,
            now,
        ) {
            Some(request) => {
                self.generation_queue.enqueue(request);
            },
            None => {},
        }
    }

    /// Asks for the proxy of `video_path` with `settings`, as
    /// [`Self::request_proxy_at`] does at the reading of the generator's own
    /// clock.
    pub fn request_proxy(&mut self, video_path: &str, settings: ProxySettings, priority: i32)
        requires
            old(self).wf(),
        ensures
            final(self).wf(),
            final(self).clock() >= old(self).clock(),
            final(self)@ == old(self)@.requested(
                video_path@,
                settings,
                priority,
                final(self).clock(),
            ),
    {
        let now: u64 = self.timer.millis();
        self.request_proxy_at(video_path, settings, priority, now);
    }

    /// Returns a copy of the record of the proxy of `video_path` with
    /// `settings`.
    pub fn get_proxy_info(&self, video_path: &str, settings: &ProxySettings) -> (info: Option<
        ProxyInfo,
    >)
        requires
            self.wf(),
        ensures
            match info {
                Some(found) => self@.info(video_path@, *settings) == Some(found@),
                None => self@.info(video_path@, *settings) is None,
            },
    {
        let proxy_id: String = generate_proxy_id(video_path, settings);
        self.proxy_registry.get(proxy_id.as_str())
    }

    /// Tells whether the proxy of `video_path` with `settings` is ready.
    pub fn is_proxy_ready(&self, video_path: &str, settings: &ProxySettings) -> (ready: bool)
        requires
            self.wf(),
        ensures
            ready == self@.ready(video_path@, *settings),
    {
        match self.get_proxy_info(video_path, settings) {
            Some(info) => info.is_ready,
            None => false,
        }
    }

    /// Computes the identifier of the proxy of `video_path` with `settings`.
    pub fn generate_proxy_id(&self, video_path: &str, settings: &ProxySettings) -> (id: String)
        ensures
            id@ == proxy_id(video_path@, *settings),
    {
        generate_proxy_id(video_path, settings)
    }

    /// Computes the path of the file of the proxy of `video_path` with
    /// `settings`.
    pub fn generate_proxy_path(&self, video_path: &str, settings: &ProxySettings) -> (path: String)
        ensures
            path@ == proxy_path(self@.cache_dir, video_path@, *settings),
    {
        generate_proxy_path(self.proxy_cache_dir.as_str(), video_path, settings)
    }

    /// Returns the file of the proxy of `video_path` with `settings` where
    /// the proxy can be used. `on_disk` tells whether the file at
    /// [`Self::generate_proxy_path`] exists: a proxy that is marked ready
    /// but whose file has gone cannot be used. The file returned is the one
    /// that the record names, where the record was made for the frame rate
    /// asked for.
    pub fn get_proxy_path(&self, video_path: &str, settings: &ProxySettings, on_disk: bool) -> (path:
        Option<String>)
        requires
            self.wf(),
        ensures
            match path {
                Some(file) => self@.usable_path(video_path@, *settings, on_disk) == Some(file@),
                None => self@.usable_path(video_path@, *settings, on_disk) is None,
            },
            path matches Some(file) ==> (self@.info(video_path@, *settings) matches Some(record)
                && (record.settings.whole_frame_rate() == settings.whole_frame_rate() ==> file@
                == record.proxy_path)),
    {
        proof {
            if self@.info(video_path@, *settings) matches Some(record)
                && record.settings.whole_frame_rate() == settings.whole_frame_rate() {
                lemma_usable_path_is_the_records(self@, video_path@, *settings);
            }
        }
        usable_proxy_path(
            &self.proxy_registry,
            self.proxy_cache_dir.as_str(),
            video_path,
            settings,
            on_disk,
        )
    }

    /// Lists the files of the records that [`Self::cleanup_old_proxies_at`]
    /// removes at the clock reading `now`. A file is to be deleted before
    /// its record goes: delete what this lists, then call
    /// [`Self::cleanup_old_proxies_at`] with the same reading. A file that
    /// cannot be deleted does not keep its record.
    pub fn expired_proxy_files(&self, max_age_hours: u64, now: u64) -> (files: Vec<String>)
        ensures
            files.deep_view() == expired_paths(
                self@.registry,
                max_age_hours,
                later(self.clock(), now),
            ),
    {
        let time: u64 = if now > self.clock {
            now
        } else {
            self.clock
        };
        self.proxy_registry.expired_files(max_age_hours, time)
    }

    /// Removes the record of every proxy that was asked for more than
    /// `max_age_hours` hours before the later of the clock reading `now` and
    /// the latest reading that the generator has seen. Returns the files of
    /// the records removed. The files are to be deleted before the records
    /// go: list them with [`Self::expired_proxy_files`] and delete them, then
    /// call this with the same reading.
    pub fn cleanup_old_proxies_at(&mut self, max_age_hours: u64, now: u64) -> (files: Vec<String>)
        requires
            old(self).wf(),
        ensures
            final(self).wf(),
            final(self).clock() == later(old(self).clock(), now),
            final(self)@ == old(self)@.cleaned(max_age_hours, later(old(self).clock(), now)),
            files.deep_view() == expired_paths(
                old(self)@.registry,
                max_age_hours,
                later(old(self).clock(), now),
            ),
    {
        if now > self.clock {
            self.clock = now;
        }
        proof {
            lemma_swept_in_place(
                self@.cache_dir,
                self@.registry,
                max_age_hours,
                self.clock,
                self.clock,
            );
        }
        self.proxy_registry.sweep(max_age_hours, self.clock)
    }

    /// Removes the records of old proxies, as
    /// [`Self::cleanup_old_proxies_at`] does at the reading of the
    /// generator's own clock, and returns the files of the records removed
    /// for the caller to delete. Where the files are to go first, read a
    /// clock and use [`Self::expired_proxy_files`] and
    /// [`Self::cleanup_old_proxies_at`] with its reading.
    pub fn cleanup_old_proxies(&mut self, max_age_hours: u64) -> (files: Vec<String>)
        requires
            old(self).wf(),
        ensures
            final(self).wf(),
            final(self).clock() >= old(self).clock(),
            final(self)@ == old(self)@.cleaned(max_age_hours, final(self).clock()),
            files.deep_view() == expired_paths(
                old(self)@.registry,
                max_age_hours,
                final(self).clock(),
            ),
    {
        let now: u64 = self.timer.millis();
        self.cleanup_old_proxies_at(max_age_hours, now)
    }

    /// The number of records, the number of them that are ready, and the
    /// sizes of all their files together, held at the largest `u64`.
    pub fn get_cache_stats(&self) -> (stats: (usize, usize, u64))
        ensures
            stats.0 == self@.registry.len(),
            stats.1 == ready_count(self@.registry),
            stats.2 == clamp_u64(total_bytes(self@.registry)),
    {
        self.proxy_registry.stats()
    }

    /// The number of jobs that wait in the queue.
    pub fn pending_jobs(&self) -> (n: usize)
        ensures
            n == self@.queue.len(),
    {
        self.generation_queue.len()
    }

    /// Decides what the worker does next; see [`next_action`].
    pub fn next_action(&mut self, running: bool) -> (action: WorkerAction)
        requires
            old(self).wf(),
        ensures
            final(self).wf(),
            final(self).clock() == old(self).clock(),
            final(self)@.cache_dir == old(self)@.cache_dir,
            final(self)@.registry == old(self)@.registry,
            match action {
                WorkerAction::Stop => !running && final(self)@.queue == old(self)@.queue,
                WorkerAction::Idle(millis) => running && old(self)@.queue.len() == 0 && millis
                    == IDLE_MILLIS && final(self)@.queue == old(self)@.queue,
                WorkerAction::Transcode(request) => running && old(self)@.queue.len() > 0
                    && request@ == old(self)@.queue[0] && final(self)@.queue
                    == old(self)@.queue.drop_first(),
            },
    {
        next_action(running, &mut self.generation_queue)
    }

    /// Takes up the job of `request`; see [`begin_job`].
    pub fn begin_job(&mut self, request: &ProxyRequest, tool_available: bool) -> (job: Option<
        TranscodeJob,
    >)
        requires
            old(self).wf(),
        ensures
            final(self).wf(),
            final(self).clock() == old(self).clock(),
            final(self)@.cache_dir == old(self)@.cache_dir,
            final(self)@.queue == old(self)@.queue,
            match job {
                Some(run) => {
                    let id = proxy_id(request@.video_path, request@.proxy_settings);
                    &&& tool_available
                    &&& final(self)@.registry == progressed(
                        old(self)@.registry,
                        id,
                        PROGRESS_STARTED,
                    )
                    &&& run.id@ == id
                    &&& run.input@ == request@.video_path
                    &&& run.output@ == job_output(old(self)@.registry, id)
                    &&& run.args.deep_view() == transcode_args(
                        run.input@,
                        run.output@,
                        request@.proxy_settings,
                    )
                },
                None => !tool_available && final(self)@.registry == old(self)@.registry,
            },
    {
        proof {
            lemma_progressed_in_place(
                self@.cache_dir,
                self@.registry,
                proxy_id(request@.video_path, request@.proxy_settings),
                PROGRESS_STARTED,
                self.clock,
            );
        }
        begin_job(&mut self.proxy_registry, request, tool_available)
    }

    /// Writes the share of the work done on the proxy `id` into its record,
    /// in thousandths.
    pub fn report_progress(&mut self, id: &str, share: u32)
        requires
            old(self).wf(),
        ensures
            final(self).wf(),
            final(self).clock() == old(self).clock(),
            final(self)@ == (ProxyGeneratorView {
                registry: progressed(old(self)@.registry, id@, share),
                ..old(self)@
            }),
    {
        proof {
            lemma_progressed_in_place(self@.cache_dir, self@.registry, id@, share, self.clock);
        }
        self.proxy_registry.set_progress(id, share);
    }

    /// Records the end of the transcoder of the proxy `id`. `exited_ok`
    /// tells whether it ended well, and `file_size` is the size of its
    /// output file where the file is there.
    pub fn finish_job(&mut self, id: &str, exited_ok: bool, file_size: Option<u64>)
        requires
            old(self).wf(),
        ensures
            final(self).wf(),
            final(self).clock() == old(self).clock(),
            final(self)@ == (ProxyGeneratorView {
                registry: completed(old(self)@.registry, id@, output_bytes(exited_ok, file_size)),
                ..old(self)@
            }),
    {
        proof {
            lemma_completed_in_place(
                self@.cache_dir,
                self@.registry,
                id@,
                output_bytes(exited_ok, file_size),
                self.clock,
            );
        }
        self.proxy_registry.finish(id, exited_ok, file_size);
    }
}

} // verus!
