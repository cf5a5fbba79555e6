//! The work that waits for the proxy worker.
//!
//! Requests are served by priority, the highest first. Requests of equal
//! priority are served in the order in which they came.

use crate::proxy_settings::ProxySettings;
use vstd::prelude::*;

verus! {

/// One request for a proxy rendition. A higher priority is more urgent.
pub struct ProxyRequest {
    pub video_path: String,
    pub proxy_settings: ProxySettings,
    pub priority: i32,
}

/// What a [`ProxyRequest`] holds, as plain values.
pub ghost struct ProxyRequestView {
    pub video_path: Seq<char>,
    pub proxy_settings: ProxySettings,
    pub priority: i32,
}

impl View for ProxyRequest {
    type V = ProxyRequestView;

    open spec fn view(&self) -> ProxyRequestView {
        ProxyRequestView {
            video_path: self.video_path@,
            proxy_settings: self.proxy_settings,
            priority: self.priority,
        }
    }
}

impl Clone for ProxyRequest {
    fn clone(&self) -> (request: ProxyRequest)
        ensures
            request@ == self@,
    {
        ProxyRequest {
            video_path: self.video_path.clone(),
            proxy_settings: self.proxy_settings,
            priority: self.priority,
        }
    }
}

/// The priorities of `s` never rise from one request to the next.
pub open spec fn by_priority(s: Seq<ProxyRequestView>) -> bool {
    forall|i: int, j: int| 0 <= i <= j < s.len() ==> s[i].priority >= s[j].priority
}

/// The number of requests at the head of `s` that are at least as urgent as
/// `priority`: the place at which a new request of that priority goes.
pub open spec fn urgent_prefix(s: Seq<ProxyRequestView>, priority: i32) -> nat
    decreases s.len(),
{
    if s.len() > 0 && s[0].priority >= priority {
        1 + urgent_prefix(s.drop_first(), priority)
    } else {
        0
    }
}

/// `s` with `request` put behind every request that is at least as urgent
/// and before every request that is less urgent.
pub open spec fn enqueued(s: Seq<ProxyRequestView>, request: ProxyRequestView) -> Seq<
    ProxyRequestView,
> {
    s.insert(urgent_prefix(s, request.priority) as int, request)
}

/// The place of a new request lies within the queue; everything before it
/// is at least as urgent, and in an ordered queue everything from it on is
/// less urgent.
pub proof fn lemma_urgent_prefix(s: Seq<ProxyRequestView>, priority: i32)
    ensures
        urgent_prefix(s, priority) <= s.len(),
        forall|i: int| 0 <= i < urgent_prefix(s, priority) ==> (#[trigger] s[i]).priority >= priority,
        by_priority(s) ==> forall|i: int|
            urgent_prefix(s, priority) <= i < s.len() ==> (#[trigger] s[i]).priority < priority,
    decreases s.len(),
{
    if s.len() > 0 && s[0].priority >= priority {
        let tail = s.drop_first();
        lemma_urgent_prefix(tail, priority);
        assert forall|i: int| 0 <= i < urgent_prefix(s, priority) implies (
        #[trigger] s[i]).priority >= priority by {
            if i > 0 {
                assert(tail[i - 1] == s[i]);
            }
        }
        if by_priority(s) {
            assert forall|i: int| urgent_prefix(s, priority) <= i < s.len() implies (
            #[trigger] s[i]).priority < priority by {
                assert(tail[i - 1] == s[i]);
            }
        }
    }
}

/// Putting a request into an ordered queue leaves the queue ordered.
pub proof fn lemma_enqueued_by_priority(s: Seq<ProxyRequestView>, request: ProxyRequestView)
    requires
        by_priority(s),
    ensures
        by_priority(enqueued(s, request)),
        enqueued(s, request).len() == s.len() + 1,
{
    lemma_urgent_prefix(s, request.priority);
}

/// The pending requests in the order in which they will be served.
pub struct ProxyQueue {
    pending: Vec<ProxyRequest>,
}

impl View for ProxyQueue {
    type V = Seq<ProxyRequestView>;

    closed spec fn view(&self) -> Seq<ProxyRequestView> {
        self.pending@.map_values(|r: ProxyRequest| r@)
    }
}

impl ProxyQueue {
    /// The queue is in order: priorities never rise along it.
    pub open spec fn wf(&self) -> bool {
        by_priority(self@)
    }

    /// A queue with nothing in it.
    pub fn new() -> (queue: Self)
        ensures
            queue.wf(),
            queue@ == Seq::<ProxyRequestView>::empty(),
    {
        let queue = ProxyQueue { pending: Vec::new() };
        queue
    }

    /// The number of pending requests.
    pub fn len(&self) -> (n: usize)
        ensures
            n == self@.len(),
    {
        self.pending.len()
    }

    /// Puts `request` into the queue, behind every pending request that is
    /// at least as urgent.
    pub fn enqueue(&mut self, request: ProxyRequest)
        requires
            old(self).wf(),
        ensures
            final(self).wf(),
            final(self)@ == enqueued(old(self)@, request@),
    {
        let n: usize = self.pending.len();
        let mut at: usize = 0;
        proof {
            assert(self@.skip(0) =~= self@);
        }
        while at < n && self.pending[at].priority >= request.priority
            invariant
                n == self.pending@.len(),
                at <= n,
                self@ == old(self)@,
                urgent_prefix(self@, request.priority) == at + urgent_prefix(
                    self@.skip(at as int),
                    request.priority,
                ),
            decreases n - at,
        {
            proof {
                let tail = self@.skip(at as int);
                assert(tail.drop_first() =~= self@.skip(at + 1));
            }
            at += 1;
        }
        proof {
            lemma_enqueued_by_priority(old(self)@, request@);
        }
        let ghost view = request@;
        self.pending.insert(at, request);
        assert(self@ =~= old(self)@.insert(at as int, view));
    }

    /// Takes the request that is served next out of the queue: the most
    /// urgent one, and of several equally urgent ones the one that came
    /// first. `None` where nothing is pending.
    pub fn pop_next(&mut self) -> (next: Option<ProxyRequest>)
        requires
            old(self).wf(),
        ensures
            final(self).wf(),
            match next {
                Some(request) => old(self)@.len() > 0 && request@ == old(self)@[0] && final(self)@
                    == old(self)@.drop_first() && forall|i: int|
                    0 <= i < old(self)@.len() ==> request.priority >= (
                    #[trigger] old(self)@[i]).priority,
                None => old(self)@.len() == 0 && final(self)@ == old(self)@,
            },
    {
        if self.pending.len() == 0 {
            return None;
        }
        let request: ProxyRequest = self.pending.remove(0);
        proof {
            assert(self@ =~= old(self)@.drop_first());
        }
        Some(request)
    }
}

} // verus!
