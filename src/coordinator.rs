//! The coordinator's registry of workers and its dispatch decisions.
//!
//! Each registered worker is Ready or Processing. A batch of images is handed
//! out in order, each to the first Ready worker in order of registration, which
//! then stays Processing until its result comes back. The registry keeps, beside
//! the workers, the tasks that are out: a worker is Processing exactly when one
//! task is out with it.
use vstd::prelude::*;
use crate::text::utf8_text;
use crate::topics::{
    REGISTER_TOPIC, RESULT_TOPIC_PREFIX, result_topic, result_topic_of, same_text, send_topic,
    send_topic_of, worker_of_result_topic,
};
use crate::wire::{DecodeError, EkcImage, decode_outcome};
use vstd::utf8::{decode_utf8, valid_utf8};

verus! {

/// Availability of a registered worker.
#[derive(Clone, Copy, Debug, PartialEq, Eq, Structural)]
pub enum WorkerStatus {
    Ready,
    Processing,
}

/// A worker known to the coordinator.
pub struct WorkerRecord {
    pub id: String,
    pub status: WorkerStatus,
}

/// A task that is out: image `image` of the batch, with worker `worker`.
pub struct Assignment {
    pub worker: String,
    pub image: usize,
}

/// An image to send: image `image` of the batch goes to worker `worker` on
/// `topic`.
pub struct Dispatch {
    pub worker: String,
    pub image: usize,
    pub topic: String,
}

/// What the coordinator does about an incoming message.
pub enum CoordinatorAction {
    /// A worker registered: subscribe to its result topic.
    Subscribe(String),
    /// A result arrived: store it as output number `number` (counted from 1).
    Save { image: EkcImage, number: usize },
    /// A result arrived that does not decode; the task is dropped.
    Discard(DecodeError),
    /// Nothing to do: an unknown topic, an undecodable identity, or a result
    /// from a worker that has no task out.
    Ignore,
}

/// The coordinator's state as mathematics.
pub struct CoordinatorView {
    /// Identity and status of each worker, in order of registration.
    pub workers: Seq<(Seq<char>, WorkerStatus)>,
    /// Worker identity and image index of each task that is out.
    pub outstanding: Seq<(Seq<char>, nat)>,
    /// Images in the batch.
    pub total: nat,
    /// Images handed out so far; the next one to hand out.
    pub next_image: nat,
    /// Results stored.
    pub saved: nat,
    /// Tasks that ended without a stored result.
    pub failed: nat,
}

impl CoordinatorView {
    pub open spec fn is_registered(self, id: Seq<char>) -> bool {
        exists|i: int| 0 <= i < self.workers.len() && self.workers[i].0 == id
    }

    pub open spec fn has_task(self, id: Seq<char>) -> bool {
        exists|j: int| 0 <= j < self.outstanding.len() && self.outstanding[j].0 == id
    }

    /// Identities of the workers that are Processing.
    pub open spec fn processing_ids(self) -> Set<Seq<char>> {
        Set::new(
            |id: Seq<char>|
                exists|i: int|
                    0 <= i < self.workers.len() && self.workers[i] == (id, WorkerStatus::Processing),
        )
    }

    /// Identities of the workers that have a task out.
    pub open spec fn busy_ids(self) -> Set<Seq<char>> {
        self.outstanding.map_values(|a: (Seq<char>, nat)| a.0).to_set()
    }

    /// `i` is the first Ready worker.
    pub open spec fn is_first_ready(self, i: int) -> bool {
        0 <= i < self.workers.len() && self.workers[i].1 == WorkerStatus::Ready && forall|k: int|
            0 <= k < i ==> self.workers[k].1 != WorkerStatus::Ready
    }

    pub open spec fn has_ready(self) -> bool {
        exists|i: int| 0 <= i < self.workers.len() && self.workers[i].1 == WorkerStatus::Ready
    }

    /// The registry's invariant: identities are unique; a worker is Processing
    /// exactly when a task is out with it, and no worker has two; every image
    /// handed out is out, stored or failed.
    pub open spec fn wf(self) -> bool {
        &&& forall|i: int, k: int|
            0 <= i < k < self.workers.len() ==> self.workers[i].0 != self.workers[k].0
        &&& forall|j: int, l: int|
            0 <= j < l < self.outstanding.len() ==> self.outstanding[j].0 != self.outstanding[l].0
        &&& forall|i: int|
            0 <= i < self.workers.len() ==> (self.workers[i].1 == WorkerStatus::Processing
                <==> self.has_task(self.workers[i].0))
        &&& forall|j: int|
            0 <= j < self.outstanding.len() ==> self.is_registered(self.outstanding[j].0)
        &&& forall|j: int| 0 <= j < self.outstanding.len() ==> self.outstanding[j].1 < self.next_image
        &&& self.next_image <= self.total
        &&& self.saved + self.failed + self.outstanding.len() == self.next_image
    }
}

/// The state that dispatches the next image: worker `i`, the first Ready one,
/// takes image `next_image`.
pub open spec fn dispatched(pre: CoordinatorView, post: CoordinatorView, i: int) -> bool {
    &&& post.workers == pre.workers.update(i, (pre.workers[i].0, WorkerStatus::Processing))
    &&& post.outstanding == pre.outstanding.push((pre.workers[i].0, pre.next_image))
    &&& post.next_image == pre.next_image + 1
    &&& post.total == pre.total && post.saved == pre.saved && post.failed == pre.failed
}

/// The state after worker `id` registers: a known worker becomes Ready, and the
/// task it had out, if any, is counted as failed; an unknown one is added, Ready.
pub open spec fn registered(pre: CoordinatorView, post: CoordinatorView, id: Seq<char>) -> bool {
    &&& post.total == pre.total && post.next_image == pre.next_image && post.saved == pre.saved
    &&& if pre.is_registered(id) {
        exists|i: int|
            0 <= i < pre.workers.len() && pre.workers[i].0 == id && post.workers == pre.workers.update(
                i,
                (id, WorkerStatus::Ready),
            ) && if pre.workers[i].1 == WorkerStatus::Processing {
                exists|j: int|
                    0 <= j < pre.outstanding.len() && pre.outstanding[j].0 == id && post.outstanding
                        == pre.outstanding.remove(j) && post.failed == pre.failed + 1
            } else {
                post.outstanding == pre.outstanding && post.failed == pre.failed
            }
    } else {
        post.workers == pre.workers.push((id, WorkerStatus::Ready)) && post.outstanding
            == pre.outstanding && post.failed == pre.failed
    }
}

/// The state after worker `id`, which has a task out, returns its result: the
/// worker is Ready, its task is done, and it counts as stored or failed as
/// `stored` says. Every other worker keeps its status.
pub open spec fn resulted(pre: CoordinatorView, post: CoordinatorView, id: Seq<char>, stored: bool) -> bool {
    exists|i: int, j: int|
        0 <= i < pre.workers.len() && pre.workers[i] == (id, WorkerStatus::Processing) && 0 <= j
            < pre.outstanding.len() && pre.outstanding[j].0 == id && post.workers
            == pre.workers.update(i, (id, WorkerStatus::Ready)) && post.outstanding
            == pre.outstanding.remove(j) && post.total == pre.total && post.next_image
            == pre.next_image && post.saved == (if stored {
            pre.saved + 1
        } else {
            pre.saved
        }) && post.failed == (if stored {
            pre.failed
        } else {
            pre.failed + 1
        })
}

/// What a result message from worker `id` with `payload` does: where the worker
/// has a task out, it becomes Ready and the decoded image is stored, or the task
/// fails where the payload does not decode; otherwise nothing changes.
pub open spec fn result_step(
    pre: CoordinatorView,
    post: CoordinatorView,
    id: Seq<char>,
    payload: Seq<u8>,
    r: CoordinatorAction,
) -> bool {
    if pre.processing_ids().contains(id) {
        match decode_outcome(payload) {
            Ok((data, w, h)) => resulted(pre, post, id, true) && match r {
                CoordinatorAction::Save { image, number } => image.image_data@ == data && image.width
                    == w && image.height == h && number == post.saved,
                _ => false,
            },
            Err(e) => resulted(pre, post, id, false) && (r matches CoordinatorAction::Discard(f) && f == e),
        }
    } else {
        post == pre && r is Ignore
    }
}

/// In a well-formed registry the Processing workers are exactly those with a
/// task out, no worker has two tasks out, and so there are as many Processing
/// workers as tasks out.
pub proof fn lemma_processing_matches_outstanding(v: CoordinatorView)
    requires
        v.wf(),
    ensures
        v.processing_ids() == v.busy_ids(),
        v.outstanding.map_values(|a: (Seq<char>, nat)| a.0).no_duplicates(),
        v.processing_ids().len() == v.outstanding.len(),
{
    let ids = v.outstanding.map_values(|a: (Seq<char>, nat)| a.0);
    assert forall|id: Seq<char>| v.processing_ids().contains(id) implies v.busy_ids().contains(id) by {
        let i = choose|i: int| 0 <= i < v.workers.len() && v.workers[i] == (id, WorkerStatus::Processing);
        assert(v.has_task(v.workers[i].0));
        let j = choose|j: int| 0 <= j < v.outstanding.len() && v.outstanding[j].0 == id;
        assert(ids[j] == id);
        assert(ids.contains(id));
    }
    assert forall|id: Seq<char>| v.busy_ids().contains(id) implies v.processing_ids().contains(id) by {
        assert(ids.contains(id));
        let j = choose|j: int| 0 <= j < ids.len() && ids[j] == id;
        assert(v.outstanding[j].0 == id);
        let k = choose|k: int| 0 <= k < v.workers.len() && v.workers[k].0 == id;
        assert(v.has_task(v.workers[k].0));
        assert(v.workers[k] == (id, WorkerStatus::Processing));
    }
    assert(v.processing_ids() =~= v.busy_ids());
    assert forall|a: int, b: int| 0 <= a < ids.len() && 0 <= b < ids.len() && a != b implies ids[a]
        != ids[b] by {
        if a < b {
            assert(v.outstanding[a].0 != v.outstanding[b].0);
        } else {
            assert(v.outstanding[b].0 != v.outstanding[a].0);
        }
    }
    ids.unique_seq_to_set();
}

/// A result that does not decode changes no worker but its sender, which is
/// Ready again with its task counted as failed; the registry stays well formed,
/// so the messages after it are handled as usual.
pub proof fn lemma_bad_result_is_isolated(
    pre: CoordinatorView,
    post: CoordinatorView,
    id: Seq<char>,
    payload: Seq<u8>,
    r: CoordinatorAction,
)
    requires
        pre.wf(),
        post.wf(),
        result_step(pre, post, id, payload, r),
        decode_outcome(payload) is Err,
    ensures
        post.workers.len() == pre.workers.len(),
        forall|k: int| 0 <= k < pre.workers.len() && pre.workers[k].0 != id ==> post.workers[k] == pre.workers[k],
        forall|k: int| 0 <= k < pre.workers.len() && pre.workers[k].0 == id ==> post.workers[k].1 == WorkerStatus::Ready
            || post.workers[k] == pre.workers[k],
        post.saved == pre.saved,
        r is Discard || r is Ignore,
{
    if pre.processing_ids().contains(id) {
        let (i, j) = choose|i: int, j: int|
            0 <= i < pre.workers.len() && pre.workers[i] == (id, WorkerStatus::Processing) && 0 <= j
                < pre.outstanding.len() && pre.outstanding[j].0 == id && post.workers
                == pre.workers.update(i, (id, WorkerStatus::Ready)) && post.outstanding
                == pre.outstanding.remove(j) && post.total == pre.total && post.next_image
                == pre.next_image && post.saved == pre.saved && post.failed == pre.failed + 1;
        assert forall|k: int| 0 <= k < pre.workers.len() && pre.workers[k].0 == id implies post.workers[k].1
            == WorkerStatus::Ready || post.workers[k] == pre.workers[k] by {
            if k != i {
                assert(post.workers[k] == pre.workers[k]);
            }
        }
    }
}

/// The coordinator: the worker registry and the progress of the batch.
pub struct Coordinator {
    workers: Vec<WorkerRecord>,
    assignments: Vec<Assignment>,
    total: usize,
    next_image: usize,
    saved: usize,
    failed: usize,
}

impl View for Coordinator {
    type V = CoordinatorView;

    closed spec fn view(&self) -> CoordinatorView {
        CoordinatorView {
            workers: self.workers@.map_values(|w: WorkerRecord| (w.id@, w.status)),
            outstanding: self.assignments@.map_values(|a: Assignment| (a.worker@, a.image as nat)),
            total: self.total as nat,
            next_image: self.next_image as nat,
            saved: self.saved as nat,
            failed: self.failed as nat,
        }
    }
}

impl Coordinator {
    /// A coordinator for a batch of `total` images, with no worker yet.
    pub fn new(total: usize) -> (r: Coordinator)
        ensures
            r@.wf(),
            r@.workers.len() == 0,
            r@.outstanding.len() == 0,
            r@.total == total,
            r@.next_image == 0,
            r@.saved == 0,
            r@.failed == 0,
    {
        let r = Coordinator {
            workers: Vec::new(),
            assignments: Vec::new(),
            total,
            next_image: 0,
            saved: 0,
            failed: 0,
        };
        assert(r@.workers =~= Seq::empty());
        assert(r@.outstanding =~= Seq::empty());
        r
    }

    /// Position of worker `id` in the registry.
    fn find_worker(&self, id: &String) -> (r: Option<usize>)
        ensures
            match r {
                Some(i) => i < self@.workers.len() && self@.workers[i as int].0 == id@,
                None => !self@.is_registered(id@),
            },
    {
        let mut i: usize = 0;
        while i < self.workers.len()
            invariant
                i <= self.workers@.len(),
                forall|k: int| 0 <= k < i ==> self@.workers[k].0 != id@,
            decreases self.workers@.len() - i,
        {
            if self.workers[i].id == *id {
                return Some(i);
            }
            i += 1;
        }
        None
    }

    /// Position of the task that is out with worker `id`.
    fn find_task(&self, id: &String) -> (r: Option<usize>)
        ensures
            match r {
                Some(j) => j < self@.outstanding.len() && self@.outstanding[j as int].0 == id@,
                None => !self@.has_task(id@),
            },
    {
        let mut j: usize = 0;
        while j < self.assignments.len()
            invariant
                j <= self.assignments@.len(),
                forall|k: int| 0 <= k < j ==> self@.outstanding[k].0 != id@,
            decreases self.assignments@.len() - j,
        {
            if self.assignments[j].worker == *id {
                return Some(j);
            }
            j += 1;
        }
        None
    }

    /// Position of the first Ready worker.
    fn first_ready(&self) -> (r: Option<usize>)
        ensures
            match r {
                Some(i) => self@.is_first_ready(i as int),
                None => !self@.has_ready(),
            },
    {
        let mut i: usize = 0;
        while i < self.workers.len()
            invariant
                i <= self.workers@.len(),
                forall|k: int| 0 <= k < i ==> self@.workers[k].1 != WorkerStatus::Ready,
            decreases self.workers@.len() - i,
        {
            if self.workers[i].status == WorkerStatus::Ready {
                return Some(i);
            }
            i += 1;
        }
        None
    }

    /// Hands out the next image of the batch to the first Ready worker, which
    /// becomes Processing; nothing happens while the batch is all handed out or
    /// no worker is Ready.
    pub fn next_dispatch(&mut self) -> (r: Option<Dispatch>)
        requires
            old(self)@.wf(),
        ensures
            final(self)@.wf(),
            r is Some <==> (old(self)@.next_image < old(self)@.total && old(self)@.has_ready()),
            r is Some ==> exists|i: int|
                old(self)@.is_first_ready(i) && dispatched(old(self)@, final(self)@, i)
                    && r->0.worker@ == old(self)@.workers[i].0,
            r is Some ==> r->0.image == old(self)@.next_image,
            r is Some ==> r->0.topic@ == send_topic_of(r->0.worker@),
            r is None ==> final(self)@ == old(self)@,
    {
        if self.next_image >= self.total {
            return None;
        }
        let i: usize = match self.first_ready() {
            Some(i) => i,
            None => {
                return None;
            },
        };
        let ghost pre = self@;
        let id = self.workers[i].id.clone();
        let topic = send_topic(id.as_str());
        let image: usize = self.next_image;
        // The chosen worker is Ready, so no task is out with it.
        assert(pre.workers[i as int].1 == WorkerStatus::Ready);
        assert(!pre.has_task(id@));
        self.workers.set(i, WorkerRecord { id: id.clone(), status: WorkerStatus::Processing });
        self.assignments.push(Assignment { worker: id.clone(), image });
        self.next_image = image + 1;
        let ghost post = self@;
        assert(post.workers =~= pre.workers.update(i as int, (id@, WorkerStatus::Processing)));
        assert(post.outstanding =~= pre.outstanding.push((id@, image as nat)));
        proof {
            let n = pre.outstanding.len() as int;
            assert forall|k: int| 0 <= k < post.workers.len() implies (post.workers[k].1
                == WorkerStatus::Processing <==> post.has_task(post.workers[k].0)) by {
                if k == i {
                    assert(post.outstanding[n].0 == id@);
                } else {
                    assert(post.workers[k] == pre.workers[k]);
                    if pre.has_task(pre.workers[k].0) {
                        let j = choose|j: int|
                            0 <= j < pre.outstanding.len() && pre.outstanding[j].0 == pre.workers[k].0;
                        assert(post.outstanding[j] == pre.outstanding[j]);
                    }
                    if post.has_task(post.workers[k].0) {
                        let j = choose|j: int|
                            0 <= j < post.outstanding.len() && post.outstanding[j].0 == post.workers[k].0;
                        if j < n {
                            assert(pre.outstanding[j] == post.outstanding[j]);
                        }
                    }
                }
            }
            assert forall|j: int| 0 <= j < post.outstanding.len() implies post.is_registered(
                post.outstanding[j].0,
            ) by {
                if j < n {
                    let k = choose|k: int|
                        0 <= k < pre.workers.len() && pre.workers[k].0 == pre.outstanding[j].0;
                    assert(post.workers[k].0 == pre.workers[k].0);
                } else {
                    assert(post.workers[i as int].0 == id@);
                }
            }
        }
        Some(Dispatch { worker: id, image, topic })
    }

    /// Registers worker `id` as Ready and gives the topic of its results. A
    /// worker that registers again while Processing has lost its task, which
    /// counts as failed.
    pub fn register(&mut self, id: String) -> (r: String)
        requires
            old(self)@.wf(),
        ensures
            final(self)@.wf(),
            registered(old(self)@, final(self)@, id@),
            r@ == result_topic_of(id@),
    {
        let topic = result_topic(id.as_str());
        let ghost pre = self@;
        let ghost idv = id@;
        match self.find_worker(&id) {
            Some(i) => {
                if self.workers[i].status == WorkerStatus::Processing {
                    let j: usize = match self.find_task(&id) {
                        Some(j) => j,
                        None => {
                            proof {
                                assert(pre.workers[i as int].1 == WorkerStatus::Processing);
                            }
                            return topic;
                        },
                    };
                    self.assignments.remove(j);
                    self.failed = self.failed + 1;
                    self.workers.set(i, WorkerRecord { id, status: WorkerStatus::Ready });
                    let ghost post = self@;
                    assert(post.outstanding =~= pre.outstanding.remove(j as int));
                    assert(post.workers =~= pre.workers.update(i as int, (idv, WorkerStatus::Ready)));
                    proof {
                        self.lemma_task_done(pre, i as int, j as int);
                        assert(pre.outstanding[j as int].0 == idv);
                    }
                } else {
                    self.workers.set(i, WorkerRecord { id, status: WorkerStatus::Ready });
                    let ghost post = self@;
                    assert(post.workers =~= pre.workers.update(i as int, (idv, WorkerStatus::Ready)));
                    assert(post.outstanding =~= pre.outstanding);
                    assert(forall|k: int| 0 <= k < post.workers.len() ==> post.workers[k].0 == pre.workers[k].0);
                    assert(forall|k: int| 0 <= k < post.workers.len() ==> post.workers[k].1 == pre.workers[k].1);
                    assert(forall|x: Seq<char>| post.is_registered(x) <== pre.is_registered(x));
                }
            },
            None => {
                self.workers.push(WorkerRecord { id, status: WorkerStatus::Ready });
                let ghost post = self@;
                let ghost n = pre.workers.len() as int;
                assert(post.workers =~= pre.workers.push((id@, WorkerStatus::Ready)));
                assert(post.outstanding =~= pre.outstanding);
                proof {
                    assert forall|k: int| 0 <= k < post.workers.len() implies (post.workers[k].1
                        == WorkerStatus::Processing <==> post.has_task(post.workers[k].0)) by {
                        if k == n {
                            if post.has_task(id@) {
                                let j = choose|j: int|
                                    0 <= j < pre.outstanding.len() && pre.outstanding[j].0 == id@;
                                assert(pre.is_registered(pre.outstanding[j].0));
                            }
                        } else {
                            assert(post.workers[k] == pre.workers[k]);
                        }
                    }
                    assert forall|j: int| 0 <= j < post.outstanding.len() implies post.is_registered(
                        post.outstanding[j].0,
                    ) by {
                        let k = choose|k: int|
                            0 <= k < pre.workers.len() && pre.workers[k].0 == pre.outstanding[j].0;
                        assert(post.workers[k] == pre.workers[k]);
                    }
                }
            },
        }
        topic
    }

    /// Takes the result of worker `id`. Where the worker has a task out it becomes
    /// Ready again, whether or not `payload` decodes; the image is to be stored
    /// where it decodes, and the task counts as failed where it does not. A
    /// result from a worker with no task out changes nothing.
    pub fn on_result(&mut self, id: String, payload: &[u8]) -> (r: CoordinatorAction)
        requires
            old(self)@.wf(),
        ensures
            final(self)@.wf(),
            result_step(old(self)@, final(self)@, id@, payload@, r),
    {
        let ghost pre = self@;
        let i: usize = match self.find_worker(&id) {
            Some(i) => i,
            None => {
                proof {
                    if pre.processing_ids().contains(id@) {
                        let k = choose|k: int|
                            0 <= k < pre.workers.len() && pre.workers[k] == (id@, WorkerStatus::Processing);
                    }
                }
                return CoordinatorAction::Ignore;
            },
        };
        if self.workers[i].status != WorkerStatus::Processing {
            proof {
                if pre.processing_ids().contains(id@) {
                    let k = choose|k: int|
                        0 <= k < pre.workers.len() && pre.workers[k] == (id@, WorkerStatus::Processing);
                    assert(k == i);
                }
            }
            return CoordinatorAction::Ignore;
        }
        assert(pre.processing_ids().contains(id@));
        let j: usize = match self.find_task(&id) {
            Some(j) => j,
            None => {
                return CoordinatorAction::Ignore;
            },
        };
        let ghost idv = id@;
        let decoded = EkcImage::decode(payload);
        self.assignments.remove(j);
        self.workers.set(i, WorkerRecord { id, status: WorkerStatus::Ready });
        let r = match decoded {
            Ok(image) => {
                self.saved = self.saved + 1;
                CoordinatorAction::Save { image, number: self.saved }
            },
            Err(e) => {
                self.failed = self.failed + 1;
                CoordinatorAction::Discard(e)
            },
        };
        let ghost post = self@;
        assert(post.outstanding =~= pre.outstanding.remove(j as int));
        assert(post.workers =~= pre.workers.update(i as int, (idv, WorkerStatus::Ready)));
        proof {
            self.lemma_task_done(pre, i as int, j as int);
            assert(pre.workers[i as int] == (idv, WorkerStatus::Processing));
        }
        r
    }

    /// Acts on one message from the bus: a registration on `REGISTER_TOPIC`
    /// whose payload is a UTF-8 identity, or a result on a worker's result
    /// topic. Other messages are ignored.
    pub fn handle_message(&mut self, topic: &str, payload: &[u8]) -> (r: CoordinatorAction)
        requires
            old(self)@.wf(),
        ensures
            final(self)@.wf(),
            topic@ == REGISTER_TOPIC@ && valid_utf8(payload@) ==> registered(
                old(self)@,
                final(self)@,
                decode_utf8(payload@),
            ) && (r matches CoordinatorAction::Subscribe(t) && t@ == result_topic_of(
                decode_utf8(payload@),
            )),
            topic@ == REGISTER_TOPIC@ && !valid_utf8(payload@) ==> final(self)@ == old(self)@
                && r is Ignore,
            topic@ != REGISTER_TOPIC@ && RESULT_TOPIC_PREFIX@.is_prefix_of(topic@)
                ==> exists|id: Seq<char>| topic@ == result_topic_of(id)
                    && result_step(old(self)@, final(self)@, id, payload@, r),
            topic@ != REGISTER_TOPIC@ && !RESULT_TOPIC_PREFIX@.is_prefix_of(topic@)
                ==> final(self)@ == old(self)@ && r is Ignore,
    {
        if same_text(topic, REGISTER_TOPIC) {
            match utf8_text(payload) {
                Some(id) => CoordinatorAction::Subscribe(self.register(id)),
                None => CoordinatorAction::Ignore,
            }
        } else {
            match worker_of_result_topic(topic) {
                Some(id) => {
                    let ghost idv = id@;
                    let r = self.on_result(id, payload);
                    assert(topic@ == result_topic_of(idv));
                    r
                },
                None => CoordinatorAction::Ignore,
            }
        }
    }

    /// Whether every image of the batch has come back, stored or failed.
    pub fn is_finished(&self) -> (r: bool)
        requires
            self@.wf(),
        ensures
            r == (self@.saved + self@.failed == self@.total),
    {
        self.saved + self.failed == self.total
    }

    /// Status of worker `id`, if it is registered.
    pub fn status_of(&self, id: &String) -> (r: Option<WorkerStatus>)
        ensures
            match r {
                Some(st) => exists|i: int|
                    0 <= i < self@.workers.len() && self@.workers[i] == (id@, st),
                None => !self@.is_registered(id@),
            },
    {
        match self.find_worker(id) {
            Some(i) => Some(self.workers[i].status),
            None => None,
        }
    }

    /// Number of tasks that are out.
    pub fn outstanding_count(&self) -> (r: usize)
        ensures
            r == self@.outstanding.len(),
    {
        self.assignments.len()
    }

    /// Number of results stored.
    pub fn saved_count(&self) -> (r: usize)
        ensures
            r == self@.saved,
    {
        self.saved
    }

    /// Number of tasks that ended without a stored result.
    pub fn failed_count(&self) -> (r: usize)
        ensures
            r == self@.failed,
    {
        self.failed
    }

    /// Number of images handed out so far.
    pub fn dispatched_count(&self) -> (r: usize)
        ensures
            r == self@.next_image,
    {
        self.next_image
    }

    /// Worker `i`, Processing, has become Ready and its task `j` has been
    /// removed: the invariant holds again, and the step is the one `resulted`
    /// describes.
    proof fn lemma_task_done(&self, pre: CoordinatorView, i: int, j: int)
        requires
            pre.wf(),
            0 <= i < pre.workers.len(),
            pre.workers[i].1 == WorkerStatus::Processing,
            0 <= j < pre.outstanding.len(),
            pre.outstanding[j].0 == pre.workers[i].0,
            self@.workers == pre.workers.update(i, (pre.workers[i].0, WorkerStatus::Ready)),
            self@.outstanding == pre.outstanding.remove(j),
            self@.total == pre.total,
            self@.next_image == pre.next_image,
            self@.saved + self@.failed == pre.saved + pre.failed + 1,
        ensures
            self@.wf(),
    {
        let post = self@;
        let id = pre.workers[i].0;
        assert forall|a: int, b: int| 0 <= a < b < post.outstanding.len() implies post.outstanding[a].0
            != post.outstanding[b].0 by {
            let a2 = if a < j { a } else { a + 1 };
            let b2 = if b < j { b } else { b + 1 };
            assert(post.outstanding[a] == pre.outstanding[a2]);
            assert(post.outstanding[b] == pre.outstanding[b2]);
        }
        assert forall|k: int| 0 <= k < post.workers.len() implies (post.workers[k].1
            == WorkerStatus::Processing <==> post.has_task(post.workers[k].0)) by {
            if post.has_task(post.workers[k].0) {
                let m = choose|m: int|
                    0 <= m < post.outstanding.len() && post.outstanding[m].0 == post.workers[k].0;
                let m2 = if m < j { m } else { m + 1 };
                assert(post.outstanding[m] == pre.outstanding[m2]);
                assert(m2 != j);
            }
            if k != i {
                assert(post.workers[k] == pre.workers[k]);
                if pre.has_task(pre.workers[k].0) {
                    let m = choose|m: int|
                        0 <= m < pre.outstanding.len() && pre.outstanding[m].0 == pre.workers[k].0;
                    assert(m != j);
                    let m1 = if m < j { m } else { m - 1 };
                    assert(post.outstanding[m1] == pre.outstanding[m]);
                }
            }
        }
        assert forall|m: int| 0 <= m < post.outstanding.len() implies post.is_registered(
            post.outstanding[m].0,
        ) && post.outstanding[m].1 < post.next_image by {
            let m2 = if m < j { m } else { m + 1 };
            assert(post.outstanding[m] == pre.outstanding[m2]);
            let k = choose|k: int|
                0 <= k < pre.workers.len() && pre.workers[k].0 == pre.outstanding[m2].0;
            assert(post.workers[k].0 == pre.workers[k].0);
        }
        assert forall|a: int, b: int| 0 <= a < b < post.workers.len() implies post.workers[a].0
            != post.workers[b].0 by {
            assert(post.workers[a].0 == pre.workers[a].0);
            assert(post.workers[b].0 == pre.workers[b].0);
        }
    }
}

} // verus!
