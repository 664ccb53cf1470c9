//! The course of a batch, as a state machine driven by its host.
use vstd::prelude::*;
use vstd::set_lib::{lemma_int_range, lemma_len_subset, set_int_range};

use crate::naming::{join_path, joined, output_file_name, output_name};

verus! {

/// One batch: where the images are, where the JPEGs go, the side of the
/// square that each image is fitted in, and the JPEG quality.
pub struct BatchRequest {
    pub input_dir: Vec<u8>,
    pub output_dir: Vec<u8>,
    pub target_size: u32,
    pub quality: u8,
}

/// What a batch reports to whoever watches it: `completed` of `total` files
/// are done, or the batch ended well, or it ended with a message.
#[derive(Debug)]
pub enum Event {
    Progress { completed: usize, total: usize },
    Done,
    Error(String),
}

/// The work on one file: the `index`-th listed file, read from `input_path`
/// and written as a JPEG to `output_path`.
#[derive(Debug)]
pub struct Job {
    pub index: usize,
    pub input_path: Vec<u8>,
    pub output_path: Vec<u8>,
}

/// What the batch asks its host to do next.
#[derive(Debug)]
pub enum Step {
    /// Create this directory, with its parents, and report with `on_output_dir`.
    CreateOutputDir(Vec<u8>),
    /// Run these jobs, in any order and in parallel, and report each with `on_item`.
    Transcode(Vec<Job>),
    /// The batch is over: deliver this event, which is its last.
    Finish(Event),
}

/// Where a batch stands: waiting for the listing, for the output directory,
/// for the outcomes of its jobs, or over.
#[derive(Clone, Copy, Debug, PartialEq, Eq, Structural)]
pub enum Phase {
    Listing,
    CreatingOutput,
    Running,
    Finished,
}

/// A batch as its contracts see it.
pub struct BatchView {
    pub phase: Phase,
    pub input_dir: Seq<u8>,
    pub output_dir: Seq<u8>,
    pub target_size: u32,
    pub quality: u8,
    pub files: Seq<Seq<u8>>,
    /// The indices of the files that were transcoded and counted.
    pub completed: Set<int>,
    /// The message of the first failure, once there is one.
    pub failure: Option<Seq<char>>,
    /// The index of the file whose failure that is.
    pub failed_file: Option<int>,
    /// Every event that the batch has emitted, in order.
    pub events: Seq<Event>,
}

/// The batch's message when the input directory holds no file.
pub open spec fn no_input_text() -> Seq<char> {
    "Did not find any input files"@
}

/// `Done` and `Error` end a batch's events.
pub open spec fn is_terminal(e: Event) -> bool {
    e is Done || e is Error
}

/// The `k`-th progress event of a batch of `total` files.
pub open spec fn progress_at(k: int, total: int) -> Event {
    Event::Progress { completed: (k + 1) as usize, total: total as usize }
}

/// `events` are the progress events of the first `events.len()` completions
/// out of `total`.
pub open spec fn progress_run(events: Seq<Event>, total: int) -> bool {
    forall|k: int| 0 <= k < events.len() ==> events[k] == progress_at(k, total)
}

/// The whole index range of a batch of `n` files.
pub open spec fn all_indices(n: int) -> Set<int> {
    set_int_range(0, n)
}

/// The history that a batch may have in each phase: nothing before it runs;
/// while it runs, one progress event per completed file, and a failed file is
/// never counted; once it is over, those followed by a single terminal event,
/// `Done` only when every file completed, and the kept failure's message when
/// a file failed.
pub open spec fn valid_history(v: BatchView) -> bool {
    let n = v.files.len() as int;
    match v.phase {
        Phase::Listing => v.events.len() == 0 && v.completed == Set::<int>::empty() && v.failure is None
            && v.failed_file is None,
        Phase::CreatingOutput => v.events.len() == 0 && v.completed == Set::<int>::empty()
            && v.failure is None && v.failed_file is None && n > 0,
        Phase::Running => {
            &&& v.events.len() == v.completed.len()
            &&& progress_run(v.events, n)
            &&& n > 0
            &&& v.failure is Some <==> v.failed_file is Some
            &&& v.failed_file matches Some(c) ==> 0 <= c < n && !v.completed.contains(c)
        },
        Phase::Finished => {
            &&& v.failed_file matches Some(c) ==> 0 <= c < n && !v.completed.contains(c)
                && v.failure is Some
            &&& v.failure matches Some(f) ==> (v.events.last() matches Event::Error(m) && m@ == f)
            &&& v.events.len() >= 1
            &&& is_terminal(v.events.last())
            &&& progress_run(v.events.drop_last(), n)
            &&& v.events.drop_last().len() == v.completed.len()
            &&& v.events.last() is Done ==> v.completed == all_indices(n) && n > 0
        },
    }
}

/// `jobs` are the jobs of the batch `v`: one per listed file, in listing
/// order, each reading the file from the input directory and writing its
/// `.jpg` namesake into the output directory.
pub open spec fn jobs_for(v: BatchView, jobs: Seq<Job>) -> bool {
    &&& jobs.len() == v.files.len()
    &&& forall|i: int|
        0 <= i < jobs.len() ==> {
            &&& jobs[i].index == i
            &&& jobs[i].input_path@ == joined(v.input_dir, v.files[i])
            &&& jobs[i].output_path@ == joined(v.output_dir, output_name(v.files[i]))
        }
}

/// The batch `v` counts an outcome for the file at `index`: it runs, no file
/// has failed yet, and that file has not been counted before.
pub open spec fn accepts(v: BatchView, index: int) -> bool {
    &&& v.phase == Phase::Running
    &&& v.failure is None
    &&& 0 <= index < v.files.len()
    &&& !v.completed.contains(index)
}

proof fn lemma_full_subset(s: Set<int>, n: int)
    requires
        0 <= n,
        s.subset_of(all_indices(n)),
        s.finite(),
        s.len() == n,
    ensures
        s == all_indices(n),
{
    lemma_int_range(0, n);
    if s != all_indices(n) {
        let x = choose|x: int| all_indices(n).contains(x) && !s.contains(x);
        assert(!(forall|y: int| all_indices(n).contains(y) ==> s.contains(y))) by {
            if forall|y: int| all_indices(n).contains(y) ==> s.contains(y) {
                assert(s =~= all_indices(n));
            }
        }
        assert(s.subset_of(all_indices(n).remove(x)));
        lemma_len_subset(s, all_indices(n).remove(x));
    }
}

/// A batch of transcoding work, driven by its host: the host performs the
/// I/O that a `Step` asks for and hands the outcome back.
///
/// When several files fail, the failure that the host reports first is the
/// one that ends the batch; with parallel workers which one that is depends on
/// timing and is not otherwise specified.
pub struct Batch {
    request: BatchRequest,
    phase: Phase,
    files: Vec<Vec<u8>>,
    completed: Vec<bool>,
    completed_count: usize,
    failure: Option<String>,
    failed_file: Ghost<Option<int>>,
    completed_set: Ghost<Set<int>>,
    events: Ghost<Seq<Event>>,
}

impl View for Batch {
    type V = BatchView;

    closed spec fn view(&self) -> BatchView {
        BatchView {
            phase: self.phase,
            input_dir: self.request.input_dir@,
            output_dir: self.request.output_dir@,
            target_size: self.request.target_size,
            quality: self.request.quality,
            files: self.files@.map_values(|f: Vec<u8>| f@),
            completed: self.completed_set@,
            failure: match self.failure {
                Some(m) => Some(m@),
                None => None,
            },
            failed_file: self.failed_file@,
            events: self.events@,
        }
    }
}

impl Batch {
    pub closed spec fn inv(&self) -> bool {
        let n = self.files@.len();
        &&& self.completed@.len() == n
        &&& forall|i: int| 0 <= i < n ==> (self.completed@[i] <==> self.completed_set@.contains(i))
        &&& self.completed_set@.subset_of(all_indices(n as int))
        &&& self.completed_set@.finite()
        &&& self.completed_set@.len() == self.completed_count
    }

    /// The batch is consistent and its history is one that it may have.
    pub open spec fn wf(&self) -> bool {
        self.inv() && valid_history(self@)
    }

    /// A batch for `request`, which waits for the listing of the input directory.
    pub fn new(request: BatchRequest) -> (r: Batch)
        ensures
            r.wf(),
            r@.phase == Phase::Listing,
            r@.input_dir == request.input_dir@,
            r@.output_dir == request.output_dir@,
            r@.target_size == request.target_size,
            r@.quality == request.quality,
            r@.events.len() == 0,
    {
        let r = Batch {
            request,
            phase: Phase::Listing,
            files: Vec::new(),
            completed: Vec::new(),
            completed_count: 0,
            failure: None,
            failed_file: Ghost(None),
            completed_set: Ghost(Set::empty()),
            events: Ghost(Seq::empty()),
        };
        proof {
            assert(r.completed_set@.subset_of(all_indices(0)));
        }
        r
    }

    pub fn target_size(&self) -> (r: u32)
        ensures
            r == self@.target_size,
    {
        self.request.target_size
    }

    pub fn quality(&self) -> (r: u8)
        ensures
            r == self@.quality,
    {
        self.request.quality
    }

    /// Ends the batch with `event`, which is recorded as its last.
    fn finish_with(&mut self, event: Event)
        requires
            old(self).inv(),
            is_terminal(event),
        ensures
            final(self).inv(),
            final(self)@ == (BatchView {
                phase: Phase::Finished,
                events: old(self)@.events.push(event),
                ..old(self)@
            }),
    {
        self.phase = Phase::Finished;
        self.events = Ghost(self.events@.push(event));
    }

    /// Takes the names of the regular files of the input directory, or the
    /// reason it could not be listed. With no files, or no listing, the batch
    /// ends in an error before anything is created; otherwise it asks for the
    /// output directory.
    pub fn on_listing(&mut self, listing: Result<Vec<Vec<u8>>, String>) -> (r: Step)
        requires
            old(self).wf(),
            old(self)@.phase == Phase::Listing,
        ensures
            final(self).wf(),
            final(self)@.target_size == old(self)@.target_size,
            final(self)@.quality == old(self)@.quality,
            final(self)@.input_dir == old(self)@.input_dir,
            final(self)@.output_dir == old(self)@.output_dir,
            match listing {
                Err(m) => r == Step::Finish(Event::Error(m)) && final(self)@.phase == Phase::Finished
                    && final(self)@.events == seq![Event::Error(m)],
                Ok(files) => if files@.len() == 0 {
                    &&& r matches Step::Finish(Event::Error(m)) && m@ == no_input_text()
                        && final(self)@.events == seq![Event::Error(m)]
                    &&& final(self)@.phase == Phase::Finished
                } else {
                    &&& r matches Step::CreateOutputDir(d) && d@ == old(self)@.output_dir
                    &&& final(self)@.phase == Phase::CreatingOutput
                    &&& final(self)@.files == files@.map_values(|f: Vec<u8>| f@)
                },
            },
    {
        match listing {
            Err(m) => {
                proof {
                    assert(seq![Event::Error(m)] =~= old(self)@.events.push(Event::Error(m)));
                }
                self.finish_with(Event::Error(m.clone()));
                proof {
                    assert(self@.events.drop_last() =~= Seq::<Event>::empty());
                }
                Step::Finish(Event::Error(m))
            },
            Ok(files) => {
                if files.len() == 0 {
                    let m = String::from_str("Did not find any input files");
                    self.finish_with(Event::Error(m.clone()));
                    proof {
                        assert(self@.events.drop_last() =~= Seq::<Event>::empty());
                        assert(self@.events =~= seq![Event::Error(m)]);
                    }
                    Step::Finish(Event::Error(m))
                } else {
                    let n = files.len();
                    let mut completed: Vec<bool> = Vec::new();
                    while completed.len() < n
                        invariant
                            completed@.len() <= n,
                            forall|i: int| 0 <= i < completed@.len() ==> !completed@[i],
                        decreases n - completed@.len(),
                    {
                        completed.push(false);
                    }
                    self.files = files;
                    self.completed = completed;
                    self.phase = Phase::CreatingOutput;
                    proof {
                        assert(self.completed_set@.subset_of(all_indices(n as int)));
                    }
                    let dir = vstd::slice::slice_to_vec(self.request.output_dir.as_slice());
                    Step::CreateOutputDir(dir)
                }
            },
        }
    }

    /// Takes the outcome of creating the output directory. On failure the
    /// batch ends with its message; on success it hands out one job per file.
    pub fn on_output_dir(&mut self, created: Result<(), String>) -> (r: Step)
        requires
            old(self).wf(),
            old(self)@.phase == Phase::CreatingOutput,
        ensures
            final(self).wf(),
            match created {
                Err(m) => {
                    &&& r == Step::Finish(Event::Error(m))
                    &&& final(self)@ == (BatchView {
                        phase: Phase::Finished,
                        events: seq![Event::Error(m)],
                        ..old(self)@
                    })
                },
                Ok(()) => {
                    &&& r matches Step::Transcode(jobs) && jobs_for(old(self)@, jobs@)
                    &&& final(self)@ == (BatchView { phase: Phase::Running, ..old(self)@ })
                },
            },
    {
        match created {
            Err(m) => {
                proof {
                    assert(seq![Event::Error(m)] =~= old(self)@.events.push(Event::Error(m)));
                }
                self.finish_with(Event::Error(m.clone()));
                proof {
                    assert(self@.events.drop_last() =~= Seq::<Event>::empty());
                }
                Step::Finish(Event::Error(m))
            },
            Ok(()) => {
                let n = self.files.len();
                let mut jobs: Vec<Job> = Vec::new();
                let mut i: usize = 0;
                while i < n
                    invariant
                        n == self.files@.len(),
                        i <= n,
                        *self == *old(self),
                        jobs@.len() == i,
                        forall|k: int|
                            0 <= k < i ==> {
                                &&& jobs@[k].index == k
                                &&& jobs@[k].input_path@ == joined(self@.input_dir, self@.files[k])
                                &&& jobs@[k].output_path@ == joined(
                                    self@.output_dir,
                                    output_name(self@.files[k]),
                                )
                            },
                    decreases n - i,
                {
                    let name = self.files[i].as_slice();
                    let input_path = join_path(self.request.input_dir.as_slice(), name);
                    let out_name = output_file_name(name);
                    let output_path = join_path(
                        self.request.output_dir.as_slice(),
                        out_name.as_slice(),
                    );
                    jobs.push(Job { index: i, input_path, output_path });
                    i = i + 1;
                }
                self.phase = Phase::Running;
                Step::Transcode(jobs)
            },
        }
    }

    /// Whether the batch still takes outcomes: it runs and no file has failed.
    /// A host starts no new job once this is false.
    pub fn is_accepting(&self) -> (r: bool)
        ensures
            r == (self@.phase == Phase::Running && self@.failure is None),
    {
        self.phase == Phase::Running && self.failure.is_none()
    }

    /// Takes the outcome of the job for the file at `index`. A success is
    /// counted and reported as the next progress event; the first failure is
    /// kept as the batch's result. An outcome that the batch does not count
    /// (after a failure, twice for one file, or while not running) changes
    /// nothing.
    pub fn on_item(&mut self, index: usize, outcome: Result<(), String>) -> (r: Option<Event>)
        requires
            old(self).wf(),
        ensures
            final(self).wf(),
            accepts(old(self)@, index as int) ==> match outcome {
                Ok(()) => {
                    &&& r == Some(progress_at(old(self)@.completed.len() as int, old(self)@.files.len() as int))
                    &&& final(self)@ == (BatchView {
                        completed: old(self)@.completed.insert(index as int),
                        events: old(self)@.events.push(r.unwrap()),
                        ..old(self)@
                    })
                },
                Err(m) => {
                    &&& r is None
                    &&& final(self)@ == (BatchView {
                        failure: Some(m@),
                        failed_file: Some(index as int),
                        ..old(self)@
                    })
                },
            },
            !accepts(old(self)@, index as int) ==> r is None && final(self)@ == old(self)@,
    {
        let counts = self.phase == Phase::Running && self.failure.is_none() && index
            < self.files.len() && !self.completed[index];
        proof {
            if index < self.files@.len() {
                assert(self@.files.len() == self.files@.len());
            }
        }
        if !counts {
            return None;
        }
        match outcome {
            Ok(()) => {
                let n = self.files.len();
                let ghost before = self.completed_set@;
                proof {
                    lemma_int_range(0, n as int);
                    assert(before.insert(index as int).subset_of(all_indices(n as int)));
                    lemma_len_subset(before.insert(index as int), all_indices(n as int));
                }
                self.completed.set(index, true);
                self.completed_count = self.completed_count + 1;
                self.completed_set = Ghost(before.insert(index as int));
                let e = Event::Progress { completed: self.completed_count, total: n };
                self.events = Ghost(self.events@.push(e));
                proof {
                    assert(self@.files =~= old(self)@.files);
                }
                Some(e)
            },
            Err(m) => {
                self.failure = Some(m);
                self.failed_file = Ghost(Some(index as int));
                None
            },
        }
    }

    /// Ends a running batch once its result is known: with the first failure's
    /// message as soon as there is one, without waiting for other jobs, or
    /// with `Done` once every file is counted. Returns nothing while the
    /// result is still open, and nothing after the batch has ended.
    pub fn finish(&mut self) -> (r: Option<Event>)
        requires
            old(self).wf(),
        ensures
            final(self).wf(),
            old(self)@.phase == Phase::Running && old(self)@.failure is Some ==> {
                &&& r matches Some(Event::Error(m)) && Some(m@) == old(self)@.failure
                &&& final(self)@ == (BatchView {
                    phase: Phase::Finished,
                    events: old(self)@.events.push(r.unwrap()),
                    ..old(self)@
                })
            },
            old(self)@.phase == Phase::Running && old(self)@.failure is None
                && old(self)@.completed.len() == old(self)@.files.len() ==> {
                &&& r == Some(Event::Done)
                &&& final(self)@ == (BatchView {
                    phase: Phase::Finished,
                    events: old(self)@.events.push(Event::Done),
                    ..old(self)@
                })
            },
            !(old(self)@.phase == Phase::Running && (old(self)@.failure is Some
                || old(self)@.completed.len() == old(self)@.files.len())) ==> r is None
                && final(self)@ == old(self)@,
    {
        if self.phase != Phase::Running {
            return None;
        }
        match &self.failure {
            Some(m) => {
                let e = Event::Error(m.clone());
                let ghost old_events = self.events@;
                self.finish_with(Event::Error(m.clone()));
                proof {
                    assert(self@.events.drop_last() =~= old_events);
                }
                Some(e)
            },
            None => {
                if self.completed_count == self.files.len() {
                    let ghost old_events = self.events@;
                    proof {
                        lemma_full_subset(self.completed_set@, self.files@.len() as int);
                    }
                    self.finish_with(Event::Done);
                    proof {
                        assert(self@.events.drop_last() =~= old_events);
                    }
                    Some(Event::Done)
                } else {
                    None
                }
            },
        }
    }
}

/// The progress events of a batch's history: all of it, less the terminal
/// event once the batch has ended.
pub open spec fn progress_part(v: BatchView) -> Seq<Event> {
    if v.phase == Phase::Finished {
        v.events.drop_last()
    } else {
        v.events
    }
}

proof fn lemma_completed_bounded(b: Batch)
    requires
        b.wf(),
    ensures
        b@.completed.len() <= b@.files.len(),
{
    lemma_int_range(0, b@.files.len() as int);
    lemma_len_subset(b@.completed, all_indices(b@.files.len() as int));
}

/// A batch emits at most one terminal event, always as its last: none before
/// it ends, exactly one once it has ended. When that event is `Done`, every
/// listed file was transcoded.
pub proof fn lemma_single_terminal_event(b: Batch)
    requires
        b.wf(),
    ensures
        forall|k: int| 0 <= k < b@.events.len() - 1 ==> !is_terminal(#[trigger] b@.events[k]),
        b@.phase == Phase::Finished <==> (b@.events.len() > 0 && is_terminal(b@.events.last())),
        b@.events.len() > 0 && b@.events.last() is Done ==> forall|i: int|
            0 <= i < b@.files.len() ==> b@.completed.contains(i),
{
    let ev = b@.events;
    let n = b@.files.len() as int;
    if b@.phase == Phase::Finished {
        assert forall|k: int| 0 <= k < ev.len() - 1 implies !is_terminal(#[trigger] ev[k]) by {
            assert(ev.drop_last()[k] == progress_at(k, n));
        }
    } else if b@.phase == Phase::Running && ev.len() > 0 {
        assert(ev[ev.len() - 1] == progress_at(ev.len() - 1, n));
    }
}

/// The progress events of a batch, in the order emitted, count the completed
/// files one by one: the k-th reports k + 1 of the batch's file count, so the
/// fractions are distinct and increasing, and there are never more of them
/// than files. A batch that ends with `Done` has reported every file, the last
/// progress event being all of them.
pub proof fn lemma_progress_sequence(b: Batch)
    requires
        b.wf(),
    ensures
        forall|k: int|
            0 <= k < progress_part(b@).len() ==> #[trigger] progress_part(b@)[k] == progress_at(
                k,
                b@.files.len() as int,
            ),
        forall|i: int, j: int|
            0 <= i < j < progress_part(b@).len() ==> (#[trigger] progress_part(b@)[i])->completed
                < (#[trigger] progress_part(b@)[j])->completed,
        progress_part(b@).len() <= b@.files.len(),
        b@.events.len() > 0 && b@.events.last() is Done ==> {
            &&& progress_part(b@).len() == b@.files.len()
            &&& progress_part(b@).last() == (Event::Progress {
                completed: b@.files.len() as usize,
                total: b@.files.len() as usize,
            })
        },
{
    lemma_completed_bounded(b);
    let n = b@.files.len() as int;
    let p = progress_part(b@);
    assert forall|i: int, j: int|
        0 <= i < j < p.len() implies (#[trigger] p[i])->completed < (#[trigger] p[j])->completed by {
        assert(p[i] == progress_at(i, n));
        assert(p[j] == progress_at(j, n));
    }
    lemma_single_terminal_event(b);
    if b@.events.len() > 0 && b@.events.last() is Done {
        lemma_int_range(0, n);
        assert(p[p.len() - 1] == progress_at(p.len() - 1, n));
    }
}

/// A failed file is never counted: once a file's failure is kept, the batch
/// reports fewer progress events than it has files, none of them for that
/// file, and once it has ended its last event is that failure's message.
pub proof fn lemma_failed_file_not_counted(b: Batch)
    requires
        b.wf(),
        b@.failed_file is Some,
    ensures
        !b@.completed.contains(b@.failed_file.unwrap()),
        progress_part(b@).len() < b@.files.len(),
        b@.phase == Phase::Finished ==> (b@.events.last() matches Event::Error(m) && Some(m@)
            == b@.failure),
{
    let n = b@.files.len() as int;
    let c = b@.failed_file.unwrap();
    lemma_int_range(0, n);
    assert(b@.completed.subset_of(all_indices(n).remove(c)));
    lemma_len_subset(b@.completed, all_indices(n).remove(c));
}

/// Once every file's outcome is in (each file is counted, or a failure is
/// kept), the batch's result is known, and `finish` ends it with its one
/// terminal event.
pub proof fn lemma_all_reported_ends(b: Batch)
    requires
        b.wf(),
        b@.phase == Phase::Running,
        forall|i: int| 0 <= i < b@.files.len() ==> #[trigger] b@.completed.contains(i) || b@.failure is Some,
    ensures
        b@.failure is Some || b@.completed.len() == b@.files.len(),
{
    let n = b@.files.len() as int;
    if b@.failure is None {
        assert(b@.completed =~= all_indices(n));
        lemma_int_range(0, n);
    }
}

} // verus!
