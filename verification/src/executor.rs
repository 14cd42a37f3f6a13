//! The pipeline executor's decision core.
//!
//! The executor walks the segments of one input line from left to right and
//! decides, for each, what the interpreter must do: run a built-in or spawn
//! an external command, and with which standard-stream wiring. The caller
//! performs the decided action (changing directory, spawning, waiting) and
//! reports each spawn's outcome back, so that a failed spawn breaks the pipe
//! chain instead of feeding a dead pipe to the next segment.

use vstd::prelude::*;
use vstd::string::*;

use crate::model;
use crate::model::{chain_from, cd_target, kind_of, SegmentKind};
use crate::pipeline::Segment;

verus! {

/// Where a spawned command reads its standard input from: the interpreter's
/// own standard input, or the one pending upstream pipe.
pub enum InputSource {
    Inherit,
    PreviousPipe,
}

/// Where a spawned command writes its standard output to: the interpreter's
/// own standard output, or a fresh pipe for the next segment.
pub enum OutputSink {
    Inherit,
    NewPipe,
}

/// Everything the caller needs in order to spawn one external command.
/// Standard error is never redirected: every command inherits the
/// interpreter's own.
pub struct SpawnPlan {
    pub program: String,
    pub args: Vec<String>,
    pub input: InputSource,
    pub output: OutputSink,
}

/// The decision for one segment.
pub enum Directive {
    /// Change the working directory to `target`; report a diagnostic on
    /// failure; never spawn a process.
    ChangeDir { target: String },
    /// Terminate the interpreter without spawning anything and without
    /// waiting on a pending process.
    Exit,
    /// Spawn an external command as planned.
    Spawn(SpawnPlan),
}

/// The executor's state across the segments of one input line, together
/// with a ghost transcript of the segments it has processed and the spawn
/// outcomes it was told about.
pub struct Executor {
    chained: bool,
    segs: Ghost<Seq<Seq<Seq<char>>>>,
    oks: Ghost<Seq<bool>>,
}

impl Executor {
    /// The views of the segments processed so far.
    pub closed spec fn segments_seen(&self) -> Seq<Seq<Seq<char>>> {
        self.segs@
    }

    /// The spawn outcomes reported so far, one per processed segment
    /// (`true` for a built-in, which spawns nothing and cannot fail here).
    pub closed spec fn outcomes_seen(&self) -> Seq<bool> {
        self.oks@
    }

    /// Whether the previous segment left a live process whose output pipe
    /// is waiting to be consumed.
    pub closed spec fn chained(&self) -> bool {
        self.chained
    }

    /// The executor state is exactly what the model predicts for the
    /// transcript: the exit built-in ends the run before any further call,
    /// so the transcript is exit-free, and the pending-pipe flag agrees
    /// with the model's pending chain.
    pub closed spec fn wf(&self) -> bool {
        &&& self.oks@.len() == self.segs@.len()
        &&& model::all_wf(self.segs@)
        &&& model::exit_free(self.segs@)
        &&& self.chained == (chain_from(self.segs@, self.oks@, 0, None) is Some)
    }

    /// A fresh executor for one input line: nothing processed, no pending
    /// pipe.
    pub fn new() -> (e: Executor)
        ensures
            e.wf(),
            !e.chained(),
            e.segments_seen() == Seq::<Seq<Seq<char>>>::empty(),
            e.outcomes_seen() == Seq::<bool>::empty(),
    {
        Executor { chained: false, segs: Ghost(Seq::empty()), oks: Ghost(Seq::empty()) }
    }

    /// Decides what to do for the next segment. `is_last` says whether the
    /// segment is the final one of its pipeline, which is what lets the
    /// user see the last command's output on the terminal.
    pub fn plan(&self, seg: &Segment, is_last: bool) -> (d: Directive)
        requires
            seg.wf(),
        ensures
            kind_of(seg@[0]) == SegmentKind::ChangeDir ==> d is ChangeDir,
            kind_of(seg@[0]) == SegmentKind::Exit ==> d is Exit,
            kind_of(seg@[0]) == SegmentKind::External ==> d is Spawn,
            match d {
                Directive::ChangeDir { target } => {
                    &&& kind_of(seg@[0]) == SegmentKind::ChangeDir
                    &&& target@ == cd_target(seg@)
                },
                Directive::Exit => kind_of(seg@[0]) == SegmentKind::Exit,
                Directive::Spawn(plan) => {
                    &&& kind_of(seg@[0]) == SegmentKind::External
                    &&& plan.program@ == seg@[0]
                    &&& plan.args@.map_values(|a: String| a@) == seg@.skip(1)
                    &&& (plan.input is PreviousPipe <==> self.chained())
                    &&& (plan.output is NewPipe <==> !is_last)
                },
            },
    {
        let name = seg.program();
        let cd_name = String::from_str("cd");
        let exit_name = String::from_str("exit");
        if *name == cd_name {
            let target = if seg.token_count() >= 2 {
                seg.token(1).clone()
            } else {
                String::from_str("/")
            };
            Directive::ChangeDir { target }
        } else if *name == exit_name {
            Directive::Exit
        } else {
            let n = seg.token_count();
            let mut args: Vec<String> = Vec::new();
            let mut i: usize = 1;
            while i < n
                invariant
                    1 <= i <= n,
                    n == seg@.len(),
                    args@.len() == i - 1,
                    forall|k: int| 0 <= k < i - 1 ==> #[trigger] args@[k]@ == seg@[k + 1],
                decreases n - i,
            {
                args.push(seg.token(i).clone());
                i = i + 1;
            }
            proof {
                assert(args@.map_values(|a: String| a@) =~= seg@.skip(1));
            }
            let input = if self.chained {
                InputSource::PreviousPipe
            } else {
                InputSource::Inherit
            };
            let output = if is_last {
                OutputSink::Inherit
            } else {
                OutputSink::NewPipe
            };
            Directive::Spawn(SpawnPlan { program: name.clone(), args, input, output })
        }
    }

    /// Records that the directory-change built-in was performed for `seg`
    /// (whether or not the change itself succeeded): the pipe chain resets,
    /// so a built-in mid-pipeline severs it.
    pub fn record_chdir(&mut self, seg: &Segment)
        requires
            old(self).wf(),
            seg.wf(),
            kind_of(seg@[0]) == SegmentKind::ChangeDir,
        ensures
            final(self).wf(),
            !final(self).chained(),
            final(self).segments_seen() == old(self).segments_seen().push(seg@),
            final(self).outcomes_seen() == old(self).outcomes_seen().push(true),
    {
        proof {
            lemma_chain_snoc(self.segs@, self.oks@, seg@, true);
        }
        self.chained = false;
        self.segs = Ghost(self.segs@.push(seg@));
        self.oks = Ghost(self.oks@.push(true));
    }

    /// Records the outcome of spawning `seg`: on success the new process's
    /// output pipe becomes the pending chain; on failure the chain resets,
    /// so the next segment falls back to inherited input.
    pub fn record_spawn(&mut self, seg: &Segment, ok: bool)
        requires
            old(self).wf(),
            seg.wf(),
            kind_of(seg@[0]) == SegmentKind::External,
        ensures
            final(self).wf(),
            final(self).chained() == ok,
            final(self).segments_seen() == old(self).segments_seen().push(seg@),
            final(self).outcomes_seen() == old(self).outcomes_seen().push(ok),
    {
        proof {
            lemma_chain_snoc(self.segs@, self.oks@, seg@, ok);
        }
        self.chained = ok;
        self.segs = Ghost(self.segs@.push(seg@));
        self.oks = Ghost(self.oks@.push(ok));
    }

    /// Whether, after the last segment, the interpreter must block once on
    /// the final process: exactly when a spawned process's pipe is still
    /// pending, which the model states as the run's terminal wait.
    pub fn should_wait(&self) -> (w: bool)
        requires
            self.wf(),
        ensures
            w == self.chained(),
            w == model::run(self.segments_seen(), self.outcomes_seen()).waits,
    {
        proof {
            crate::laws::lemma_exit_free_run(self.segs@, self.oks@, 0, None);
        }
        self.chained
    }
}

/// Appending one more processed segment advances the model's pending chain
/// by exactly one step.
proof fn lemma_chain_snoc(segs: Seq<Seq<Seq<char>>>, ok: Seq<bool>, seg: Seq<Seq<char>>, o: bool)
    requires
        ok.len() == segs.len(),
        model::exit_free(segs),
        seg.len() >= 1,
        kind_of(seg[0]) != SegmentKind::Exit,
    ensures
        chain_from(segs.push(seg), ok.push(o), 0, None) == (match kind_of(seg[0]) {
            SegmentKind::External => if o {
                Some(segs.len() as int)
            } else {
                None
            },
            _ => None,
        }),
{
    lemma_chain_snoc_from(segs, ok, seg, o, 0, None);
}

proof fn lemma_chain_snoc_from(
    segs: Seq<Seq<Seq<char>>>,
    ok: Seq<bool>,
    seg: Seq<Seq<char>>,
    o: bool,
    i: int,
    prev: Option<int>,
)
    requires
        ok.len() == segs.len(),
        model::exit_free(segs),
        seg.len() >= 1,
        kind_of(seg[0]) != SegmentKind::Exit,
        0 <= i <= segs.len(),
    ensures
        chain_from(segs.push(seg), ok.push(o), i, prev) == (match kind_of(seg[0]) {
            SegmentKind::External => if o {
                Some(segs.len() as int)
            } else {
                None
            },
            _ => None,
        }),
    decreases segs.len() - i,
{
    let segs2 = segs.push(seg);
    let ok2 = ok.push(o);
    if i == segs.len() {
        assert(segs2[i] == seg);
        assert(chain_from(segs2, ok2, i + 1, None) == None::<int>);
        assert(chain_from(segs2, ok2, i + 1, Some(i)) == Some(i));
    } else {
        assert(segs2[i] == segs[i]);
        match kind_of(segs[i][0]) {
            SegmentKind::ChangeDir => {
                lemma_chain_snoc_from(segs, ok, seg, o, i + 1, None);
            },
            SegmentKind::Exit => {
                assert(kind_of(segs[i][0]) != SegmentKind::Exit);
            },
            SegmentKind::External => {
                if ok2[i] {
                    lemma_chain_snoc_from(segs, ok, seg, o, i + 1, Some(i));
                } else {
                    lemma_chain_snoc_from(segs, ok, seg, o, i + 1, None);
                }
            },
        }
    }
}

} // verus!
