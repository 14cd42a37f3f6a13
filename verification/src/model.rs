//! The mathematical model of executing one pipeline.
//!
//! A pipeline is modelled as a sequence of segments, each a sequence of
//! token views. Executing it against a sequence of spawn outcomes (`true`
//! where the operating system managed to spawn the external command) yields
//! a [`Run`]: the trace of per-segment events, whether the interpreter was
//! asked to exit, which segment's output pipe is still pending at the end,
//! and whether the caller must block on the final process.

use vstd::prelude::*;

verus! {

/// How the first token of a segment is dispatched.
pub enum SegmentKind {
    /// The directory-change built-in.
    ChangeDir,
    /// The built-in that terminates the interpreter.
    Exit,
    /// Anything else: an external command to spawn.
    External,
}

/// Which kind of command a program name denotes. The built-ins form a small
/// closed set recognised by name alone.
pub open spec fn kind_of(name: Seq<char>) -> SegmentKind {
    if name == "cd"@ {
        SegmentKind::ChangeDir
    } else if name == "exit"@ {
        SegmentKind::Exit
    } else {
        SegmentKind::External
    }
}

/// The target handed to the directory-change built-in: its first argument,
/// or the filesystem root when no argument was given.
pub open spec fn cd_target(seg: Seq<Seq<char>>) -> Seq<char> {
    if seg.len() >= 2 {
        seg[1]
    } else {
        "/"@
    }
}

/// Where a spawned segment reads its standard input from.
pub enum InWire {
    /// The interpreter's own inherited standard input.
    Inherit,
    /// The read end of the output pipe of the segment with this index.
    FromSeg(int),
}

/// Where a spawned segment writes its standard output to.
pub enum OutWire {
    /// The interpreter's own inherited standard output.
    Inherit,
    /// A fresh pipe whose read end is offered to the next segment.
    Pipe,
}

/// What processing one segment did.
pub enum Event {
    /// The directory-change built-in ran (successfully or not); no process
    /// was spawned and the pipe chain was reset.
    ChangedDir { target: Seq<char> },
    /// The exit built-in was recognised; the run stops here.
    Exited,
    /// An external command was spawned with the given stream wiring.
    Spawned { idx: int, program: Seq<char>, args: Seq<Seq<char>>, input: InWire, output: OutWire },
    /// Spawning failed; a diagnostic was reported and the pipe chain was
    /// reset, so later segments fall back to inherited input.
    SpawnFailed { idx: int, program: Seq<char> },
}

/// The outcome of executing a whole pipeline.
pub struct Run {
    /// One event per processed segment, in order.
    pub events: Seq<Event>,
    /// Whether the exit built-in stopped the interpreter.
    pub exited: bool,
    /// The index of the segment whose output pipe is still unconsumed after
    /// the last processed segment, if any.
    pub prev: Option<int>,
    /// Whether the caller blocks once, on the process of the segment in
    /// `prev`, after processing ends.
    pub waits: bool,
}

/// Executes segments `i..` of the pipeline, with `prev` the index of the
/// segment whose output pipe is pending, against the spawn outcomes `ok`.
pub open spec fn run_from(segs: Seq<Seq<Seq<char>>>, ok: Seq<bool>, i: int, prev: Option<int>) -> Run
    decreases segs.len() - i,
{
    if i < 0 || i >= segs.len() {
        Run { events: Seq::empty(), exited: false, prev, waits: prev is Some }
    } else {
        let seg = segs[i];
        match kind_of(seg[0]) {
            SegmentKind::ChangeDir => {
                let rest = run_from(segs, ok, i + 1, None);
                Run {
                    events: seq![Event::ChangedDir { target: cd_target(seg) }] + rest.events,
                    exited: rest.exited,
                    prev: rest.prev,
                    waits: rest.waits,
                }
            },
            SegmentKind::Exit => {
                Run { events: seq![Event::Exited], exited: true, prev: None, waits: false }
            },
            SegmentKind::External => {
                let input = match prev {
                    Some(j) => InWire::FromSeg(j),
                    None => InWire::Inherit,
                };
                let output = if i == segs.len() - 1 {
                    OutWire::Inherit
                } else {
                    OutWire::Pipe
                };
                if ok[i] {
                    let rest = run_from(segs, ok, i + 1, Some(i));
                    Run {
                        events: seq![
                            Event::Spawned { idx: i, program: seg[0], args: seg.skip(1), input, output },
                        ] + rest.events,
                        exited: rest.exited,
                        prev: rest.prev,
                        waits: rest.waits,
                    }
                } else {
                    let rest = run_from(segs, ok, i + 1, None);
                    Run {
                        events: seq![Event::SpawnFailed { idx: i, program: seg[0] }] + rest.events,
                        exited: rest.exited,
                        prev: rest.prev,
                        waits: rest.waits,
                    }
                }
            },
        }
    }
}

/// Executes a whole pipeline from a fresh interpreter state.
pub open spec fn run(segs: Seq<Seq<Seq<char>>>, ok: Seq<bool>) -> Run {
    run_from(segs, ok, 0, None)
}

/// How many processes a run spawned.
pub open spec fn spawn_count(events: Seq<Event>) -> nat
    decreases events.len(),
{
    if events.len() == 0 {
        0
    } else {
        spawn_count(events.drop_last()) + if events.last() is Spawned {
            1nat
        } else {
            0nat
        }
    }
}

/// The pending upstream pipe after processing segments `i..` from `prev`,
/// for a pipeline free of the exit built-in. This is the state the
/// executor itself tracks while a run is in progress.
pub open spec fn chain_from(segs: Seq<Seq<Seq<char>>>, ok: Seq<bool>, i: int, prev: Option<int>) -> Option<int>
    decreases segs.len() - i,
{
    if i < 0 || i >= segs.len() {
        prev
    } else {
        match kind_of(segs[i][0]) {
            SegmentKind::ChangeDir => chain_from(segs, ok, i + 1, None),
            SegmentKind::Exit => None,
            SegmentKind::External => {
                if ok[i] {
                    chain_from(segs, ok, i + 1, Some(i))
                } else {
                    chain_from(segs, ok, i + 1, None)
                }
            },
        }
    }
}

/// The pending upstream pipe after a whole pipeline.
pub open spec fn chain_after(segs: Seq<Seq<Seq<char>>>, ok: Seq<bool>) -> Option<int> {
    chain_from(segs, ok, 0, None)
}

/// Every segment carries at least a program name.
pub open spec fn all_wf(segs: Seq<Seq<Seq<char>>>) -> bool {
    forall|i: int| 0 <= i < segs.len() ==> #[trigger] segs[i].len() >= 1
}

/// No segment is the exit built-in.
pub open spec fn exit_free(segs: Seq<Seq<Seq<char>>>) -> bool {
    forall|i: int| 0 <= i < segs.len() ==> #[trigger] kind_of(segs[i][0]) != SegmentKind::Exit
}

/// Every segment is an external command.
pub open spec fn all_external(segs: Seq<Seq<Seq<char>>>) -> bool {
    forall|i: int| 0 <= i < segs.len() ==> #[trigger] kind_of(segs[i][0]) == SegmentKind::External
}

} // verus!
