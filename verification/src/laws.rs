//! The laws of the pipeline model: what a run looks like for well-formed
//! pipelines, how a failed spawn breaks the pipe chain, what the exit
//! built-in stops, and that no process handle is left dangling.

use vstd::prelude::*;

use crate::model::{
    all_external, all_wf, chain_from, exit_free, kind_of, run, run_from, spawn_count, Event, InWire,
    OutWire, SegmentKind,
};

verus! {

/// A pipeline free of the exit built-in never exits the interpreter, its
/// pending pipe is the one the chain computes, and it blocks at the end
/// exactly when a pipe is still pending.
pub proof fn lemma_exit_free_run(segs: Seq<Seq<Seq<char>>>, ok: Seq<bool>, i: int, prev: Option<int>)
    requires
        ok.len() == segs.len(),
        exit_free(segs),
        0 <= i <= segs.len(),
    ensures
        !run_from(segs, ok, i, prev).exited,
        run_from(segs, ok, i, prev).prev == chain_from(segs, ok, i, prev),
        run_from(segs, ok, i, prev).waits == (run_from(segs, ok, i, prev).prev is Some),
    decreases segs.len() - i,
{
    if i < segs.len() {
        match kind_of(segs[i][0]) {
            SegmentKind::ChangeDir => {
                lemma_exit_free_run(segs, ok, i + 1, None);
            },
            SegmentKind::Exit => {
                assert(kind_of(segs[i][0]) != SegmentKind::Exit);
            },
            SegmentKind::External => {
                if ok[i] {
                    lemma_exit_free_run(segs, ok, i + 1, Some(i));
                } else {
                    lemma_exit_free_run(segs, ok, i + 1, None);
                }
            },
        }
    }
}

/// The event that an all-external pipeline produces for segment `k`: a
/// spawn whose input is the previous segment's output pipe exactly when
/// that segment's own spawn succeeded, and whose output reaches the
/// terminal only at the last segment; or a recorded failure.
pub open spec fn expected_event(segs: Seq<Seq<Seq<char>>>, ok: Seq<bool>, k: int) -> Event {
    if ok[k] {
        Event::Spawned {
            idx: k,
            program: segs[k][0],
            args: segs[k].skip(1),
            input: if k > 0 && ok[k - 1] {
                InWire::FromSeg(k - 1)
            } else {
                InWire::Inherit
            },
            output: if k == segs.len() - 1 {
                OutWire::Inherit
            } else {
                OutWire::Pipe
            },
        }
    } else {
        Event::SpawnFailed { idx: k, program: segs[k][0] }
    }
}

proof fn lemma_external_shape_from(segs: Seq<Seq<Seq<char>>>, ok: Seq<bool>, i: int)
    requires
        ok.len() == segs.len(),
        all_wf(segs),
        all_external(segs),
        0 <= i <= segs.len(),
    ensures
        ({
            let prev = if i > 0 && ok[i - 1] {
                Some(i - 1)
            } else {
                None::<int>
            };
            let r = run_from(segs, ok, i, prev);
            &&& r.events.len() == segs.len() - i
            &&& !r.exited
            &&& forall|k: int|
                i <= k < segs.len() ==> r.events[k - i] == expected_event(segs, ok, k)
            &&& r.waits == if i < segs.len() {
                ok[segs.len() - 1]
            } else {
                prev is Some
            }
        }),
    decreases segs.len() - i,
{
    let prev = if i > 0 && ok[i - 1] {
        Some(i - 1)
    } else {
        None::<int>
    };
    let r = run_from(segs, ok, i, prev);
    if i < segs.len() {
        assert(kind_of(segs[i][0]) == SegmentKind::External);
        lemma_external_shape_from(segs, ok, i + 1);
        let prev2 = if ok[i] {
            Some(i)
        } else {
            None::<int>
        };
        let rest = run_from(segs, ok, i + 1, prev2);
        assert(r.events[0] == expected_event(segs, ok, i));
        assert forall|k: int| i < k < segs.len() implies r.events[k - i] == expected_event(
            segs,
            ok,
            k,
        ) by {
            assert(r.events[k - i] == rest.events[k - i - 1]);
        }
    }
}

/// For a pipeline of external commands only, the run records one event per
/// segment: a spawn wired as [`expected_event`] says where the outcome was
/// success, a failure otherwise; the interpreter never exits mid-line, and
/// it blocks at the end exactly when the last segment's spawn succeeded.
pub proof fn lemma_external_run_shape(segs: Seq<Seq<Seq<char>>>, ok: Seq<bool>)
    requires
        ok.len() == segs.len(),
        all_wf(segs),
        all_external(segs),
    ensures
        run(segs, ok).events.len() == segs.len(),
        !run(segs, ok).exited,
        forall|k: int| 0 <= k < segs.len() ==> run(segs, ok).events[k] == expected_event(segs, ok, k),
        run(segs, ok).waits == (segs.len() > 0 && ok[segs.len() - 1]),
{
    lemma_external_shape_from(segs, ok, 0);
}

proof fn lemma_spawn_count_full(events: Seq<Event>)
    requires
        forall|k: int| 0 <= k < events.len() ==> #[trigger] events[k] is Spawned,
    ensures
        spawn_count(events) == events.len(),
    decreases events.len(),
{
    if events.len() > 0 {
        assert(forall|k: int|
            0 <= k < events.drop_last().len() ==> #[trigger] events.drop_last()[k] is Spawned);
        lemma_spawn_count_full(events.drop_last());
    }
}

/// A pipeline of N external segments whose spawns all succeed spawns
/// exactly N processes; segment 0 reads the interpreter's standard input
/// and every later segment reads the output pipe of the segment before it;
/// every segment but the last writes a fresh pipe and the last writes the
/// terminal; and the interpreter blocks once, at the end.
pub proof fn lemma_clean_pipeline(segs: Seq<Seq<Seq<char>>>, ok: Seq<bool>)
    requires
        ok.len() == segs.len(),
        all_wf(segs),
        all_external(segs),
        segs.len() >= 1,
        forall|k: int| 0 <= k < ok.len() ==> #[trigger] ok[k],
    ensures
        run(segs, ok).events.len() == segs.len(),
        spawn_count(run(segs, ok).events) == segs.len(),
        forall|k: int|
            0 <= k < segs.len() ==> run(segs, ok).events[k] == (Event::Spawned {
                idx: k,
                program: segs[k][0],
                args: segs[k].skip(1),
                input: if k == 0 {
                    InWire::Inherit
                } else {
                    InWire::FromSeg(k - 1)
                },
                output: if k == segs.len() - 1 {
                    OutWire::Inherit
                } else {
                    OutWire::Pipe
                },
            }),
        run(segs, ok).waits,
        !run(segs, ok).exited,
{
    lemma_external_run_shape(segs, ok);
    let r = run(segs, ok);
    assert forall|k: int| 0 <= k < r.events.len() implies #[trigger] r.events[k] is Spawned by {
        assert(r.events[k] == expected_event(segs, ok, k));
    }
    lemma_spawn_count_full(r.events);
    assert forall|k: int| 0 <= k < segs.len() implies r.events[k] == (Event::Spawned {
        idx: k,
        program: segs[k][0],
        args: segs[k].skip(1),
        input: if k == 0 {
            InWire::Inherit
        } else {
            InWire::FromSeg(k - 1)
        },
        output: if k == segs.len() - 1 {
            OutWire::Inherit
        } else {
            OutWire::Pipe
        },
    }) by {
        assert(r.events[k] == expected_event(segs, ok, k));
        if k > 0 {
            assert(ok[k - 1]);
        }
    }
}

/// Chain-breaking: when a segment's spawn fails, the failure is recorded
/// and reported, and the next segment — if its own spawn succeeds — reads
/// the interpreter's inherited standard input, not a dead pipe.
pub proof fn lemma_failed_spawn_breaks_chain(segs: Seq<Seq<Seq<char>>>, ok: Seq<bool>, i: int)
    requires
        ok.len() == segs.len(),
        all_wf(segs),
        all_external(segs),
        0 <= i < segs.len() - 1,
        !ok[i],
        ok[i + 1],
    ensures
        run(segs, ok).events[i] == (Event::SpawnFailed { idx: i, program: segs[i][0] }),
        run(segs, ok).events[i + 1] == (Event::Spawned {
            idx: i + 1,
            program: segs[i + 1][0],
            args: segs[i + 1].skip(1),
            input: InWire::Inherit,
            output: if i + 1 == segs.len() - 1 {
                OutWire::Inherit
            } else {
                OutWire::Pipe
            },
        }),
{
    lemma_external_run_shape(segs, ok);
    assert(run(segs, ok).events[i] == expected_event(segs, ok, i));
    assert(run(segs, ok).events[i + 1] == expected_event(segs, ok, i + 1));
}

proof fn lemma_exit_stops_from(segs: Seq<Seq<Seq<char>>>, ok: Seq<bool>, e: int, i: int, prev: Option<int>)
    requires
        ok.len() == segs.len(),
        0 <= i <= e < segs.len(),
        kind_of(segs[e][0]) == SegmentKind::Exit,
        forall|k: int| 0 <= k < e ==> #[trigger] kind_of(segs[k][0]) != SegmentKind::Exit,
    ensures
        run_from(segs, ok, i, prev).exited,
        !run_from(segs, ok, i, prev).waits,
        (run_from(segs, ok, i, prev).prev is None),
        run_from(segs, ok, i, prev).events.len() == e + 1 - i,
        run_from(segs, ok, i, prev).events[e - i] == Event::Exited,
    decreases e - i,
{
    if i < e {
        assert(kind_of(segs[i][0]) != SegmentKind::Exit);
        match kind_of(segs[i][0]) {
            SegmentKind::ChangeDir => {
                lemma_exit_stops_from(segs, ok, e, i + 1, None);
            },
            SegmentKind::Exit => {
            },
            SegmentKind::External => {
                if ok[i] {
                    lemma_exit_stops_from(segs, ok, e, i + 1, Some(i));
                } else {
                    lemma_exit_stops_from(segs, ok, e, i + 1, None);
                }
            },
        }
    }
}

/// The exit built-in stops the run where it stands, whatever its position:
/// the run ends with the exit event, no segment after it is processed, the
/// interpreter reports termination, and it does not block on any pending
/// process.
pub proof fn lemma_exit_stops(segs: Seq<Seq<Seq<char>>>, ok: Seq<bool>, e: int)
    requires
        ok.len() == segs.len(),
        0 <= e < segs.len(),
        kind_of(segs[e][0]) == SegmentKind::Exit,
        forall|k: int| 0 <= k < e ==> #[trigger] kind_of(segs[k][0]) != SegmentKind::Exit,
    ensures
        run(segs, ok).exited,
        !run(segs, ok).waits,
        (run(segs, ok).prev is None),
        run(segs, ok).events.len() == e + 1,
        run(segs, ok).events[e] == Event::Exited,
{
    lemma_exit_stops_from(segs, ok, e, 0, None);
}

/// A line whose first segment is the exit built-in spawns nothing at all.
pub proof fn lemma_exit_first_spawns_nothing(segs: Seq<Seq<Seq<char>>>, ok: Seq<bool>)
    requires
        ok.len() == segs.len(),
        segs.len() >= 1,
        kind_of(segs[0][0]) == SegmentKind::Exit,
    ensures
        run(segs, ok).events =~= seq![Event::Exited],
        spawn_count(run(segs, ok).events) == 0,
        run(segs, ok).exited,
        !run(segs, ok).waits,
{
    lemma_exit_stops(segs, ok, 0);
    let r = run(segs, ok);
    assert(r.events =~= seq![Event::Exited]);
    assert(spawn_count(r.events) == spawn_count(r.events.drop_last()));
    assert(r.events.drop_last().len() == 0);
}

/// An empty input line yields an empty pipeline: no event, no spawned
/// process, no exit, and nothing to wait on.
pub proof fn lemma_empty_line(ok: Seq<bool>)
    ensures
        run(Seq::empty(), ok).events.len() == 0,
        spawn_count(run(Seq::empty(), ok).events) == 0,
        !run(Seq::empty(), ok).exited,
        (run(Seq::empty(), ok).prev is None),
        !run(Seq::empty(), ok).waits,
{
}

proof fn lemma_wait_iff_pending_from(segs: Seq<Seq<Seq<char>>>, ok: Seq<bool>, i: int, prev: Option<int>)
    requires
        0 <= i <= segs.len(),
    ensures
        run_from(segs, ok, i, prev).waits == (!run_from(segs, ok, i, prev).exited
            && run_from(segs, ok, i, prev).prev is Some),
    decreases segs.len() - i,
{
    if i < segs.len() {
        match kind_of(segs[i][0]) {
            SegmentKind::ChangeDir => {
                lemma_wait_iff_pending_from(segs, ok, i + 1, None);
            },
            SegmentKind::Exit => {
            },
            SegmentKind::External => {
                if ok[i] {
                    lemma_wait_iff_pending_from(segs, ok, i + 1, Some(i));
                } else {
                    lemma_wait_iff_pending_from(segs, ok, i + 1, None);
                }
            },
        }
    }
}

/// No dangling handle: every run either exits the interpreter — leaving no
/// pending process — or blocks at the end exactly when one process's
/// output pipe is still pending. Together with the run being a pure
/// function of the segments and the spawn outcomes, repeating a pipeline
/// repeats its behaviour with nothing carried over.
pub proof fn lemma_no_dangling_handle(segs: Seq<Seq<Seq<char>>>, ok: Seq<bool>)
    ensures
        run(segs, ok).waits == (!run(segs, ok).exited && run(segs, ok).prev is Some),
        run(segs, ok).exited ==> (run(segs, ok).prev is None),
{
    lemma_wait_iff_pending_from(segs, ok, 0, None);
    if run(segs, ok).exited {
        lemma_exited_no_pending(segs, ok, 0, None);
    }
}

proof fn lemma_exited_no_pending(segs: Seq<Seq<Seq<char>>>, ok: Seq<bool>, i: int, prev: Option<int>)
    requires
        0 <= i <= segs.len(),
    ensures
        run_from(segs, ok, i, prev).exited ==> run_from(segs, ok, i, prev).prev is None,
    decreases segs.len() - i,
{
    if i < segs.len() {
        match kind_of(segs[i][0]) {
            SegmentKind::ChangeDir => {
                lemma_exited_no_pending(segs, ok, i + 1, None);
            },
            SegmentKind::Exit => {
            },
            SegmentKind::External => {
                if ok[i] {
                    lemma_exited_no_pending(segs, ok, i + 1, Some(i));
                } else {
                    lemma_exited_no_pending(segs, ok, i + 1, None);
                }
            },
        }
    }
}

} // verus!
