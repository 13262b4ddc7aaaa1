//! Progress reporting for batch operations.
//!
//! A batch emits, for N targets: `Started{total: N}`; for a customize batch
//! one `Rendering` before any target; then for each target i in input order
//! `Processing{i}` immediately followed by exactly one of `FolderComplete{i}`
//! or `FolderFailed{i}`; and finally `Completed{succeeded, failed}` with
//! `succeeded + failed == N`, for every N including 0. The whole protocol is
//! pinned by [`spec_batch_trace`], and the ordering and counting laws are
//! proved below.
//!
//! Delivery over the channel is best-effort: an event is dropped silently
//! when the channel is full or closed. Callers that need every event must
//! size the channel for the whole trace — 2 N + 3 events for a customize
//! batch, 2 N + 2 for a reset batch — or drain it during the batch.

use vstd::prelude::*;

verus! {

/// Progress event for batch folder operations.
#[derive(Debug, Clone)]
pub enum Progress {
    /// The batch has started; `total` targets will be processed.
    Started { total: usize },
    /// Rendering the icon set; emitted once, before any target.
    Rendering,
    /// Icon rendering failed.
    RenderFailed { error: String },
    /// A target is being processed.
    Processing { current: usize, path: String },
    /// A target was processed successfully.
    FolderComplete { index: usize, path: String },
    /// A target failed; carries the cause.
    FolderFailed { index: usize, path: String, error: String },
    /// The batch is done; `succeeded + failed` equals the total.
    Completed { succeeded: usize, failed: usize },
}

/// The mathematical view of a progress event.
pub enum ProgressV {
    Started { total: int },
    Rendering,
    RenderFailed { error: Seq<char> },
    Processing { current: int, path: Seq<char> },
    FolderComplete { index: int, path: Seq<char> },
    FolderFailed { index: int, path: Seq<char>, error: Seq<char> },
    Completed { succeeded: int, failed: int },
}

impl View for Progress {
    type V = ProgressV;

    open spec fn view(&self) -> ProgressV {
        match self {
            Progress::Started { total } => ProgressV::Started { total: *total as int },
            Progress::Rendering => ProgressV::Rendering,
            Progress::RenderFailed { error } => ProgressV::RenderFailed { error: error@ },
            Progress::Processing { current, path } => ProgressV::Processing {
                current: *current as int,
                path: path@,
            },
            Progress::FolderComplete { index, path } => ProgressV::FolderComplete {
                index: *index as int,
                path: path@,
            },
            Progress::FolderFailed { index, path, error } => ProgressV::FolderFailed {
                index: *index as int,
                path: path@,
                error: error@,
            },
            Progress::Completed { succeeded, failed } => ProgressV::Completed {
                succeeded: *succeeded as int,
                failed: *failed as int,
            },
        }
    }
}

/// The views of a sequence of events.
pub open spec fn events_view(s: Seq<Progress>) -> Seq<ProgressV> {
    Seq::new(s.len(), |i: int| s[i]@)
}

/// The per-target outcome: `None` for success, the error message otherwise.
pub type Outcome = Option<Seq<char>>;

/// The two events of one target: Processing, then its completion event.
pub open spec fn spec_target_events(i: int, path: Seq<char>, outcome: Outcome) -> Seq<ProgressV> {
    match outcome {
        Option::None => seq![
            ProgressV::Processing { current: i, path },
            ProgressV::FolderComplete { index: i, path },
        ],
        Option::Some(error) => seq![
            ProgressV::Processing { current: i, path },
            ProgressV::FolderFailed { index: i, path, error },
        ],
    }
}

/// The events of the first `n` targets, in input order.
pub open spec fn spec_batch_body(paths: Seq<Seq<char>>, outs: Seq<Outcome>, n: int) -> Seq<
    ProgressV,
>
    decreases n,
{
    if n <= 0 {
        Seq::empty()
    } else {
        spec_batch_body(paths, outs, n - 1) + spec_target_events(n - 1, paths[n - 1], outs[n - 1])
    }
}

/// How many of the outcomes are successes.
pub open spec fn count_ok(outs: Seq<Outcome>) -> int
    decreases outs.len(),
{
    if outs.len() == 0 {
        0
    } else {
        count_ok(outs.drop_last()) + if outs.last() is None {
            1int
        } else {
            0int
        }
    }
}

/// The full event trace of a batch over `paths` with the given outcomes;
/// `rendering` tells whether a Rendering event is emitted after Started.
pub open spec fn spec_batch_trace(
    paths: Seq<Seq<char>>,
    outs: Seq<Outcome>,
    rendering: bool,
) -> Seq<ProgressV> {
    seq![ProgressV::Started { total: paths.len() as int }] + (if rendering {
        seq![ProgressV::Rendering]
    } else {
        Seq::<ProgressV>::empty()
    }) + spec_batch_body(paths, outs, paths.len() as int) + seq![
        ProgressV::Completed {
            succeeded: count_ok(outs),
            failed: paths.len() - count_ok(outs),
        },
    ]
}

/// The success count lies between 0 and the number of outcomes.
pub proof fn lemma_count_ok_bounds(outs: Seq<Outcome>)
    ensures
        0 <= count_ok(outs) <= outs.len(),
    decreases outs.len(),
{
    if outs.len() > 0 {
        lemma_count_ok_bounds(outs.drop_last());
    }
}

proof fn lemma_batch_body_len(paths: Seq<Seq<char>>, outs: Seq<Outcome>, n: int)
    requires
        n >= 0,
    ensures
        spec_batch_body(paths, outs, n).len() == 2 * n,
    decreases n,
{
    if n > 0 {
        lemma_batch_body_len(paths, outs, n - 1);
    }
}

proof fn lemma_batch_body_index(paths: Seq<Seq<char>>, outs: Seq<Outcome>, n: int, i: int)
    requires
        0 <= i < n,
    ensures
        spec_batch_body(paths, outs, n).len() == 2 * n,
        spec_batch_body(paths, outs, n)[2 * i] == (ProgressV::Processing {
            current: i,
            path: paths[i],
        }),
        spec_batch_body(paths, outs, n)[2 * i + 1] == (match outs[i] {
            Option::None => ProgressV::FolderComplete { index: i, path: paths[i] },
            Option::Some(error) => ProgressV::FolderFailed { index: i, path: paths[i], error },
        }),
    decreases n,
{
    lemma_batch_body_len(paths, outs, n);
    if i < n - 1 {
        lemma_batch_body_index(paths, outs, n - 1, i);
    } else {
        lemma_batch_body_len(paths, outs, n - 1);
    }
}

/// The first `n` targets' events depend only on the first `n` outcomes.
pub proof fn lemma_batch_body_congruence(
    paths: Seq<Seq<char>>,
    o1: Seq<Outcome>,
    o2: Seq<Outcome>,
    n: int,
)
    requires
        forall|j: int| 0 <= j < n ==> o1[j] == o2[j],
    ensures
        spec_batch_body(paths, o1, n) == spec_batch_body(paths, o2, n),
    decreases n,
{
    if n > 0 {
        lemma_batch_body_congruence(paths, o1, o2, n - 1);
    }
}

/// Event ordering: the trace runs Started, then (for a customize batch)
/// Rendering, then for every target i, in input order, `Processing{i}`
/// immediately followed by exactly one of `FolderComplete{i}` or
/// `FolderFailed{i}` — before any event of target i + 1 — and ends with the
/// one Completed event.
pub proof fn lemma_trace_ordering(
    paths: Seq<Seq<char>>,
    outs: Seq<Outcome>,
    rendering: bool,
    i: int,
)
    requires
        outs.len() == paths.len(),
        0 <= i < paths.len(),
    ensures
        ({
            let t = spec_batch_trace(paths, outs, rendering);
            let base: int = if rendering {
                2
            } else {
                1
            };
            &&& t.len() == base + 2 * paths.len() + 1
            &&& t[0] == ProgressV::Started { total: paths.len() as int }
            &&& (rendering ==> t[1] == ProgressV::Rendering)
            &&& t[base + 2 * i] == ProgressV::Processing { current: i, path: paths[i] }
            &&& t[base + 2 * i + 1] == (match outs[i] {
                Option::None => ProgressV::FolderComplete { index: i, path: paths[i] },
                Option::Some(error) => ProgressV::FolderFailed {
                    index: i,
                    path: paths[i],
                    error,
                },
            })
        }),
{
    lemma_batch_body_index(paths, outs, paths.len() as int, i);
}

/// Completed invariant: every batch trace, for every total including 0,
/// ends with exactly one Completed event whose success and failure counts
/// sum to the number of targets.
pub proof fn lemma_trace_completed(paths: Seq<Seq<char>>, outs: Seq<Outcome>, rendering: bool)
    ensures
        ({
            let t = spec_batch_trace(paths, outs, rendering);
            &&& t.len() >= 2
            &&& t.last() == ProgressV::Completed {
                succeeded: count_ok(outs),
                failed: paths.len() - count_ok(outs),
            }
            &&& count_ok(outs) + (paths.len() - count_ok(outs)) == paths.len()
            &&& outs.len() == paths.len() ==> 0 <= count_ok(outs) <= paths.len()
        }),
{
    lemma_batch_body_len(paths, outs, paths.len() as int);
    lemma_count_ok_bounds(outs);
}

// The channel types come from tokio; the library promises nothing of
// delivery, which is best-effort by design.
#[verifier::external_type_specification]
#[verifier::external_body]
#[verifier::reject_recursive_types(T)]
pub struct ExSender<T>(tokio::sync::mpsc::Sender<T>);

#[verifier::external_type_specification]
#[verifier::external_body]
#[verifier::reject_recursive_types(T)]
pub struct ExReceiver<T>(tokio::sync::mpsc::Receiver<T>);

/// A sender for progress updates.
pub type ProgressSender = tokio::sync::mpsc::Sender<Progress>;

/// A receiver for progress updates.
pub type ProgressReceiver = tokio::sync::mpsc::Receiver<Progress>;

/// Creates a new bounded progress channel with the given buffer size.
///
/// Relies on tokio::sync::mpsc::channel. tokio panics on a zero buffer and
/// on a buffer above its semaphore's permit limit, so those inputs are
/// excluded here.
#[verifier::external_body]
pub fn progress_channel(buffer: usize) -> (r: (ProgressSender, ProgressReceiver))
    requires
        1 <= buffer <= usize::MAX >> 3,
{
    tokio::sync::mpsc::channel(buffer)
}

/// Relies on tokio's Sender::try_send: best-effort delivery; the event is
/// dropped silently when the channel is full or closed.
#[verifier::external_body]
pub(crate) fn offer_progress(progress: &ProgressSender, event: Progress) {
    let _ = progress.try_send(event);
}

/// Sends the event best-effort and appends it to the local record of what
/// the batch emitted.
pub(crate) fn emit(progress: &ProgressSender, events: &mut Vec<Progress>, event: Progress)
    ensures
        final(events)@ == old(events)@.push(event),
{
    offer_progress(progress, event.clone());
    events.push(event);
}

} // verus!
