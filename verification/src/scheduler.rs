//! The reconciliation scheduler: rebuilds per-source known-title sets by
//! replaying the channel transcript, plans each polling tick's
//! notifications, and decides when a full resync is due. The transcript is
//! the only durable store: after any successful send the in-memory sets are
//! stale and must be rebuilt from it before the next diff.
use vstd::prelude::*;
use crate::adc::{Adc, AdcEvent, AdcEventView, adc_plan};
use crate::common::{EventFinder, Notification, NotificationView, SourceError, TranscriptMessage};
use crate::driving_sports::{DrivingSports, DrivingSportsEvent, DrivingSportsEventView, ds_plan};

verus! {

/// The titles a source recovers from a transcript: one for every message
/// authored by the bot itself whose text matches the source's format.
pub open spec fn replay_titles<F: EventFinder>(msgs: Seq<TranscriptMessage>) -> Set<Seq<char>>
    decreases msgs.len(),
{
    if msgs.len() == 0 {
        Set::empty()
    } else {
        let rest = replay_titles::<F>(msgs.drop_last());
        let m = msgs.last();
        if m.author_is_self {
            match F::parse_message(m.content@) {
                Some(t) => rest.insert(t),
                None => rest,
            }
        } else {
            rest
        }
    }
}

/// Feeds every self-authored message of the transcript into one source's
/// replay, in order; the resulting known-title set does not depend on that
/// order.
pub fn replay_source<F: EventFinder>(source: &mut F, transcript: &Vec<TranscriptMessage>)
    ensures
        final(source).known_titles() == old(source).known_titles() + replay_titles::<F>(
            transcript@,
        ),
{
    let n = transcript.len();
    let mut i: usize = 0;
    proof {
        assert(source.known_titles() =~= old(source).known_titles() + replay_titles::<F>(
            transcript@.subrange(0, 0),
        ));
    }
    while i < n
        invariant
            n == transcript.len(),
            i <= n,
            source.known_titles() == old(source).known_titles() + replay_titles::<F>(
                transcript@.subrange(0, i as int),
            ),
        decreases n - i,
    {
        if transcript[i].author_is_self {
            source.previous_broadcast(transcript[i].content.as_str());
        }
        proof {
            assert(transcript@.subrange(0, i + 1).drop_last() =~= transcript@.subrange(0, i as int));
            assert(transcript@.subrange(0, i + 1).last() == transcript@[i as int]);
            assert(source.known_titles() =~= old(source).known_titles() + replay_titles::<F>(
                transcript@.subrange(0, i + 1),
            ));
        }
        i += 1;
    }
    proof {
        assert(transcript@.subrange(0, n as int) =~= transcript@);
    }
}

/// Replaying a transcript into a fresh (empty) state a second time adds
/// nothing: one replay and two replays in sequence yield the identical
/// known-title set.
pub proof fn lemma_replay_idempotent<F: EventFinder>(transcript: Seq<TranscriptMessage>)
    ensures
        Set::<Seq<char>>::empty() + replay_titles::<F>(transcript) + replay_titles::<F>(transcript)
            == Set::<Seq<char>>::empty() + replay_titles::<F>(transcript),
{
    assert(Set::<Seq<char>>::empty() + replay_titles::<F>(transcript) + replay_titles::<F>(
        transcript,
    ) =~= Set::<Seq<char>>::empty() + replay_titles::<F>(transcript));
}

/// The two states of the reconciliation loop. There is no terminal state.
#[derive(Clone, Copy, PartialEq, Eq, Debug, Structural)]
pub enum SchedulerPhase {
    /// Known-title sets are stale and must be rebuilt from the transcript.
    Resyncing,
    /// Known-title sets are current; discovery ticks may run.
    Polling,
}

/// The phase after a polling tick: a tick during which some send succeeded
/// leaves the transcript changed, so the next pass must resync.
pub open spec fn next_phase(broadcast_occurred: bool) -> SchedulerPhase {
    if broadcast_occurred {
        SchedulerPhase::Resyncing
    } else {
        SchedulerPhase::Polling
    }
}

/// What one tick wants to send, per source: the notifications for the newly
/// discovered events, or that source's isolated discovery error.
pub struct TickPlan {
    pub adc: Result<Vec<Notification>, SourceError>,
    pub driving_sports: Result<Vec<Notification>, SourceError>,
}

/// View of a per-source notification batch result.
pub open spec fn notifs_result_view(r: Result<Vec<Notification>, SourceError>) -> Result<
    Seq<NotificationView>,
    SourceError,
> {
    match r {
        Ok(ns) => Ok(ns@.map_values(|n: Notification| n@)),
        Err(e) => Err(e),
    }
}

/// The ADC half of a tick plan, at the specification level.
pub open spec fn adc_tick_plan(
    outcome: Result<Seq<AdcEventView>, SourceError>,
    known: Set<Seq<char>>,
) -> Result<Seq<NotificationView>, SourceError> {
    match outcome {
        Ok(events) => Ok(adc_plan(events, known)),
        Err(e) => Err(e),
    }
}

/// The DrivingSports half of a tick plan, at the specification level.
pub open spec fn ds_tick_plan(
    outcome: Result<Seq<DrivingSportsEventView>, SourceError>,
    known: Set<Seq<char>>,
) -> Result<Seq<NotificationView>, SourceError> {
    match outcome {
        Ok(events) => Ok(ds_plan(events, known)),
        Err(e) => Err(e),
    }
}

/// A whole tick plan, at the specification level: each half is a function
/// of that source's own outcome and known titles alone.
pub open spec fn tick_plan_views(
    adc_outcome: Result<Seq<AdcEventView>, SourceError>,
    ds_outcome: Result<Seq<DrivingSportsEventView>, SourceError>,
    known_adc: Set<Seq<char>>,
    known_ds: Set<Seq<char>>,
) -> (Result<Seq<NotificationView>, SourceError>, Result<Seq<NotificationView>, SourceError>) {
    (adc_tick_plan(adc_outcome, known_adc), ds_tick_plan(ds_outcome, known_ds))
}

/// View of a per-source discovery outcome.
pub open spec fn adc_outcome_view(o: Result<Vec<AdcEvent>, SourceError>) -> Result<
    Seq<AdcEventView>,
    SourceError,
> {
    match o {
        Ok(events) => Ok(events@.map_values(|e: AdcEvent| e@)),
        Err(e) => Err(e),
    }
}

/// View of a per-source discovery outcome.
pub open spec fn ds_outcome_view(o: Result<Vec<DrivingSportsEvent>, SourceError>) -> Result<
    Seq<DrivingSportsEventView>,
    SourceError,
> {
    match o {
        Ok(events) => Ok(events@.map_values(|e: DrivingSportsEvent| e@)),
        Err(e) => Err(e),
    }
}

/// Failure isolation across sources: whatever happens to one source's
/// discovery — success or failure — the other source's half of the tick
/// plan is unchanged, and a failed source's half is exactly its own error,
/// with no notifications.
pub proof fn lemma_source_isolation(
    adc_outcome_a: Result<Seq<AdcEventView>, SourceError>,
    adc_outcome_b: Result<Seq<AdcEventView>, SourceError>,
    ds_outcome: Result<Seq<DrivingSportsEventView>, SourceError>,
    known_adc: Set<Seq<char>>,
    known_ds: Set<Seq<char>>,
)
    ensures
        tick_plan_views(adc_outcome_a, ds_outcome, known_adc, known_ds).1 == tick_plan_views(
            adc_outcome_b,
            ds_outcome,
            known_adc,
            known_ds,
        ).1,
        match adc_outcome_a {
            Err(e) => tick_plan_views(adc_outcome_a, ds_outcome, known_adc, known_ds).0
                == Result::<Seq<NotificationView>, SourceError>::Err(e),
            Ok(_) => true,
        },
{
}

/// The reconciliation scheduler: the loop phase and the two registered
/// source adapters with their known-title state.
pub struct Scheduler {
    pub phase: SchedulerPhase,
    pub adc: Adc,
    pub driving_sports: DrivingSports,
}

impl Scheduler {
    /// A fresh scheduler: nothing known yet, so the first pass must resync.
    pub fn new() -> (s: Scheduler)
        ensures
            s.phase is Resyncing,
            s.adc.known_titles() == Set::<Seq<char>>::empty(),
            s.driving_sports.known_titles() == Set::<Seq<char>>::empty(),
    {
        Scheduler {
            phase: SchedulerPhase::Resyncing,
            adc: Adc::new(),
            driving_sports: DrivingSports::new(),
        }
    }

    /// A full resync: every source's known-title set is discarded and
    /// rebuilt, from an empty set, out of the transcript alone; then polling
    /// may begin.
    pub fn resync(&mut self, transcript: &Vec<TranscriptMessage>)
        requires
            old(self).phase is Resyncing,
        ensures
            final(self).phase is Polling,
            final(self).adc.known_titles() == replay_titles::<Adc>(transcript@),
            final(self).driving_sports.known_titles() == replay_titles::<DrivingSports>(
                transcript@,
            ),
    {
        self.adc = Adc::new();
        self.driving_sports = DrivingSports::new();
        replay_source(&mut self.adc, transcript);
        replay_source(&mut self.driving_sports, transcript);
        self.phase = SchedulerPhase::Polling;
        proof {
            assert(self.adc.known_titles() =~= replay_titles::<Adc>(transcript@));
            assert(self.driving_sports.known_titles() =~= replay_titles::<DrivingSports>(
                transcript@,
            ));
        }
    }

    /// Plans one polling tick from both sources' discovery outcomes: per
    /// source, the notifications for its newly discovered events, or its
    /// own isolated error. Requires current (polled) known-title sets.
    pub fn plan_tick(
        &self,
        adc_outcome: Result<Vec<AdcEvent>, SourceError>,
        ds_outcome: Result<Vec<DrivingSportsEvent>, SourceError>,
    ) -> (r: TickPlan)
        requires
            self.phase is Polling,
        ensures
            notifs_result_view(r.adc) == adc_tick_plan(
                adc_outcome_view(adc_outcome),
                self.adc.known_titles(),
            ),
            notifs_result_view(r.driving_sports) == ds_tick_plan(
                ds_outcome_view(ds_outcome),
                self.driving_sports.known_titles(),
            ),
    {
        let adc = match adc_outcome {
            Ok(events) => Ok(self.adc.new_broadcasts(events)),
            Err(e) => Err(e),
        };
        let driving_sports = match ds_outcome {
            Ok(events) => Ok(self.driving_sports.new_broadcasts(events)),
            Err(e) => Err(e),
        };
        TickPlan { adc, driving_sports }
    }

    /// Ends one polling tick. A tick during which any send succeeded leaves
    /// the scheduler in `Resyncing`: the transcript changed, so the very
    /// next pass must rebuild the known-title sets before computing another
    /// diff. Otherwise polling continues.
    pub fn finish_tick(&mut self, broadcast_occurred: bool)
        requires
            old(self).phase is Polling,
        ensures
            final(self).phase == next_phase(broadcast_occurred),
            final(self).adc == old(self).adc,
            final(self).driving_sports == old(self).driving_sports,
    {
        if broadcast_occurred {
            self.phase = SchedulerPhase::Resyncing;
        }
    }
}

/// After any successful send, the scheduler is not in `Polling`: since
/// `plan_tick` demands the `Polling` phase and only `resync` restores it,
/// a full resync must come before the next diff.
pub proof fn lemma_resync_before_next_diff(broadcast_occurred: bool)
    ensures
        broadcast_occurred ==> next_phase(broadcast_occurred) != SchedulerPhase::Polling,
{
}

} // verus!
