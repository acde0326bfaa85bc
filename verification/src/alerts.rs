//! Which candidates to report, and what is noted when that has been done.

use crate::detector::{CandidateResult, CandidateView};
use crate::ordering;
use crate::state;
use crate::state::AlertState;
use vstd::prelude::*;

verus! {

/// The candidates whose latest spike has not been reported, in their order.
pub open spec fn unseen(
    spikes: Map<Seq<char>, i64>,
    candidates: Seq<CandidateView>,
    interval: Seq<char>,
) -> Seq<CandidateView> {
    candidates.filter(
        |candidate: CandidateView| !spikes.contains_key(state::key_of(candidate, interval)),
    )
}

/// The reported spikes once those of the candidates have been noted, one after the
/// other.
pub open spec fn noted(
    spikes: Map<Seq<char>, i64>,
    candidates: Seq<CandidateView>,
    interval: Seq<char>,
) -> Map<Seq<char>, i64>
    decreases candidates.len(),
{
    if candidates.len() == 0 {
        spikes
    } else {
        noted(spikes, candidates.drop_last(), interval).insert(
            state::key_of(candidates.last(), interval),
            candidates.last().latest_spike_time_ms,
        )
    }
}

/// What to do about candidates.
#[derive(PartialEq, Debug)]
pub enum AlertAction {
    /// There is nothing new.
    Nothing,
    /// Print these, and neither send nor note anything.
    Print(Vec<CandidateResult>),
    /// Send these, and note them as reported once they are sent.
    Send(Vec<CandidateResult>),
}

/// The contents of an [`AlertAction`].
pub enum AlertPlan {
    Nothing,
    Print(Seq<CandidateView>),
    Send(Seq<CandidateView>),
}

impl View for AlertAction {
    type V = AlertPlan;

    open spec fn view(&self) -> AlertPlan {
        match self {
            AlertAction::Nothing => AlertPlan::Nothing,
            AlertAction::Print(candidates) => AlertPlan::Print(ordering::views(candidates@)),
            AlertAction::Send(candidates) => AlertPlan::Send(ordering::views(candidates@)),
        }
    }
}

/// The plan for candidates: those not reported yet are printed in a dry run and sent
/// otherwise.
pub open spec fn planned(
    spikes: Map<Seq<char>, i64>,
    candidates: Seq<CandidateView>,
    interval: Seq<char>,
    dry_run: bool,
) -> AlertPlan {
    let fresh = unseen(spikes, candidates, interval);
    if fresh.len() == 0 {
        AlertPlan::Nothing
    } else if dry_run {
        AlertPlan::Print(fresh)
    } else {
        AlertPlan::Send(fresh)
    }
}

/// Decides what to do about candidates.
pub fn plan_alerts(
    state: &AlertState,
    candidates: &Vec<CandidateResult>,
    interval: &str,
    dry_run: bool,
) -> (result: AlertAction)
    ensures
        result@ == planned(state@, ordering::views(candidates@), interval@, dry_run),
{
    let ghost all = ordering::views(candidates@);
    let mut fresh: Vec<CandidateResult> = Vec::new();
    let mut i: usize = 0;
    assert(all.take(0) =~= Seq::<CandidateView>::empty());
    assert(ordering::views(fresh@) =~= unseen(state@, all.take(0), interval@));
    while i < candidates.len()
        invariant
            i <= candidates@.len(),
            all == ordering::views(candidates@),
            ordering::views(fresh@) == unseen(state@, all.take(i as int), interval@),
        decreases candidates@.len() - i,
    {
        let ghost before = fresh@;
        proof {
            broadcast use vstd::seq::Seq::lemma_filter_push;

            assert(all.take(i + 1) =~= all.take(i as int).push(all[i as int]));
        }
        if !state.is_alerted(&candidates[i], interval) {
            fresh.push(candidates[i].clone());
            assert(ordering::views(fresh@) =~= ordering::views(before).push(all[i as int]));
        }
        i += 1;
    }
    assert(all.take(i as int) =~= all);
    assert(ordering::views(fresh@).len() == fresh@.len());
    if fresh.len() == 0 {
        AlertAction::Nothing
    } else if dry_run {
        AlertAction::Print(fresh)
    } else {
        AlertAction::Send(fresh)
    }
}

/// Decides what to do about one candidate.
pub fn plan_alert(
    state: &AlertState,
    candidate: &CandidateResult,
    interval: &str,
    dry_run: bool,
) -> (result: AlertAction)
    ensures
        result@ == planned(state@, seq![candidate@], interval@, dry_run),
{
    let candidates: Vec<CandidateResult> = vec![candidate.clone()];
    assert(ordering::views(candidates@) =~= seq![candidate@]);
    plan_alerts(state, &candidates, interval, dry_run)
}

/// Notes that candidates have been reported.
pub fn note_sent(state: &mut AlertState, sent: &Vec<CandidateResult>, interval: &str)
    ensures
        final(state)@ == noted(old(state)@, ordering::views(sent@), interval@),
{
    let ghost spikes = state@;
    let ghost all = ordering::views(sent@);
    let mut i: usize = 0;
    assert(all.take(0) =~= Seq::<CandidateView>::empty());
    while i < sent.len()
        invariant
            i <= sent@.len(),
            all == ordering::views(sent@),
            state@ == noted(spikes, all.take(i as int), interval@),
        decreases sent@.len() - i,
    {
        state.mark_alerted(&sent[i], interval);
        assert(all.take(i + 1).drop_last() =~= all.take(i as int));
        i += 1;
    }
    assert(all.take(i as int) =~= all);
}

/// The spikes that are noted stay noted, and those of the candidates are noted too.
proof fn lemma_noted(
    spikes: Map<Seq<char>, i64>,
    candidates: Seq<CandidateView>,
    interval: Seq<char>,
    key: Seq<char>,
)
    ensures
        noted(spikes, candidates, interval).contains_key(key) <==> spikes.contains_key(key)
            || exists|i: int|
            0 <= i < candidates.len() && key == state::key_of(#[trigger] candidates[i], interval),
    decreases candidates.len(),
{
    if candidates.len() > 0 {
        let rest = candidates.drop_last();
        lemma_noted(spikes, rest, interval, key);
        if exists|i: int|
            0 <= i < candidates.len() && key == state::key_of(#[trigger] candidates[i], interval) {
            let i = choose|i: int|
                0 <= i < candidates.len() && key == state::key_of(
                    #[trigger] candidates[i],
                    interval,
                );
            if i < rest.len() {
                assert(key == state::key_of(rest[i], interval));
            }
        }
        if exists|i: int| 0 <= i < rest.len() && key == state::key_of(#[trigger] rest[i], interval) {
            let i = choose|i: int|
                0 <= i < rest.len() && key == state::key_of(#[trigger] rest[i], interval);
            assert(key == state::key_of(candidates[i], interval));
        }
        assert(candidates[candidates.len() - 1] == candidates.last());
    }
}

/// No spike is reported twice: once what was to be sent has been sent and noted, the
/// plan for the same candidates is to do nothing.
pub proof fn law_nothing_is_sent_twice(
    spikes: Map<Seq<char>, i64>,
    candidates: Seq<CandidateView>,
    interval: Seq<char>,
    dry_run: bool,
)
    ensures
        planned(
            noted(spikes, unseen(spikes, candidates, interval), interval),
            candidates,
            interval,
            dry_run,
        ) == AlertPlan::Nothing,
{
    let sent = unseen(spikes, candidates, interval);
    let after = noted(spikes, sent, interval);
    let is_unseen = |candidate: CandidateView|
        !spikes.contains_key(state::key_of(candidate, interval));
    let still_unseen = |candidate: CandidateView|
        !after.contains_key(state::key_of(candidate, interval));
    let again = unseen(after, candidates, interval);
    if again.len() > 0 {
        let candidate = again[0];
        assert(again.contains(candidate));
        candidates.lemma_filter_contains_rev(still_unseen, candidate);
        candidates.lemma_filter_pred(still_unseen, 0);
        let key = state::key_of(candidate, interval);
        lemma_noted(spikes, sent, interval, key);
        let place = choose|i: int| 0 <= i < candidates.len() && candidates[i] == candidate;
        candidates.lemma_filter_contains(is_unseen, place);
        let i = choose|i: int| 0 <= i < sent.len() && sent[i] == candidate;
        assert(key == state::key_of(sent[i], interval));
    }
}

/// Only what has not been reported is reported, in its order, and a dry run sends
/// nothing.
pub proof fn law_only_new_spikes_are_reported(
    spikes: Map<Seq<char>, i64>,
    candidates: Seq<CandidateView>,
    interval: Seq<char>,
    dry_run: bool,
)
    ensures
        match planned(spikes, candidates, interval, dry_run) {
            AlertPlan::Nothing => forall|i: int|
                0 <= i < candidates.len() ==> spikes.contains_key(
                    state::key_of(#[trigger] candidates[i], interval),
                ),
            AlertPlan::Print(fresh) => dry_run && forall|i: int|
                0 <= i < fresh.len() ==> candidates.contains(#[trigger] fresh[i])
                    && !spikes.contains_key(state::key_of(fresh[i], interval)),
            AlertPlan::Send(fresh) => !dry_run && forall|i: int|
                0 <= i < fresh.len() ==> candidates.contains(#[trigger] fresh[i])
                    && !spikes.contains_key(state::key_of(fresh[i], interval)),
        },
{
    let is_unseen = |candidate: CandidateView|
        !spikes.contains_key(state::key_of(candidate, interval));
    let fresh = unseen(spikes, candidates, interval);
    assert forall|i: int| 0 <= i < fresh.len() implies candidates.contains(#[trigger] fresh[i])
        && !spikes.contains_key(state::key_of(fresh[i], interval)) by {
        assert(fresh.contains(fresh[i]));
        candidates.lemma_filter_contains_rev(is_unseen, fresh[i]);
        candidates.lemma_filter_pred(is_unseen, i);
    }
    assert forall|i: int|
        0 <= i < candidates.len() && fresh.len() == 0 implies spikes.contains_key(
        state::key_of(#[trigger] candidates[i], interval),
    ) by {
        if is_unseen(candidates[i]) {
            candidates.lemma_filter_contains(is_unseen, i);
        }
    }
}

} // verus!
