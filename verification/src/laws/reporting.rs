//! Which spikes are reported and which are not.

use crate::alerts;
use crate::alerts::{note_sent, plan_alert, plan_alerts, AlertAction};
use crate::detector::{CandidateResult, CandidateView};
use crate::ordering;
use crate::state;
use crate::state::AlertState;
use crate::text;
use vstd::prelude::*;

verus! {

/// The market, the interval and the time of a spike, with bars between them.
pub open spec fn name_of(candidate: CandidateView, interval: Seq<char>) -> Seq<char> {
    candidate.symbol + seq!['|'] + interval + seq!['|'] + text::decimal(
        candidate.latest_spike_time_ms as int,
    )
}

proof fn lemma_name(candidate: CandidateView, interval: Seq<char>)
    ensures
        state::key_of(candidate, interval) == name_of(candidate, interval),
{
    reveal_strlit("|");
    assert("|"@ =~= seq!['|']);
}

/// A spike counts as reported if and only if its market, interval and time are noted.
pub proof fn law_spikes_are_found_by_name(
    state: AlertState,
    candidate: CandidateResult,
    interval: &str,
    result: bool,
)
    requires
        call_ensures(AlertState::is_alerted, (&state, &candidate, interval), result),
    ensures
        result <==> state@.contains_key(name_of(candidate@, interval@)),
{
    lemma_name(candidate@, interval@);
}

/// Once a spike is noted, it counts as reported, with its time, and nothing else changes.
pub proof fn law_noted_spikes_count(
    state: &mut AlertState,
    candidate: CandidateResult,
    interval: &str,
    key: Seq<char>,
)
    requires
        call_ensures(AlertState::mark_alerted, (state, &candidate, interval), ()),
    ensures
        final(state)@.contains_key(name_of(candidate@, interval@)),
        final(state)@[name_of(candidate@, interval@)] == candidate.latest_spike_time_ms,
        key != name_of(candidate@, interval@) ==> (final(state)@.contains_key(key) <==> old(state)@.contains_key(key)),
        key != name_of(candidate@, interval@) && old(state)@.contains_key(key) ==> final(state)@[key] == old(state)@[key],
{
    lemma_name(candidate@, interval@);
}

/// What is older than allowed is forgotten, and everything else is kept as it is.
pub proof fn law_old_spikes_are_forgotten(
    state: &mut AlertState,
    oldest_allowed_ms: i64,
    key: Seq<char>,
)
    requires
        call_ensures(AlertState::prune, (state, oldest_allowed_ms), ()),
    ensures
        final(state)@.contains_key(key) <==> old(state)@.contains_key(key) && old(state)@[key]
            >= oldest_allowed_ms,
        final(state)@.contains_key(key) ==> final(state)@[key] == old(state)@[key],
{
}

/// At first nothing is noted.
pub proof fn law_nothing_is_noted_at_first(state: AlertState, key: Seq<char>)
    requires
        call_ensures(<AlertState as Default>::default, (), state),
    ensures
        !state@.contains_key(key),
{
}

/// The candidates that a plan reports.
pub open spec fn reported(action: AlertAction) -> Seq<CandidateView> {
    match action {
        AlertAction::Nothing => seq![],
        AlertAction::Print(candidates) => ordering::views(candidates@),
        AlertAction::Send(candidates) => ordering::views(candidates@),
    }
}

/// A dry run sends nothing, any other run prints nothing, and there is something to do if
/// and only if a candidate is to be reported.
pub proof fn law_dry_runs_only_print(
    state: AlertState,
    candidates: Vec<CandidateResult>,
    interval: &str,
    dry_run: bool,
    action: AlertAction,
)
    requires
        call_ensures(plan_alerts, (&state, &candidates, interval, dry_run), action),
    ensures
        action is Send ==> !dry_run,
        action is Print ==> dry_run,
        action is Nothing <==> reported(action).len() == 0,
        candidates@.len() == 0 ==> action is Nothing,
{
    let fresh = alerts::unseen(state@, ordering::views(candidates@), interval@);
    if candidates@.len() == 0 {
        reveal(Seq::filter);
        assert(fresh.len() == 0);
    }
}

/// One more candidate is reported, behind the others, if and only if its latest spike does
/// not count as reported; the others are reported as before.
pub proof fn law_each_candidate_is_judged_alone(
    state: AlertState,
    candidates: Vec<CandidateResult>,
    more: Vec<CandidateResult>,
    interval: &str,
    dry_run: bool,
    action: AlertAction,
    next_action: AlertAction,
    candidate: CandidateResult,
)
    requires
        more@ == candidates@.push(candidate),
        call_ensures(plan_alerts, (&state, &candidates, interval, dry_run), action),
        call_ensures(plan_alerts, (&state, &more, interval, dry_run), next_action),
    ensures
        reported(next_action) == if state@.contains_key(name_of(candidate@, interval@)) {
            reported(action)
        } else {
            reported(action).push(candidate@)
        },
{
    broadcast use vstd::seq::Seq::lemma_filter_push;

    lemma_name(candidate@, interval@);
    let all = ordering::views(candidates@);
    assert(ordering::views(more@) =~= all.push(candidate@));
    let fresh = alerts::unseen(state@, all, interval@);
    let longer = alerts::unseen(state@, all.push(candidate@), interval@);
    assert(longer == if state@.contains_key(name_of(candidate@, interval@)) {
        fresh
    } else {
        fresh.push(candidate@)
    });
    assert(reported(action) =~= fresh);
    assert(reported(next_action) =~= longer);
}

/// A candidate alone is reported if and only if its latest spike does not count as reported.
pub proof fn law_one_candidate_is_judged(
    state: AlertState,
    candidate: CandidateResult,
    interval: &str,
    dry_run: bool,
    action: AlertAction,
)
    requires
        call_ensures(plan_alert, (&state, &candidate, interval, dry_run), action),
    ensures
        action is Nothing <==> state@.contains_key(name_of(candidate@, interval@)),
        !(action is Nothing) ==> reported(action) == seq![candidate@],
        action is Print ==> dry_run,
        action is Send ==> !dry_run,
{
    broadcast use vstd::seq::Seq::lemma_filter_push;

    lemma_name(candidate@, interval@);
    let nothing = Seq::<CandidateView>::empty();
    reveal(Seq::filter);
    assert(alerts::unseen(state@, nothing, interval@) =~= nothing);
    assert(seq![candidate@] =~= nothing.push(candidate@));
    assert(alerts::unseen(state@, seq![candidate@], interval@) == if state@.contains_key(
        name_of(candidate@, interval@),
    ) {
        nothing
    } else {
        nothing.push(candidate@)
    });
}

/// What is sent is noted: afterwards a spike counts as reported if and only if it did before
/// or was sent, and what was noted before and not sent again stays as it is.
pub proof fn law_sent_spikes_are_noted(
    state: &mut AlertState,
    sent: Vec<CandidateResult>,
    interval: &str,
    key: Seq<char>,
)
    requires
        call_ensures(note_sent, (state, &sent, interval), ()),
    ensures
        final(state)@.contains_key(key) <==> old(state)@.contains_key(key) || exists|i: int|
            0 <= i < sent@.len() && key == name_of(#[trigger] sent@[i]@, interval@),
        old(state)@.contains_key(key) && (forall|i: int|
            0 <= i < sent@.len() ==> key != name_of(#[trigger] sent@[i]@, interval@)) ==> final(state)@[key] == old(state)@[key],
        forall|i: int|
            0 <= i < sent@.len() ==> final(state)@[name_of(#[trigger] sent@[i]@, interval@)]
                == sent@[i].latest_spike_time_ms,
{
    let all = ordering::views(sent@);
    lemma_noted(old(state)@, all, interval@, key);
    assert forall|i: int| 0 <= i < sent@.len() implies final(state)@[name_of(
        #[trigger] sent@[i]@,
        interval@,
    )] == sent@[i].latest_spike_time_ms by {
        assert(all[i] == sent@[i]@);
        lemma_name(sent@[i]@, interval@);
        lemma_noted_time(old(state)@, all, interval@, i);
    }
    if exists|i: int| 0 <= i < all.len() && key == name_of(#[trigger] all[i], interval@) {
        let i = choose|i: int| 0 <= i < all.len() && key == name_of(#[trigger] all[i], interval@);
        assert(all[i] == sent@[i]@);
    }
    if exists|i: int| 0 <= i < sent@.len() && key == name_of(#[trigger] sent@[i]@, interval@) {
        let i = choose|i: int|
            0 <= i < sent@.len() && key == name_of(#[trigger] sent@[i]@, interval@);
        assert(all[i] == sent@[i]@);
    }
    assert forall|i: int|
        (forall|k: int| 0 <= k < sent@.len() ==> key != name_of(#[trigger] sent@[k]@, interval@))
            && 0 <= i < all.len() implies key != name_of(#[trigger] all[i], interval@) by {
        assert(all[i] == sent@[i]@);
    }
}

proof fn lemma_noted(
    spikes: Map<Seq<char>, i64>,
    candidates: Seq<CandidateView>,
    interval: Seq<char>,
    key: Seq<char>,
)
    ensures
        alerts::noted(spikes, candidates, interval).contains_key(key) <==> spikes.contains_key(key)
            || exists|i: int|
            0 <= i < candidates.len() && key == name_of(#[trigger] candidates[i], interval),
        (forall|i: int|
            0 <= i < candidates.len() ==> key != name_of(#[trigger] candidates[i], interval))
            ==> alerts::noted(spikes, candidates, interval)[key] == spikes[key],
    decreases candidates.len(),
{
    if candidates.len() > 0 {
        let rest = candidates.drop_last();
        lemma_noted(spikes, rest, interval, key);
        lemma_name(candidates.last(), interval);
        assert(candidates[candidates.len() - 1] == candidates.last());
        assert forall|i: int| 0 <= i < rest.len() implies #[trigger] rest[i] == candidates[i] by {}
        if exists|i: int|
            0 <= i < candidates.len() && key == name_of(#[trigger] candidates[i], interval) {
            let i = choose|i: int|
                0 <= i < candidates.len() && key == name_of(#[trigger] candidates[i], interval);
            if i < rest.len() {
                assert(key == name_of(rest[i], interval));
            }
        }
        if exists|i: int| 0 <= i < rest.len() && key == name_of(#[trigger] rest[i], interval) {
            let i = choose|i: int|
                0 <= i < rest.len() && key == name_of(#[trigger] rest[i], interval);
            assert(key == name_of(candidates[i], interval));
        }
    }
}

/// Spikes with the same name are at the same time, so that the last one noted tells the time
/// of each of them.
proof fn lemma_noted_time(
    spikes: Map<Seq<char>, i64>,
    candidates: Seq<CandidateView>,
    interval: Seq<char>,
    i: int,
)
    requires
        0 <= i < candidates.len(),
    ensures
        alerts::noted(spikes, candidates, interval)[state::key_of(candidates[i], interval)]
            == candidates[i].latest_spike_time_ms,
    decreases candidates.len(),
{
    let last = candidates.last();
    if state::key_of(candidates[i], interval) == state::key_of(last, interval) {
        state::lemma_key_tells_time(candidates[i], interval, last, interval);
    } else {
        let rest = candidates.drop_last();
        assert(i < rest.len() && rest[i] == candidates[i]);
        lemma_noted_time(spikes, rest, interval, i);
    }
}

} // verus!
