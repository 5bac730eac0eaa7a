//! What holds of a challenge over its whole life, proved from the rules of
//! the single commands.

use crate::actor::{CommandView, StepView};
use crate::context::{lemma_next_day_wf, lemma_with_progress_wf, ContextView};
use crate::ledger::count_of;
use crate::totals::{lemma_days_total_new_day, lemma_days_total_report};
use vstd::prelude::*;

verus! {

/// The state after the commands `commands` have been handled one after
/// another, the first one first.
pub open spec fn after_all(state: ContextView, commands: Seq<CommandView>) -> ContextView
    decreases commands.len(),
{
    if commands.len() == 0 {
        state
    } else {
        after_all(state, commands.drop_last()).after(commands.last())
    }
}

/// Whether every command of `commands` is a report.
pub open spec fn all_reports(commands: Seq<CommandView>) -> bool {
    forall|i: int| 0 <= i < commands.len() ==> (#[trigger] commands[i]) is AddPushups
}

/// The sum of the counts that the reports among `commands` state for `name`.
pub open spec fn reported_by(commands: Seq<CommandView>, name: Seq<char>) -> nat
    decreases commands.len(),
{
    if commands.len() == 0 {
        0
    } else {
        reported_by(commands.drop_last(), name) + match commands.last() {
            CommandView::AddPushups { username, count } => if username == name {
                count
            } else {
                0
            },
            CommandView::SendDailyMessage => 0,
        }
    }
}

/// The sum of the counts that the reports among `commands` state.
pub open spec fn reported(commands: Seq<CommandView>) -> nat
    decreases commands.len(),
{
    if commands.len() == 0 {
        0
    } else {
        reported(commands.drop_last()) + match commands.last() {
            CommandView::AddPushups { username, count } => count,
            CommandView::SendDailyMessage => 0,
        }
    }
}

/// Every command keeps a state in order: after it there is still one ledger
/// for each day up to the current one, no participant is listed twice, and
/// the ledgers know nobody but the participants.
pub proof fn lemma_after_wf(state: ContextView, command: CommandView)
    requires
        state.wf(),
    ensures
        state.after(command).wf(),
        state.after(command).progress.len() == state.after(command).current_day + 1,
{
    match command {
        CommandView::AddPushups { username, count } => {
            lemma_with_progress_wf(state, username, count);
        },
        CommandView::SendDailyMessage => {
            if !state.workout_over() {
                lemma_next_day_wf(state);
            }
        },
    }
}

/// A state stays in order through any sequence of commands.
pub proof fn lemma_after_all_wf(state: ContextView, commands: Seq<CommandView>)
    requires
        state.wf(),
    ensures
        after_all(state, commands).wf(),
        after_all(state, commands).progress.len() == after_all(state, commands).current_day + 1,
    decreases commands.len(),
{
    if commands.len() > 0 {
        lemma_after_all_wf(state, commands.drop_last());
        lemma_after_wf(after_all(state, commands.drop_last()), commands.last());
    }
}

/// After any sequence of reports, what a participant has on the day's ledger
/// is what was there before and the sum of the counts reported since under
/// that name; the day is the same, the ledgers of earlier days are untouched,
/// and the total of all has grown by the sum of all counts reported.
pub proof fn lemma_reports_add_up(state: ContextView, commands: Seq<CommandView>, name: Seq<char>)
    requires
        state.wf(),
        all_reports(commands),
    ensures
        after_all(state, commands).current_day == state.current_day,
        after_all(state, commands).today_count(name) == state.today_count(name) + reported_by(
            commands,
            name,
        ),
        forall|day: int|
            0 <= day < state.current_day ==> after_all(state, commands).progress[day]
                == state.progress[day],
        after_all(state, commands).total() == state.total() + reported(commands),
    decreases commands.len(),
{
    if commands.len() > 0 {
        let earlier = commands.drop_last();
        let before = after_all(state, earlier);
        assert(all_reports(earlier)) by {
            assert forall|i: int| 0 <= i < earlier.len() implies (
            #[trigger] earlier[i]) is AddPushups by {
                assert(commands[i] is AddPushups);
            }
        }
        lemma_reports_add_up(state, earlier, name);
        lemma_after_all_wf(state, earlier);
        assert(commands[commands.len() - 1] is AddPushups);
        match commands.last() {
            CommandView::AddPushups { username, count } => {
                lemma_with_progress_wf(before, username, count);
            },
            CommandView::SendDailyMessage => {},
        }
    }
}

/// Through any sequence of commands, reports and new days in any order, what
/// a participant has done over all days grows by the sum of the counts
/// reported under that name, and what all have done together grows by the sum
/// of all counts reported.
pub proof fn lemma_totals_add_up(state: ContextView, commands: Seq<CommandView>, name: Seq<char>)
    requires
        state.wf(),
    ensures
        after_all(state, commands).user_total(name) == state.user_total(name) + reported_by(
            commands,
            name,
        ),
        after_all(state, commands).total() == state.total() + reported(commands),
    decreases commands.len(),
{
    if commands.len() > 0 {
        let before = after_all(state, commands.drop_last());
        lemma_totals_add_up(state, commands.drop_last(), name);
        lemma_after_all_wf(state, commands.drop_last());
        match commands.last() {
            CommandView::AddPushups { username, count } => {
                lemma_with_progress_wf(before, username, count);
                lemma_days_total_report(
                    before.progress,
                    before.current_day as int,
                    username,
                    count,
                    name,
                );
            },
            CommandView::SendDailyMessage => {
                if !before.workout_over() {
                    lemma_next_day_wf(before);
                    lemma_days_total_new_day(before.progress, name);
                }
            },
        }
    }
}

/// The quota after a command is the quota before it, plus the increase where
/// the command starts a day that starts a cycle, and plus nothing otherwise.
pub proof fn lemma_quota_step(state: ContextView, command: CommandView)
    ensures
        state.after(command).repeats == state.repeats + (if command is SendDailyMessage
            && !state.workout_over() && (state.current_day + 1) % state.cycle_length == 0 {
            state.cycle_increase
        } else {
            0
        }),
        state.after(command).repeats >= state.repeats,
        state.after(command).cycle_length == state.cycle_length,
        state.after(command).cycle_increase == state.cycle_increase,
        state.after(command).duration == state.duration,
{
}

/// Through any sequence of commands the quota never goes down.
pub proof fn lemma_quota_never_decreases(state: ContextView, commands: Seq<CommandView>)
    ensures
        after_all(state, commands).repeats >= state.repeats,
    decreases commands.len(),
{
    if commands.len() > 0 {
        lemma_quota_never_decreases(state, commands.drop_last());
        lemma_quota_step(after_all(state, commands.drop_last()), commands.last());
    }
}

/// Everyone is done exactly where nobody takes part yet, or there are
/// participants and each of them has today at least the quota.
pub proof fn lemma_all_users_done(state: ContextView)
    ensures
        state.users.len() == 0 ==> state.all_users_done(),
        state.all_users_done() <==> state.users.len() == 0 || (state.users.len() > 0 && forall|
            i: int,
        |
            0 <= i < state.users.len() ==> count_of(state.today(), #[trigger] state.users[i])
                >= state.repeats),
{
    if state.all_users_done() {
        assert forall|i: int| 0 <= i < state.users.len() implies count_of(
            state.today(),
            #[trigger] state.users[i],
        ) >= state.repeats by {
            assert(state.user_done(state.users[i]));
        }
    }
}

/// Once the challenge is over, the command that starts a day changes nothing
/// in the state, however often it comes: no ledger is added, and no status
/// message is posted. Its steps are the final ones, which end with the
/// summary, the pin taken off and the queue closed.
pub proof fn lemma_final_command_repeats(state: ContextView)
    requires
        state.workout_over(),
    ensures
        state.after(CommandView::SendDailyMessage) == state,
        state.after(CommandView::SendDailyMessage).after(CommandView::SendDailyMessage) == state,
        state.steps(CommandView::SendDailyMessage) == state.final_steps(),
        state.after(CommandView::SendDailyMessage).steps(CommandView::SendDailyMessage)
            == state.steps(CommandView::SendDailyMessage),
        forall|i: int|
            0 <= i < state.final_steps().len() ==> !((#[trigger] state.final_steps()[i])
                is PostStatus),
        state.final_steps().last() == StepView::Stop,
        state.final_steps().contains(StepView::Call(state.send_request(state.final_message()))),
{
    let unpin = state.unpin_steps();
    let steps = state.final_steps();
    let summary = StepView::Call(state.send_request(state.final_message()));
    assert(steps[unpin.len() as int] == summary);
}

/// Two reports may come in either order: the ledgers and the total of all
/// are the same, and so is what each participant has today. Only the order
/// in which new participants are listed follows the order of the reports.
pub proof fn lemma_reports_commute(
    state: ContextView,
    first: Seq<char>,
    first_count: nat,
    second: Seq<char>,
    second_count: nat,
)
    requires
        state.wf(),
    ensures
        state.with_progress(first, first_count).with_progress(second, second_count).progress
            == state.with_progress(second, second_count).with_progress(first, first_count).progress,
        state.with_progress(first, first_count).with_progress(second, second_count).total()
            == state.with_progress(second, second_count).with_progress(first, first_count).total(),
        state.with_progress(first, first_count).with_progress(second, second_count).users.to_set()
            == state.with_progress(second, second_count).with_progress(
            first,
            first_count,
        ).users.to_set(),
{
    let one = state.with_progress(first, first_count);
    let other = state.with_progress(second, second_count);
    let one_way = one.with_progress(second, second_count);
    let other_way = other.with_progress(first, first_count);
    lemma_with_progress_wf(state, first, first_count);
    lemma_with_progress_wf(state, second, second_count);
    lemma_with_progress_wf(one, second, second_count);
    lemma_with_progress_wf(other, first, first_count);
    let day = state.current_day as int;
    assert(one_way.progress[day] =~= other_way.progress[day]);
    assert(one_way.progress =~= other_way.progress);
    assert(one_way.users.to_set() =~= other_way.users.to_set()) by {
        lemma_listed(state, first, first_count);
        lemma_listed(state, second, second_count);
        lemma_listed(one, second, second_count);
        lemma_listed(other, first, first_count);
    }
}

/// After a report the participants are those from before and the one who
/// reported.
pub proof fn lemma_listed(state: ContextView, name: Seq<char>, count: nat)
    ensures
        state.with_progress(name, count).users.to_set() == state.users.to_set().insert(name),
{
    let after = state.with_progress(name, count).users;
    assert forall|n: Seq<char>| after.contains(n) <==> state.users.contains(n) || n == name by {
        if state.users.contains(name) {
        } else {
            if state.users.contains(n) {
                let i = state.users.index_of(n);
                assert(after[i] == n);
            }
            assert(after[state.users.len() as int] == name);
        }
    }
    assert(after.to_set() =~= state.users.to_set().insert(name));
}

} // verus!
