//! The state of one chat's challenge, and the rules by which it changes.

use crate::ledger::{count_of, DayLedger};
use crate::messages::{
    counts_of, daily_text, end_of_cycle_text, final_text, names_of, push_lines,
};
use crate::text::push_decimal;
use crate::totals::{
    days_total, lemma_count_within_total, lemma_days_total_prefix, lemma_days_total_report,
    lemma_days_total_unknown, lemma_users_total_new_day, lemma_users_total_prefix,
    lemma_users_total_report, names_known, users_total, with_report, Progress,
};
use vstd::prelude::*;

verus! {

/// Where a chat's challenge stands in its life.
#[derive(Debug, Clone, Copy, PartialEq, Eq)]
pub enum ContextState {
    Created,
    Active,
}

/// What a chat's challenge can be asked to do.
#[derive(Debug)]
pub enum ContextCommand {
    /// A day has begun: close the last one and post the status of the new one.
    SendDailyMessage,
    /// A participant reports repetitions.
    AddPushups { username: String, count: usize },
}

/// The state of one chat's challenge.
#[derive(Debug)]
pub struct ContextData {
    /// The chat that the challenge runs in.
    pub chat_id: i64,
    /// The status message that is pinned in the chat, once one was posted.
    pub daily_message_id: Option<i32>,
    /// The day that the challenge is in, counted from zero.
    pub current_day: usize,
    /// The number of days after which the quota grows.
    pub cycle_length: usize,
    /// By how much the quota grows at the start of a new cycle.
    pub cycle_increase: usize,
    /// The number of days that the challenge lasts.
    pub duration: usize,
    /// The quota: what every participant is asked to do each day.
    pub repeats: usize,
    /// One ledger for each day so far, the first day first.
    pub progress: Vec<DayLedger>,
    /// The participants, in the order of their first report.
    pub users: Vec<String>,
}

/// The state of a challenge as a mathematical value.
pub struct ContextView {
    pub chat_id: i64,
    pub daily_message_id: Option<i32>,
    pub current_day: nat,
    pub cycle_length: nat,
    pub cycle_increase: nat,
    pub duration: nat,
    pub repeats: nat,
    pub progress: Progress,
    pub users: Seq<Seq<char>>,
}

impl ContextView {
    /// The state in which every challenge starts.
    pub open spec fn initial(chat_id: i64) -> ContextView {
        ContextView {
            chat_id,
            daily_message_id: None,
            current_day: 0,
            cycle_length: 1,
            cycle_increase: 10,
            duration: 3,
            repeats: 100,
            progress: seq![Map::empty()],
            users: Seq::empty(),
        }
    }

    /// What holds of every state: there is one ledger for each day up to the
    /// current one, a cycle has at least one day, no participant is listed
    /// twice, and the ledgers know nobody but the participants.
    pub open spec fn wf(self) -> bool {
        &&& self.progress.len() == self.current_day + 1
        &&& self.cycle_length > 0
        &&& self.users.no_duplicates()
        &&& names_known(self.progress, self.users)
    }

    /// The ledger of the current day.
    pub open spec fn today(self) -> Map<Seq<char>, nat> {
        self.progress[self.current_day as int]
    }

    /// What `name` has reported today.
    pub open spec fn today_count(self, name: Seq<char>) -> nat {
        count_of(self.today(), name)
    }

    /// Whether `name` has met today's quota.
    pub open spec fn user_done(self, name: Seq<char>) -> bool {
        self.today_count(name) >= self.repeats
    }

    /// Whether every participant has met today's quota. With no participant
    /// yet, that is so.
    pub open spec fn all_users_done(self) -> bool {
        forall|i: int| 0 <= i < self.users.len() ==> self.user_done(#[trigger] self.users[i])
    }

    /// What each participant has reported today, in the participants' order.
    pub open spec fn today_counts(self) -> Seq<nat> {
        Seq::new(self.users.len(), |i: int| self.today_count(self.users[i]))
    }

    /// What `name` has reported over all days.
    pub open spec fn user_total(self, name: Seq<char>) -> nat {
        days_total(self.progress, name)
    }

    /// What each participant has reported over all days, in the participants'
    /// order.
    pub open spec fn user_totals(self) -> Seq<nat> {
        Seq::new(self.users.len(), |i: int| self.user_total(self.users[i]))
    }

    /// What all participants have reported over all days.
    pub open spec fn total(self) -> nat {
        users_total(self.progress, self.users)
    }

    /// Whether the challenge has lasted its number of days.
    pub open spec fn workout_over(self) -> bool {
        self.current_day >= self.duration
    }

    /// The state after `name` has reported `count`: the name is among the
    /// participants, and today's ledger holds `count` more for it.
    pub open spec fn with_progress(self, name: Seq<char>, count: nat) -> ContextView {
        ContextView {
            users: if self.users.contains(name) {
                self.users
            } else {
                self.users.push(name)
            },
            progress: with_report(self.progress, self.current_day as int, name, count),
            ..self
        }
    }

    /// Whether the day after the current one starts a new cycle.
    pub open spec fn cycle_ends(self) -> bool {
        (self.current_day + 1) % self.cycle_length == 0
    }

    /// The state on the next day: one day later, with an empty ledger for the
    /// new day, and with a higher quota if the new day starts a cycle.
    pub open spec fn next_day(self) -> ContextView {
        ContextView {
            current_day: self.current_day + 1,
            progress: self.progress.push(Map::empty()),
            repeats: if self.cycle_ends() {
                self.repeats + self.cycle_increase
            } else {
                self.repeats
            },
            ..self
        }
    }

    /// The status message of the current day. The day is shown counted from one.
    pub open spec fn daily_message(self) -> Seq<char> {
        daily_text(
            self.users,
            self.today_counts(),
            self.current_day + 1,
            self.duration,
            self.repeats,
        )
    }

    /// The summary that ends the challenge.
    pub open spec fn final_message(self) -> Seq<char> {
        final_text(self.users, self.user_totals(), self.duration, self.total())
    }

    /// The announcement of a new cycle, once the quota has grown.
    pub open spec fn end_of_cycle_message(self) -> Seq<char> {
        end_of_cycle_text((self.repeats - self.cycle_increase) as nat, self.repeats)
    }
}

impl View for ContextData {
    type V = ContextView;

    open spec fn view(&self) -> ContextView {
        ContextView {
            chat_id: self.chat_id,
            daily_message_id: self.daily_message_id,
            current_day: self.current_day as nat,
            cycle_length: self.cycle_length as nat,
            cycle_increase: self.cycle_increase as nat,
            duration: self.duration as nat,
            repeats: self.repeats as nat,
            progress: Seq::new(self.progress.len() as nat, |i: int| self.progress[i]@),
            users: names_of(self.users@),
        }
    }
}

impl ContextData {
    /// What every function of this type asks of a state and keeps: each
    /// ledger is in order, the state as a value is, and what all participants
    /// have done together is a number that the machine can hold.
    pub open spec fn wf(&self) -> bool {
        &&& forall|i: int| 0 <= i < self.progress.len() ==> (#[trigger] self.progress[i]).wf()
        &&& self@.wf()
        &&& self@.total() <= usize::MAX
    }

    /// A challenge for `chat_id` at its start: day zero, cycles of one day,
    /// a quota of 100 that grows by 10, three days, nobody taking part yet.
    pub fn new(chat_id: i64) -> (context: ContextData)
        ensures
            context.wf(),
            context@ == ContextView::initial(chat_id),
    {
        let mut progress: Vec<DayLedger> = Vec::new();
        progress.push(DayLedger::new());
        let context = ContextData {
            chat_id,
            daily_message_id: None,
            cycle_increase: 10,
            cycle_length: 1,
            current_day: 0,
            progress,
            duration: 3,
            repeats: 100,
            users: Vec::new(),
        };
        proof {
            assert(context@.progress =~= seq![Map::empty()]);
            assert(context@.users =~= Seq::empty());
        }
        context
    }

    /// The chat that the challenge runs in.
    pub fn get_chat_id(&self) -> (chat_id: i64)
        ensures
            chat_id == self.chat_id,
    {
        self.chat_id
    }

    /// Whether the challenge has lasted its number of days.
    pub fn is_workout_over(&self) -> (over: bool)
        ensures
            over == self@.workout_over(),
    {
        self.current_day >= self.duration
    }

    /// Whether `username` has met today's quota.
    pub fn is_user_done(&self, username: String) -> (done: bool)
        requires
            self.wf(),
        ensures
            done == self@.user_done(username@),
    {
        self.progress[self.current_day].get(&username) >= self.repeats
    }

    /// Whether every participant has met today's quota.
    pub fn is_all_users_done(&self) -> (done: bool)
        requires
            self.wf(),
        ensures
            done == self@.all_users_done(),
    {
        let mut i: usize = 0;
        while i < self.users.len()
            invariant
                self.wf(),
                i <= self.users.len(),
                forall|j: int| 0 <= j < i ==> self@.user_done(#[trigger] self@.users[j]),
            decreases self.users.len() - i,
        {
            if !self.is_user_done(self.users[i].clone()) {
                assert(!self@.user_done(self@.users[i as int]));
                return false;
            }
            i = i + 1;
        }
        true
    }

    fn knows_user(&self, username: &String) -> (known: bool)
        ensures
            known == self@.users.contains(username@),
    {
        let mut i: usize = 0;
        while i < self.users.len()
            invariant
                i <= self.users.len(),
                forall|j: int| 0 <= j < i ==> self@.users[j] != username@,
            decreases self.users.len() - i,
        {
            if self.users[i] == *username {
                assert(self@.users[i as int] == username@);
                return true;
            }
            i = i + 1;
        }
        false
    }

    /// Records that `username` has done `count` more today, and lists
    /// `username` among the participants at the first report.
    pub fn add_user_progress(&mut self, username: String, count: usize)
        requires
            old(self).wf(),
            old(self)@.total() + count <= usize::MAX,
        ensures
            final(self).wf(),
            final(self)@ == old(self)@.with_progress(username@, count as nat),
    {
        let ghost before = old(self)@;
        let ghost name = username@;
        let current_day = self.current_day;
        proof {
            lemma_count_within_total(before.progress, before.users, current_day as int, name);
        }
        if !self.knows_user(&username) {
            self.users.push(username.clone());
            assert(self@.users =~= before.users.push(name));
        }
        self.progress[current_day].add(username, count);
        proof {
            let after = before.with_progress(name, count as nat);
            assert(self@.progress =~= after.progress);
            assert(self@ == after);
            lemma_with_progress_wf(before, name, count as nat);
        }
    }

    /// Starts the next day: the day counter goes up by one, the new day gets
    /// an empty ledger, and the quota grows by the increase if the new day
    /// starts a cycle. Returns whether it did.
    pub fn init_next_day(&mut self) -> (cycle_ended: bool)
        requires
            old(self).wf(),
            old(self)@.cycle_ends() ==> old(self).repeats + old(self).cycle_increase <= usize::MAX,
        ensures
            final(self).wf(),
            final(self)@ == old(self)@.next_day(),
            cycle_ended == old(self)@.cycle_ends(),
            final(self).progress@.len() == final(self).current_day + 1,
    {
        let ghost before = old(self)@;
        self.progress.push(DayLedger::new());
        self.current_day = self.current_day + 1;
        let cycle_ended = self.current_day % self.cycle_length == 0;
        if cycle_ended {
            self.repeats = self.repeats + self.cycle_increase;
        }
        proof {
            assert(self@.progress =~= before.next_day().progress);
            assert(self@ == before.next_day());
            lemma_next_day_wf(before);
        }
        cycle_ended
    }

    /// What `username` has reported over all days.
    pub fn user_total(&self, username: &String) -> (total: usize)
        requires
            self.wf(),
        ensures
            total == self@.user_total(username@),
    {
        let ghost progress = self@.progress;
        let ghost name = username@;
        proof {
            lemma_user_total_within(self@, name);
        }
        let mut total: usize = 0;
        let mut day: usize = 0;
        while day < self.progress.len()
            invariant
                self.wf(),
                progress == self@.progress,
                name == username@,
                day <= self.progress.len(),
                total == days_total(progress.take(day as int), name),
                days_total(progress, name) <= usize::MAX,
            decreases self.progress.len() - day,
        {
            proof {
                lemma_days_total_prefix(progress, name, day as int);
                lemma_days_total_prefix(progress, name, day + 1);
            }
            total = total + self.progress[day].get(username);
            day = day + 1;
        }
        assert(progress.take(day as int) =~= progress);
        total
    }

    /// What all participants have reported over all days.
    pub fn total_progress(&self) -> (total: usize)
        requires
            self.wf(),
        ensures
            total == self@.total(),
    {
        let ghost progress = self@.progress;
        let ghost users = self@.users;
        let mut total: usize = 0;
        let mut i: usize = 0;
        while i < self.users.len()
            invariant
                self.wf(),
                progress == self@.progress,
                users == self@.users,
                i <= self.users.len(),
                total == users_total(progress, users.take(i as int)),
            decreases self.users.len() - i,
        {
            proof {
                lemma_users_total_prefix(progress, users, i as int);
                lemma_users_total_prefix(progress, users, i + 1);
            }
            total = total + self.user_total(&self.users[i]);
            i = i + 1;
        }
        assert(users.take(i as int) =~= users);
        total
    }

    fn today_counts(&self) -> (counts: Vec<usize>)
        requires
            self.wf(),
        ensures
            counts.len() == self.users.len(),
            counts_of(counts@) == self@.today_counts(),
    {
        let mut counts: Vec<usize> = Vec::new();
        let mut i: usize = 0;
        while i < self.users.len()
            invariant
                self.wf(),
                i <= self.users.len(),
                counts.len() == i,
                forall|j: int| 0 <= j < i ==> counts[j] == self@.today_count(self@.users[j]),
            decreases self.users.len() - i,
        {
            counts.push(self.progress[self.current_day].get(&self.users[i]));
            i = i + 1;
        }
        assert(counts_of(counts@) =~= self@.today_counts());
        counts
    }

    fn user_totals(&self) -> (totals: Vec<usize>)
        requires
            self.wf(),
        ensures
            totals.len() == self.users.len(),
            counts_of(totals@) == self@.user_totals(),
    {
        let mut totals: Vec<usize> = Vec::new();
        let mut i: usize = 0;
        while i < self.users.len()
            invariant
                self.wf(),
                i <= self.users.len(),
                totals.len() == i,
                forall|j: int| 0 <= j < i ==> totals[j] == self@.user_total(self@.users[j]),
            decreases self.users.len() - i,
        {
            totals.push(self.user_total(&self.users[i]));
            i = i + 1;
        }
        assert(counts_of(totals@) =~= self@.user_totals());
        totals
    }

    /// The status message of the current day: one line for each participant
    /// with today's count, then the day, the number of days and the quota.
    pub fn generate_daily_message(&self) -> (text: String)
        requires
            self.wf(),
        ensures
            text@ == self@.daily_message(),
    {
        let counts = self.today_counts();
        let mut text = String::new();
        push_lines(&mut text, &self.users, &counts);
        text.append("День ");
        push_decimal(&mut text, self.current_day + 1);
        text.append(" из ");
        push_decimal(&mut text, self.duration);
        text.append(". ");
        push_decimal(&mut text, self.repeats);
        text.append(" повторений\n");
        assert(text@ =~= self@.daily_message());
        text
    }

    /// The summary that ends the challenge: the number of days and what all
    /// have done together, then one line for each participant with what that
    /// participant has done over all days.
    pub fn generate_final_message(&self) -> (text: String)
        requires
            self.wf(),
        ensures
            text@ == self@.final_message(),
    {
        let totals = self.user_totals();
        let total = self.total_progress();
        let mut text = String::new();
        text.append("Тренировка окончена! Мы прозанимались ");
        push_decimal(&mut text, self.duration);
        text.append(" дней и отжались ");
        push_decimal(&mut text, total);
        text.append(" раз на всех.\n");
        push_lines(&mut text, &self.users, &totals);
        assert(text@ =~= self@.final_message());
        text
    }

    /// The announcement of a new cycle: the quota as it was before the
    /// increase, and as it is now.
    pub fn generate_end_of_cycle_message(&self) -> (text: String)
        requires
            self.repeats >= self.cycle_increase,
        ensures
            text@ == self@.end_of_cycle_message(),
    {
        let mut text = String::new();
        text.append("Очередной цикл завершён! Увеличиваем повторения с ");
        push_decimal(&mut text, self.repeats - self.cycle_increase);
        text.append(" до ");
        push_decimal(&mut text, self.repeats);
        text.append(".");
        assert(text@ =~= self@.end_of_cycle_message());
        text
    }
}

/// A report keeps a state in order and adds its count to the total of all.
pub proof fn lemma_with_progress_wf(state: ContextView, name: Seq<char>, count: nat)
    requires
        state.wf(),
    ensures
        state.with_progress(name, count).wf(),
        state.with_progress(name, count).total() == state.total() + count,
{
    let after = state.with_progress(name, count);
    let day = state.current_day as int;
    assert forall|d: int, n: Seq<char>|
        0 <= d < after.progress.len() && #[trigger] after.progress[d].contains_key(
            n,
        ) implies after.users.contains(n) by {
        if n == name {
            if !state.users.contains(name) {
                assert(after.users[state.users.len() as int] == name);
            }
        } else {
            assert(state.progress[d].contains_key(n));
            let i = state.users.index_of(n);
            assert(after.users[i] == n);
        }
    }
    if state.users.contains(name) {
        lemma_users_total_report(state.progress, state.users, day, name, count);
    } else {
        lemma_users_total_report(state.progress, state.users, day, name, count);
        assert(after.users.drop_last() =~= state.users);
        lemma_days_total_report(state.progress, day, name, count, name);
        assert forall|d: int| 0 <= d < state.progress.len() implies !(
        #[trigger] state.progress[d]).contains_key(name) by {
            if state.progress[d].contains_key(name) {
                assert(state.users.contains(name));
            }
        }
        lemma_days_total_unknown(state.progress, name);
        assert(after.users.no_duplicates());
    }
}

/// A new day keeps a state in order and leaves the total of all as it was.
pub proof fn lemma_next_day_wf(state: ContextView)
    requires
        state.wf(),
    ensures
        state.next_day().wf(),
        state.next_day().total() == state.total(),
{
    let after = state.next_day();
    assert forall|d: int, n: Seq<char>|
        0 <= d < after.progress.len() && #[trigger] after.progress[d].contains_key(
            n,
        ) implies after.users.contains(n) by {
        if d < state.progress.len() {
            assert(state.progress[d].contains_key(n));
        }
    }
    lemma_users_total_new_day(state.progress, state.users);
}

/// What one participant has done over all days is no more than what all have
/// done together; someone who takes no part has done nothing.
pub proof fn lemma_user_total_within(state: ContextView, name: Seq<char>)
    requires
        state.wf(),
    ensures
        state.user_total(name) <= state.total(),
        !state.users.contains(name) ==> state.user_total(name) == 0,
{
    lemma_count_within_total(state.progress, state.users, 0, name);
    if !state.users.contains(name) {
        assert forall|d: int| 0 <= d < state.progress.len() implies !(
        #[trigger] state.progress[d]).contains_key(name) by {
            if state.progress[d].contains_key(name) {
                assert(state.users.contains(name));
            }
        }
        lemma_days_total_unknown(state.progress, name);
    }
}

} // verus!
