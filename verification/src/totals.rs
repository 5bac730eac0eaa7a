//! Sums over the ledgers of a challenge: what one participant has done over
//! all days, and what all participants have done together.

use crate::ledger::{count_of, with_added};
use vstd::prelude::*;

verus! {

/// The ledgers of a challenge, one for each day, the first day first.
pub type Progress = Seq<Map<Seq<char>, nat>>;

/// What `name` has reported over all the days of `progress`.
pub open spec fn days_total(progress: Progress, name: Seq<char>) -> nat
    decreases progress.len(),
{
    if progress.len() == 0 {
        0
    } else {
        days_total(progress.drop_last(), name) + count_of(progress.last(), name)
    }
}

/// What the participants `users` have reported over all the days of
/// `progress`, all of them together.
pub open spec fn users_total(progress: Progress, users: Seq<Seq<char>>) -> nat
    decreases users.len(),
{
    if users.len() == 0 {
        0
    } else {
        users_total(progress, users.drop_last()) + days_total(progress, users.last())
    }
}

/// Every name that a ledger of `progress` holds is one of `users`.
pub open spec fn names_known(progress: Progress, users: Seq<Seq<char>>) -> bool {
    forall|day: int, name: Seq<char>|
        0 <= day < progress.len() && #[trigger] progress[day].contains_key(name)
            ==> users.contains(name)
}

/// `progress` after `name` has reported `count` more on day `day`.
pub open spec fn with_report(progress: Progress, day: int, name: Seq<char>, count: nat) -> Progress
    recommends
        0 <= day < progress.len(),
{
    progress.update(day, with_added(progress[day], name, count))
}

/// A report adds its count to the total of the one who reports, and leaves
/// the totals of all others as they were.
pub proof fn lemma_days_total_report(
    progress: Progress,
    day: int,
    name: Seq<char>,
    count: nat,
    other: Seq<char>,
)
    requires
        0 <= day < progress.len(),
    ensures
        days_total(with_report(progress, day, name, count), other) == days_total(progress, other)
            + (if other == name {
            count
        } else {
            0
        }),
    decreases progress.len(),
{
    let after = with_report(progress, day, name, count);
    if day == progress.len() - 1 {
        assert(after.drop_last() =~= progress.drop_last());
    } else {
        lemma_days_total_report(progress.drop_last(), day, name, count, other);
        assert(after.drop_last() =~= with_report(progress.drop_last(), day, name, count));
    }
}

/// A report by one of `users`, none of whom is listed twice, adds its count
/// to the total of all; a report by anyone else leaves that total as it was.
pub proof fn lemma_users_total_report(
    progress: Progress,
    users: Seq<Seq<char>>,
    day: int,
    name: Seq<char>,
    count: nat,
)
    requires
        0 <= day < progress.len(),
        users.no_duplicates(),
    ensures
        users_total(with_report(progress, day, name, count), users) == users_total(progress, users)
            + (if users.contains(name) {
            count
        } else {
            0
        }),
    decreases users.len(),
{
    if users.len() > 0 {
        let rest = users.drop_last();
        lemma_users_total_report(progress, rest, day, name, count);
        lemma_days_total_report(progress, day, name, count, users.last());
        if users.last() == name {
            assert(!rest.contains(name)) by {
                if rest.contains(name) {
                    let i = rest.index_of(name);
                    assert(users[i] == name);
                }
            }
        } else if users.contains(name) {
            let i = users.index_of(name);
            assert(rest[i] == name);
        } else {
            assert(!rest.contains(name)) by {
                if rest.contains(name) {
                    let i = rest.index_of(name);
                    assert(users[i] == name);
                }
            }
        }
    }
}

/// Someone whom no ledger knows has a total of zero.
pub proof fn lemma_days_total_unknown(progress: Progress, name: Seq<char>)
    requires
        forall|day: int| 0 <= day < progress.len() ==> !(#[trigger] progress[day]).contains_key(name),
    ensures
        days_total(progress, name) == 0,
    decreases progress.len(),
{
    if progress.len() > 0 {
        assert(!progress[progress.len() - 1].contains_key(name));
        lemma_days_total_unknown(progress.drop_last(), name);
    }
}

/// A new day with an empty ledger changes nobody's total.
pub proof fn lemma_days_total_new_day(progress: Progress, name: Seq<char>)
    ensures
        days_total(progress.push(Map::empty()), name) == days_total(progress, name),
{
    assert(progress.push(Map::empty()).drop_last() =~= progress);
}

/// A new day with an empty ledger leaves the total of all as it was.
pub proof fn lemma_users_total_new_day(progress: Progress, users: Seq<Seq<char>>)
    ensures
        users_total(progress.push(Map::empty()), users) == users_total(progress, users),
    decreases users.len(),
{
    if users.len() > 0 {
        lemma_users_total_new_day(progress, users.drop_last());
        lemma_days_total_new_day(progress, users.last());
    }
}

/// The first `k` days hold no more for `name` than all the days do, and one
/// day more adds that day's count.
pub proof fn lemma_days_total_prefix(progress: Progress, name: Seq<char>, k: int)
    requires
        0 <= k <= progress.len(),
    ensures
        days_total(progress.take(k), name) <= days_total(progress, name),
        k < progress.len() ==> days_total(progress.take(k + 1), name) == days_total(
            progress.take(k),
            name,
        ) + count_of(progress[k], name),
    decreases progress.len() - k,
{
    if k == progress.len() {
        assert(progress.take(k) =~= progress);
    } else {
        assert(progress.take(k + 1).drop_last() =~= progress.take(k));
        lemma_days_total_prefix(progress, name, k + 1);
    }
}

/// The first `k` participants have done no more than all of them, and one
/// participant more adds that participant's total.
pub proof fn lemma_users_total_prefix(progress: Progress, users: Seq<Seq<char>>, k: int)
    requires
        0 <= k <= users.len(),
    ensures
        users_total(progress, users.take(k)) <= users_total(progress, users),
        k < users.len() ==> users_total(progress, users.take(k + 1)) == users_total(
            progress,
            users.take(k),
        ) + days_total(progress, users[k]),
    decreases users.len() - k,
{
    if k == users.len() {
        assert(users.take(k) =~= users);
    } else {
        assert(users.take(k + 1).drop_last() =~= users.take(k));
        lemma_users_total_prefix(progress, users, k + 1);
    }
}

/// What one participant has reported on one day is no more than the total of
/// all, as long as every ledger's names are among `users`.
pub proof fn lemma_count_within_total(
    progress: Progress,
    users: Seq<Seq<char>>,
    day: int,
    name: Seq<char>,
)
    requires
        0 <= day < progress.len(),
        names_known(progress, users),
    ensures
        count_of(progress[day], name) <= days_total(progress, name),
        days_total(progress, name) <= users_total(progress, users) || !users.contains(name),
        count_of(progress[day], name) <= users_total(progress, users),
{
    lemma_days_total_prefix(progress, name, day);
    lemma_days_total_prefix(progress, name, day + 1);
    if users.contains(name) {
        let i = users.index_of(name);
        lemma_users_total_prefix(progress, users, i);
        lemma_users_total_prefix(progress, users, i + 1);
    } else {
        assert(!progress[day].contains_key(name));
    }
}

} // verus!
