//! The texts that a challenge posts to its chat.

use crate::text::{decimal, push_decimal};
use vstd::prelude::*;

verus! {

/// The names that the strings of `names` spell.
pub open spec fn names_of(names: Seq<String>) -> Seq<Seq<char>> {
    Seq::new(names.len(), |i: int| names[i]@)
}

/// The counts of `counts` as numbers.
pub open spec fn counts_of(counts: Seq<usize>) -> Seq<nat> {
    Seq::new(counts.len(), |i: int| counts[i] as nat)
}

/// One line of a listing: the name, a colon, a space, the count, a line break.
pub open spec fn line(name: Seq<char>, count: nat) -> Seq<char> {
    name + ": "@ + decimal(count) + "\n"@
}

/// A listing: one line for each name, with the count at the same place.
pub open spec fn lines(names: Seq<Seq<char>>, counts: Seq<nat>) -> Seq<char>
    recommends
        names.len() == counts.len(),
    decreases names.len(),
{
    if names.len() == 0 {
        Seq::empty()
    } else {
        lines(names.drop_last(), counts.drop_last()) + line(names.last(), counts.last())
    }
}

/// The status of a day: what each participant has done today, then the day
/// as it is shown, the number of days and the quota.
pub open spec fn daily_text(
    names: Seq<Seq<char>>,
    counts: Seq<nat>,
    day: nat,
    duration: nat,
    repeats: nat,
) -> Seq<char> {
    lines(names, counts) + "День "@ + decimal(day) + " из "@ + decimal(duration) + ". "@ + decimal(
        repeats,
    ) + " повторений\n"@
}

/// The summary at the end: the number of days and what all have done
/// together, then what each participant has done over all days.
pub open spec fn final_text(
    names: Seq<Seq<char>>,
    totals: Seq<nat>,
    duration: nat,
    total: nat,
) -> Seq<char> {
    "Тренировка окончена! Мы прозанимались "@ + decimal(duration) + " дней и отжались "@
        + decimal(total) + " раз на всех.\n"@ + lines(names, totals)
}

/// The announcement at the start of a new cycle: the quota before and after.
pub open spec fn end_of_cycle_text(before: nat, after: nat) -> Seq<char> {
    "Очередной цикл завершён! Увеличиваем повторения с "@ + decimal(before) + " до "@ + decimal(
        after,
    ) + "."@
}

/// What is posted when a participant has met the quota of the day.
pub open spec fn user_done_text() -> Seq<char> {
    "🥳"@
}

/// What is posted when every participant has met the quota of the day.
pub open spec fn all_done_text() -> Seq<char> {
    "На сегодня всё 🎉"@
}

/// Writes a listing of `names` and `counts` at the end of `out`.
pub fn push_lines(out: &mut String, names: &Vec<String>, counts: &Vec<usize>)
    requires
        names.len() == counts.len(),
    ensures
        final(out)@ == old(out)@ + lines(names_of(names@), counts_of(counts@)),
{
    let ghost all_names = names_of(names@);
    let ghost all_counts = counts_of(counts@);
    let mut i: usize = 0;
    while i < names.len()
        invariant
            i <= names.len(),
            names.len() == counts.len(),
            all_names == names_of(names@),
            all_counts == counts_of(counts@),
            out@ == old(out)@ + lines(all_names.take(i as int), all_counts.take(i as int)),
        decreases names.len() - i,
    {
        proof {
            assert(all_names.take(i + 1).drop_last() =~= all_names.take(i as int));
            assert(all_counts.take(i + 1).drop_last() =~= all_counts.take(i as int));
        }
        out.append(names[i].as_str());
        out.append(": ");
        push_decimal(out, counts[i]);
        out.append("\n");
        i = i + 1;
        assert(out@ =~= old(out)@ + lines(all_names.take(i as int), all_counts.take(i as int)));
    }
    assert(all_names.take(i as int) =~= all_names);
    assert(all_counts.take(i as int) =~= all_counts);
}

} // verus!
