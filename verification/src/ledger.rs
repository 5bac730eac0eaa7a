//! One day's ledger: what every participant has reported on that day.

use vstd::prelude::*;

verus! {

/// What one participant has reported on one day.
#[derive(Debug)]
pub struct UserCount {
    pub username: String,
    pub count: usize,
}

/// The ledger of one day: one entry for each participant who has reported on
/// that day, in the order of their first report.
#[derive(Debug)]
pub struct DayLedger {
    pub entries: Vec<UserCount>,
}

/// The count that the ledger `ledger` holds for `name`: zero for a name it
/// does not know.
pub open spec fn count_of(ledger: Map<Seq<char>, nat>, name: Seq<char>) -> nat {
    if ledger.contains_key(name) {
        ledger[name]
    } else {
        0
    }
}

/// The ledger `ledger` after `name` has reported `count` more.
pub open spec fn with_added(ledger: Map<Seq<char>, nat>, name: Seq<char>, count: nat) -> Map<
    Seq<char>,
    nat,
> {
    ledger.insert(name, count_of(ledger, name) + count)
}

impl View for DayLedger {
    type V = Map<Seq<char>, nat>;

    /// The ledger as a mapping from a participant's name to the count.
    open spec fn view(&self) -> Map<Seq<char>, nat> {
        Map::new(
            |name: Seq<char>| self.names().contains(name),
            |name: Seq<char>| self.entries[self.names().index_of(name)].count as nat,
        )
    }
}

impl DayLedger {
    /// The names of the entries, in their order.
    pub open spec fn names(&self) -> Seq<Seq<char>> {
        Seq::new(self.entries.len() as nat, |i: int| self.entries[i].username@)
    }

    /// No name has two entries.
    pub open spec fn wf(&self) -> bool {
        self.names().no_duplicates()
    }

    /// A ledger without entries.
    pub fn new() -> (ledger: DayLedger)
        ensures
            ledger.wf(),
            ledger@ == Map::<Seq<char>, nat>::empty(),
    {
        let ledger = DayLedger { entries: Vec::new() };
        assert(ledger@ =~= Map::<Seq<char>, nat>::empty());
        ledger
    }

    fn position(&self, username: &String) -> (found: Option<usize>)
        ensures
            match found {
                Some(i) => i < self.entries.len() && self.names()[i as int] == username@,
                None => !self.names().contains(username@),
            },
    {
        let mut i: usize = 0;
        while i < self.entries.len()
            invariant
                i <= self.entries.len(),
                forall|j: int| 0 <= j < i ==> self.names()[j] != username@,
            decreases self.entries.len() - i,
        {
            if self.entries[i].username == *username {
                return Some(i);
            }
            i = i + 1;
        }
        None
    }

    /// The count recorded for `username`, zero where there is none.
    pub fn get(&self, username: &String) -> (count: usize)
        requires
            self.wf(),
        ensures
            count == count_of(self@, username@),
    {
        match self.position(username) {
            Some(i) => self.entries[i].count,
            None => 0,
        }
    }

    /// Adds `count` to what is recorded for `username`.
    pub fn add(&mut self, username: String, count: usize)
        requires
            old(self).wf(),
            count_of(old(self)@, username@) + count <= usize::MAX,
        ensures
            final(self).wf(),
            final(self)@ == with_added(old(self)@, username@, count as nat),
    {
        let ghost before = *old(self);
        match self.position(&username) {
            Some(i) => {
                self.entries[i].count = self.entries[i].count + count;
                proof {
                    assert(self.names() =~= before.names());
                    assert forall|name: Seq<char>| self.names().contains(name) implies self@[name]
                        == with_added(before@, username@, count as nat)[name] by {
                        let j = self.names().index_of(name);
                        before.lemma_entry(j);
                        before.lemma_entry(i as int);
                    }
                }
            },
            None => {
                self.entries.push(UserCount { username, count });
                proof {
                    assert(self.names() =~= before.names().push(username@));
                    assert forall|name: Seq<char>| self.names().contains(name) implies self@[name]
                        == with_added(before@, username@, count as nat)[name] by {
                        let j = self.names().index_of(name);
                        if j < before.entries.len() {
                            before.lemma_entry(j);
                        }
                    }
                    assert forall|name: Seq<char>| before.names().contains(name) implies self.names().contains(
                        name,
                    ) by {
                        let j = before.names().index_of(name);
                        assert(self.names()[j] == name);
                    }
                    assert(self.names()[before.entries.len() as int] == username@);
                }
            },
        }
        assert(self@ =~= with_added(before@, username@, count as nat));
    }

    /// The entry at `i` is the one that the ledger's view holds for its name.
    proof fn lemma_entry(&self, i: int)
        requires
            self.wf(),
            0 <= i < self.entries.len(),
        ensures
            self@.contains_key(self.names()[i]),
            self@[self.names()[i]] == self.entries[i].count,
            self.names().index_of(self.names()[i]) == i,
    {
        let name = self.names()[i];
        assert(self.names().contains(name));
        let j = self.names().index_of(name);
        assert(self.names()[j] == name);
    }
}

} // verus!
