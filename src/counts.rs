//! Per-command invocation counters, keyed by command name.
use vstd::prelude::*;

verus! {

/// `c + 1`, held at `u64::MAX` rather than wrapping.
pub open spec fn bumped(c: u64) -> u64 {
    if c == u64::MAX {
        c
    } else {
        (c + 1) as u64
    }
}

pub fn bump(c: u64) -> (r: u64)
    ensures
        r == bumped(c),
{
    c.saturating_add(1)
}

/// One command's name and how often it ran.
pub struct CommandCount {
    pub name: String,
    pub count: u64,
}

pub open spec fn names_contain(s: Seq<(Seq<char>, u64)>, name: Seq<char>) -> bool {
    exists|i: int| 0 <= i < s.len() && s[i].0 == name
}

/// The count recorded under `name`, zero when it has none.
pub open spec fn count_in(s: Seq<(Seq<char>, u64)>, name: Seq<char>) -> u64
    decreases s.len(),
{
    if s.len() == 0 {
        0
    } else if s.last().0 == name {
        s.last().1
    } else {
        count_in(s.drop_last(), name)
    }
}

pub open spec fn names_unique(s: Seq<(Seq<char>, u64)>) -> bool {
    forall|i: int, j: int| 0 <= i < j < s.len() ==> s[i].0 != s[j].0
}

proof fn lemma_count_at(s: Seq<(Seq<char>, u64)>, i: int)
    requires
        names_unique(s),
        0 <= i < s.len(),
    ensures
        count_in(s, s[i].0) == s[i].1,
    decreases s.len(),
{
    if i < s.len() - 1 {
        assert(s[s.len() - 1].0 != s[i].0);
        assert(s.drop_last()[i] == s[i]);
        lemma_count_at(s.drop_last(), i);
    }
}

proof fn lemma_count_absent(s: Seq<(Seq<char>, u64)>, name: Seq<char>)
    requires
        !names_contain(s, name),
    ensures
        count_in(s, name) == 0,
    decreases s.len(),
{
    if s.len() > 0 {
        assert(s.last() == s[s.len() - 1]);
        assert forall|i: int| 0 <= i < s.drop_last().len() implies s.drop_last()[i].0 != name by {
            assert(s.drop_last()[i] == s[i]);
        }
        lemma_count_absent(s.drop_last(), name);
    }
}

proof fn lemma_count_value(s: Seq<(Seq<char>, u64)>, name: Seq<char>)
    requires
        names_unique(s),
    ensures
        names_contain(s, name) ==> exists|i: int|
            0 <= i < s.len() && s[i].0 == name && count_in(s, name) == s[i].1,
        !names_contain(s, name) ==> count_in(s, name) == 0,
{
    if names_contain(s, name) {
        let i = choose|i: int| 0 <= i < s.len() && s[i].0 == name;
        lemma_count_at(s, i);
    } else {
        lemma_count_absent(s, name);
    }
}

/// Counters for every command name seen so far.
pub struct CommandCounts {
    entries: Vec<CommandCount>,
}

impl CommandCounts {
    closed spec fn pairs(&self) -> Seq<(Seq<char>, u64)> {
        self.entries@.map_values(|e: CommandCount| (e.name@, e.count))
    }

    pub closed spec fn wf(&self) -> bool {
        names_unique(self.pairs())
    }

    /// The count of `name`; zero for a name never recorded.
    pub closed spec fn count_of(&self, name: Seq<char>) -> u64 {
        count_in(self.pairs(), name)
    }

    pub fn new() -> (r: CommandCounts)
        ensures
            r.wf(),
            forall|n: Seq<char>| r.count_of(n) == 0,
    {
        CommandCounts { entries: Vec::new() }
    }

    /// How often `name` has been recorded.
    pub fn get(&self, name: &str) -> (r: u64)
        requires
            self.wf(),
        ensures
            r == self.count_of(name@),
    {
        let key = name.to_owned();
        let mut i: usize = 0;
        while i < self.entries.len()
            invariant
                i <= self.entries.len(),
                self.wf(),
                key@ == name@,
                forall|j: int| 0 <= j < i ==> self.pairs()[j].0 != name@,
            decreases self.entries.len() - i,
        {
            if self.entries[i].name == key {
                proof {
                    lemma_count_at(self.pairs(), i as int);
                }
                return self.entries[i].count;
            }
            i = i + 1;
        }
        proof {
            lemma_count_absent(self.pairs(), name@);
        }
        0
    }

    /// Records one more run of `name`.
    pub fn record(&mut self, name: &str)
        requires
            old(self).wf(),
        ensures
            final(self).wf(),
            final(self).count_of(name@) == bumped(old(self).count_of(name@)),
            forall|n: Seq<char>| n != name@ ==> final(self).count_of(n) == old(self).count_of(n),
    {
        let key = name.to_owned();
        let ghost before = self.pairs();
        let mut i: usize = 0;
        while i < self.entries.len()
            invariant
                i <= self.entries.len(),
                self.wf(),
                self.pairs() == before,
                before == old(self).pairs(),
                key@ == name@,
                forall|j: int| 0 <= j < i ==> before[j].0 != name@,
            decreases self.entries.len() - i,
        {
            if self.entries[i].name == key {
                let c = self.entries[i].count;
                proof {
                    lemma_count_at(before, i as int);
                }
                self.entries.set(i, CommandCount { name: key, count: bump(c) });
                proof {
                    let after = self.pairs();
                    assert(after =~= before.update(i as int, (name@, bumped(c))));
                    assert(names_unique(after)) by {
                        assert forall|a: int, b: int| 0 <= a < b < after.len() implies after[a].0
                            != after[b].0 by {
                            assert(before[a].0 != before[b].0);
                        }
                    }
                    lemma_count_at(after, i as int);
                    assert forall|n: Seq<char>| n != name@ implies count_in(after, n) == count_in(
                        before,
                        n,
                    ) by {
                        lemma_count_value(before, n);
                        lemma_count_value(after, n);
                        if names_contain(before, n) {
                            let j = choose|j: int|
                                0 <= j < before.len() && before[j].0 == n && count_in(before, n)
                                    == before[j].1;
                            assert(after[j].0 == n);
                            lemma_count_at(after, j);
                        } else {
                            if names_contain(after, n) {
                                let j = choose|j: int| 0 <= j < after.len() && after[j].0 == n;
                                assert(before[j].0 == n);
                            }
                        }
                    }
                }
                return;
            }
            i = i + 1;
        }
        proof {
            lemma_count_absent(before, name@);
        }
        self.entries.push(CommandCount { name: key, count: 1 });
        proof {
            let after = self.pairs();
            assert(after =~= before.push((name@, 1u64)));
            assert(after.drop_last() =~= before);
            assert(names_unique(after)) by {
                assert forall|a: int, b: int| 0 <= a < b < after.len() implies after[a].0
                    != after[b].0 by {
                    if b < after.len() - 1 {
                        assert(before[a].0 != before[b].0);
                    }
                }
            }
        }
    }
}

} // verus!
