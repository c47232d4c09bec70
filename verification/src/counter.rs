//! How often each command was used, and the report of it.
use vstd::prelude::*;
use crate::text::{decimal, push_decimal, same_text};

verus! {

/// The number of uses of each command, in the order the commands were first
/// used. No name occurs twice.
pub struct CommandCounter {
    entries: Vec<(String, u64)>,
}

pub open spec fn names_distinct(es: Seq<(Seq<char>, u64)>) -> bool {
    forall|i: int, j: int| 0 <= i < es.len() && 0 <= j < es.len() && i != j ==> es[i].0 != es[j].0
}

/// The position of `name` among the entries, if it is there.
pub open spec fn position_of(es: Seq<(Seq<char>, u64)>, name: Seq<char>) -> Option<int> {
    if exists|i: int| 0 <= i < es.len() && #[trigger] es[i].0 == name {
        Some(choose|i: int| 0 <= i < es.len() && #[trigger] es[i].0 == name)
    } else {
        None
    }
}

/// How often `name` was used: zero for a command never seen.
pub open spec fn count_of(es: Seq<(Seq<char>, u64)>, name: Seq<char>) -> u64 {
    match position_of(es, name) {
        Some(i) => es[i].1,
        None => 0,
    }
}

/// The counts after one more use of `name`: its entry goes up by one, or a
/// new entry with one use is added at the end.
pub open spec fn recorded(es: Seq<(Seq<char>, u64)>, name: Seq<char>) -> Seq<(Seq<char>, u64)> {
    match position_of(es, name) {
        Some(i) => es.update(i, (name, (es[i].1 + 1) as u64)),
        None => es.push((name, 1u64)),
    }
}

/// One line of the report per command: `name: count`.
pub open spec fn report_lines(es: Seq<(Seq<char>, u64)>) -> Seq<char>
    decreases es.len(),
{
    if es.len() == 0 {
        Seq::empty()
    } else {
        report_lines(es.drop_last()) + es.last().0 + ": "@ + decimal(es.last().1 as nat) + "\n"@
    }
}

impl CommandCounter {
    /// The entries: each command's name and count, first used first.
    pub closed spec fn view(&self) -> Seq<(Seq<char>, u64)> {
        self.entries@.map_values(|e: (String, u64)| (e.0@, e.1))
    }

    #[verifier::type_invariant]
    closed spec fn inv(&self) -> bool {
        names_distinct(self.view())
    }

    /// A counter that has seen no command.
    pub fn new() -> (r: Self)
        ensures
            r.view() == Seq::<(Seq<char>, u64)>::empty(),
            names_distinct(r.view()),
    {
        let r = CommandCounter { entries: Vec::new() };
        assert(r.view() =~= Seq::<(Seq<char>, u64)>::empty());
        r
    }

    /// Counts one more use of the command `name`.
    pub fn record(&mut self, name: &str)
        requires
            count_of(old(self).view(), name@) < u64::MAX,
        ensures
            final(self).view() == recorded(old(self).view(), name@),
            names_distinct(final(self).view()),
    {
        proof {
            use_type_invariant(&*self);
        }
        let ghost es = self.view();
        let mut entries: Vec<(String, u64)> = Vec::new();
        std::mem::swap(&mut entries, &mut self.entries);
        assert(es == entries@.map_values(|e: (String, u64)| (e.0@, e.1)));
        let mut i: usize = 0;
        while i < entries.len()
            invariant
                i <= entries.len(),
                es == entries@.map_values(|e: (String, u64)| (e.0@, e.1)),
                es == old(self).view(),
                names_distinct(es),
                count_of(es, name@) < u64::MAX,
                forall|j: int| 0 <= j < i ==> es[j].0 != name@,
            decreases entries.len() - i,
        {
            if same_text(entries[i].0.as_str(), name) {
                assert(es[i as int].0 == name@);
                assert(position_of(es, name@) == Some(i as int)) by {
                    let k = choose|k: int| 0 <= k < es.len() && #[trigger] es[k].0 == name@;
                    assert(es[k].0 == name@);
                }
                let c = entries[i].1;
                entries[i].1 = c + 1;
                let ghost after = entries@.map_values(|e: (String, u64)| (e.0@, e.1));
                assert(after =~= es.update(i as int, (name@, (es[i as int].1 + 1) as u64)));
                assert(names_distinct(after));
                self.entries = entries;
                return;
            }
            i = i + 1;
        }
        assert(position_of(es, name@) is None);
        entries.push((name.to_string(), 1));
        let ghost after = entries@.map_values(|e: (String, u64)| (e.0@, e.1));
        assert(after =~= es.push((name@, 1u64)));
        self.entries = entries;
    }

    /// How often the command `name` was used.
    pub fn count(&self, name: &str) -> (r: u64)
        ensures
            r == count_of(self.view(), name@),
    {
        proof {
            use_type_invariant(self);
        }
        let ghost es = self.view();
        let mut i: usize = 0;
        while i < self.entries.len()
            invariant
                i <= self.entries.len(),
                es == self.view(),
                names_distinct(es),
                forall|j: int| 0 <= j < i ==> es[j].0 != name@,
            decreases self.entries.len() - i,
        {
            if same_text(self.entries[i].0.as_str(), name) {
                assert(es[i as int].0 == name@);
                assert(position_of(es, name@) == Some(i as int)) by {
                    let k = choose|k: int| 0 <= k < es.len() && #[trigger] es[k].0 == name@;
                    assert(es[k].0 == name@);
                }
                return self.entries[i].1;
            }
            i = i + 1;
        }
        assert(position_of(es, name@) is None);
        0
    }

    /// `Commands used:` and a line `name: count` for each command.
    pub fn report(&self) -> (r: String)
        ensures
            r@ == "Commands used:\n"@ + report_lines(self.view()),
    {
        let mut out = "Commands used:\n".to_string();
        let ghost head = out@;
        let ghost es = self.view();
        let mut i: usize = 0;
        while i < self.entries.len()
            invariant
                i <= self.entries.len(),
                es == self.view(),
                out@ == head + report_lines(es.take(i as int)),
            decreases self.entries.len() - i,
        {
            assert(es.take(i + 1).drop_last() =~= es.take(i as int));
            out.append(self.entries[i].0.as_str());
            out.append(": ");
            push_decimal(&mut out, self.entries[i].1);
            out.append("\n");
            i = i + 1;
            assert(out@ =~= head + report_lines(es.take(i as int)));
        }
        assert(es.take(i as int) =~= es);
        out
    }
}

/// Recording a use adds one to that command's count and changes no other.
pub proof fn lemma_record_counts(es: Seq<(Seq<char>, u64)>, name: Seq<char>, other: Seq<char>)
    requires
        names_distinct(es),
        count_of(es, name) < u64::MAX,
    ensures
        count_of(recorded(es, name), name) == count_of(es, name) + 1,
        other != name ==> count_of(recorded(es, name), other) == count_of(es, other),
        names_distinct(recorded(es, name)),
{
    let after = recorded(es, name);
    match position_of(es, name) {
        Some(i) => {
            let k = choose|k: int| 0 <= k < es.len() && #[trigger] es[k].0 == name;
            assert(es[k].0 == name);
            assert(after[i].0 == name);
            assert(position_of(after, name) == Some(i)) by {
                let m = choose|m: int| 0 <= m < after.len() && #[trigger] after[m].0 == name;
                assert(after[m].0 == name);
            }
            if other != name {
                if exists|j: int| 0 <= j < es.len() && #[trigger] es[j].0 == other {
                    let j = choose|j: int| 0 <= j < es.len() && #[trigger] es[j].0 == other;
                    assert(after[j].0 == other);
                    let m = choose|m: int| 0 <= m < after.len() && #[trigger] after[m].0 == other;
                    assert(after[m].0 == other);
                } else {
                    assert forall|j: int| 0 <= j < after.len() implies #[trigger] after[j].0 != other by {
                        assert(j != i ==> after[j] == es[j]);
                    }
                }
            }
        },
        None => {
            assert(after[es.len() as int].0 == name);
            assert(position_of(after, name) == Some(es.len() as int)) by {
                let m = choose|m: int| 0 <= m < after.len() && #[trigger] after[m].0 == name;
                assert(after[m].0 == name);
                if m < es.len() {
                    assert(es[m].0 == name);
                }
            }
            if other != name {
                if exists|j: int| 0 <= j < es.len() && #[trigger] es[j].0 == other {
                    let j = choose|j: int| 0 <= j < es.len() && #[trigger] es[j].0 == other;
                    assert(after[j].0 == other);
                    let m = choose|m: int| 0 <= m < after.len() && #[trigger] after[m].0 == other;
                    assert(after[m].0 == other);
                } else {
                    assert forall|j: int| 0 <= j < after.len() implies #[trigger] after[j].0 != other by {
                        if j < es.len() {
                            assert(after[j] == es[j]);
                        }
                    }
                }
            }
        },
    }
}

} // verus!
