use vstd::prelude::*;
use vstd::string::*;
use crate::text::eq_str;

verus! {

/// The countdowns of the copy tasks: for each task name, how long remains until its next scan.
pub struct TaskTimers {
    entries: Vec<(String, u64)>,
}

/// One step of a task's countdown, by `delay` milliseconds.
///
/// A task seen for the first time starts at its full timer and does not fire. Otherwise the
/// countdown drops by `delay`; when it does not stay above zero, the task fires and starts again
/// at its full timer.
pub open spec fn step_spec(m: Map<Seq<char>, u64>, name: Seq<char>, timer: u64, delay: u64) -> (
    Map<Seq<char>, u64>,
    bool,
) {
    if m.contains_key(name) {
        let countdown = m[name] - delay;
        if countdown > 0 {
            (m.insert(name, countdown as u64), false)
        } else {
            (m.insert(name, timer), true)
        }
    } else {
        (m.insert(name, timer), false)
    }
}

/// When a countdown may move on.
pub open spec fn step_allowed(m: Map<Seq<char>, u64>, name: Seq<char>, delay: u64) -> bool {
    m.contains_key(name) ==> m[name] >= delay
}

/// `n` steps of one task's countdown: the countdowns after them and whether each step fired.
pub open spec fn run_steps(m: Map<Seq<char>, u64>, name: Seq<char>, timer: u64, delay: u64, n: nat) -> (
    Map<Seq<char>, u64>,
    Seq<bool>,
)
    decreases n,
{
    if n == 0 {
        (m, Seq::empty())
    } else {
        let (m1, f1) = step_spec(m, name, timer, delay);
        let (m2, fs) = run_steps(m1, name, timer, delay, (n - 1) as nat);
        (m2, seq![f1] + fs)
    }
}

/// A task seen for the first time starts its countdown at its full timer and does not fire.
pub proof fn lemma_new_task_waits(m: Map<Seq<char>, u64>, name: Seq<char>, timer: u64, delay: u64)
    requires
        !m.contains_key(name),
    ensures
        step_allowed(m, name, delay),
        step_spec(m, name, timer, delay) == (m.insert(name, timer), false),
{
}

/// A countdown of `r` delays fires on exactly the `r`-th step, and not before; then it starts
/// again at the task's full timer. Every one of these steps can be taken.
pub proof fn lemma_fires_after_countdown(
    m: Map<Seq<char>, u64>,
    name: Seq<char>,
    timer: u64,
    delay: u64,
    r: nat,
)
    requires
        delay > 0,
        r >= 1,
        m.contains_key(name),
        m[name] == r * delay,
    ensures
        run_steps(m, name, timer, delay, r).0 == m.insert(name, timer),
        run_steps(m, name, timer, delay, r).1 == Seq::new(r, |i: int| i == r - 1),
        forall|j: nat| j < r ==> step_allowed(#[trigger] run_steps(m, name, timer, delay, j).0, name, delay),
    decreases r,
{
    assert(r * delay >= delay) by (nonlinear_arith)
        requires
            r >= 1,
            delay > 0,
    ;
    let (m1, f1) = step_spec(m, name, timer, delay);
    if r == 1 {
        assert(r * delay == delay) by (nonlinear_arith)
            requires
                r == 1,
        ;
        assert(m[name] - delay == 0);
        assert(run_steps(m1, name, timer, delay, 0) == (m1, Seq::<bool>::empty()));
        assert(run_steps(m, name, timer, delay, 1).1 =~= Seq::new(1, |i: int| i == 0));
        assert forall|j: nat| j < r implies step_allowed(#[trigger] run_steps(m, name, timer, delay, j).0, name, delay) by {
            assert(j == 0);
        }
    } else {
        let r1 = (r - 1) as nat;
        assert(r * delay - delay == r1 * delay) by (nonlinear_arith)
            requires
                r1 == r - 1,
        ;
        assert(r1 * delay > 0) by (nonlinear_arith)
            requires
                r1 >= 1,
                delay > 0,
        ;
        assert(m1 == m.insert(name, (r1 * delay) as u64));
        assert(!f1);
        lemma_fires_after_countdown(m1, name, timer, delay, r1);
        assert(m1.insert(name, timer) =~= m.insert(name, timer));
        assert(run_steps(m, name, timer, delay, r).1 =~= Seq::new(r, |i: int| i == r - 1));
        assert forall|j: nat| j < r implies step_allowed(#[trigger] run_steps(m, name, timer, delay, j).0, name, delay) by {
            if j > 0 {
                assert(run_steps(m, name, timer, delay, j).0 == run_steps(m1, name, timer, delay, (j - 1) as nat).0);
            }
        }
    }
}

impl TaskTimers {
    spec fn ev(&self) -> Seq<(Seq<char>, u64)> {
        self.entries@.map_values(|e: (String, u64)| (e.0@, e.1))
    }

    spec fn has_at(&self, k: Seq<char>) -> bool {
        exists|i: int| 0 <= i < self.ev().len() && self.ev()[i].0 == k
    }

    /// Each task name has at most one countdown.
    pub closed spec fn wf(&self) -> bool {
        forall|i: int, j: int|
            0 <= i < self.ev().len() && 0 <= j < self.ev().len() && i != j ==> self.ev()[i].0
                != self.ev()[j].0
    }

    proof fn lemma_view_at(&self, i: int)
        requires
            self.wf(),
            0 <= i < self.ev().len(),
        ensures
            self@.contains_key(self.ev()[i].0),
            self@[self.ev()[i].0] == self.ev()[i].1,
    {
        let k = self.ev()[i].0;
        assert(self.has_at(k));
        let j = choose|j: int| 0 <= j < self.ev().len() && self.ev()[j].0 == k;
        assert(j == i);
    }

    /// No countdown at all.
    pub fn new() -> (r: Self)
        ensures
            r.wf(),
            r@ == Map::<Seq<char>, u64>::empty(),
    {
        let r = TaskTimers { entries: Vec::new() };
        proof {
            assert(r@ =~= Map::<Seq<char>, u64>::empty());
        }
        r
    }

    fn find(&self, name: &str) -> (r: Option<usize>)
        requires
            self.wf(),
        ensures
            match r {
                Some(i) => i < self.ev().len() && self.ev()[i as int].0 == name@,
                None => !self.has_at(name@),
            },
    {
        let mut i: usize = 0;
        while i < self.entries.len()
            invariant
                i <= self.entries@.len(),
                forall|j: int| 0 <= j < i ==> self.ev()[j].0 != name@,
            decreases self.entries@.len() - i,
        {
            let s = self.entries[i].0.as_str();
            if s.unicode_len() == name.unicode_len() && eq_str(s, name) {
                proof {
                    assert(self.ev()[i as int].0 == self.entries@[i as int].0@);
                }
                return Some(i);
            }
            proof {
                assert(self.ev()[i as int].0 == self.entries@[i as int].0@);
            }
            i = i + 1;
        }
        None
    }

    /// How long remains of a task's countdown, if it has one.
    pub fn remaining(&self, name: &str) -> (r: Option<u64>)
        requires
            self.wf(),
        ensures
            r == if self@.contains_key(name@) {
                Some(self@[name@])
            } else {
                None::<u64>
            },
    {
        match self.find(name) {
            Some(i) => {
                proof {
                    self.lemma_view_at(i as int);
                }
                Some(self.entries[i].1)
            },
            None => None,
        }
    }

    /// Takes one step of a task's countdown; tells whether the task fires now.
    pub fn step(&mut self, name: &str, timer: u64, delay: u64) -> (fired: bool)
        requires
            old(self).wf(),
            step_allowed(old(self)@, name@, delay),
        ensures
            final(self).wf(),
            (final(self)@, fired) == step_spec(old(self)@, name@, timer, delay),
    {
        let ghost m = self@;
        match self.find(name) {
            Some(i) => {
                proof {
                    self.lemma_view_at(i as int);
                }
                let countdown = self.entries[i].1 - delay;
                let ghost before = self.ev();
                let (fired, value) = if countdown > 0 {
                    (false, countdown)
                } else {
                    (true, timer)
                };
                let key = self.entries[i].0.clone();
                self.entries.set(i, (key, value));
                proof {
                    assert(self.ev() =~= before.update(i as int, (name@, value)));
                    self.lemma_update_view(m, before, i as int, name@, value);
                }
                fired
            },
            None => {
                let ghost before = self.ev();
                self.entries.push((String::from_str(name), timer));
                proof {
                    assert(self.ev() =~= before.push((name@, timer)));
                    self.lemma_push_view(m, before, name@, timer);
                }
                false
            },
        }
    }

    proof fn lemma_update_view(
        &self,
        m: Map<Seq<char>, u64>,
        before: Seq<(Seq<char>, u64)>,
        i: int,
        k: Seq<char>,
        v: u64,
    )
        requires
            0 <= i < before.len(),
            before[i].0 == k,
            self.ev() == before.update(i, (k, v)),
            forall|a: int, b: int|
                0 <= a < before.len() && 0 <= b < before.len() && a != b ==> before[a].0
                    != before[b].0,
            m == Map::new(
                |key: Seq<char>| exists|j: int| 0 <= j < before.len() && before[j].0 == key,
                |key: Seq<char>| before[choose|j: int| 0 <= j < before.len() && before[j].0 == key].1,
            ),
        ensures
            self.wf(),
            self@ == m.insert(k, v),
    {
        assert(self.wf());
        assert forall|key: Seq<char>| #[trigger] self@.contains_key(key) == m.insert(k, v).contains_key(key) by {
            if m.insert(k, v).contains_key(key) {
                if key == k {
                    assert(self.ev()[i].0 == key);
                } else {
                    let j = choose|j: int| 0 <= j < before.len() && before[j].0 == key;
                    assert(self.ev()[j].0 == key);
                }
            }
            if self.has_at(key) {
                let j = choose|j: int| 0 <= j < self.ev().len() && self.ev()[j].0 == key;
                assert(before[j].0 == key);
            }
        }
        assert forall|key: Seq<char>| #[trigger] self@.contains_key(key) implies self@[key] == m.insert(k, v)[key] by {
            let j = choose|j: int| 0 <= j < self.ev().len() && self.ev()[j].0 == key;
            self.lemma_view_at(j);
            if key != k {
                assert(before[j].0 == key);
                let j2 = choose|j2: int| 0 <= j2 < before.len() && before[j2].0 == key;
                assert(j2 == j);
            }
        }
        assert(self@ =~= m.insert(k, v));
    }

    proof fn lemma_push_view(&self, m: Map<Seq<char>, u64>, before: Seq<(Seq<char>, u64)>, k: Seq<char>, v: u64)
        requires
            self.ev() == before.push((k, v)),
            forall|a: int, b: int|
                0 <= a < before.len() && 0 <= b < before.len() && a != b ==> before[a].0
                    != before[b].0,
            !(exists|j: int| 0 <= j < before.len() && before[j].0 == k),
            m == Map::new(
                |key: Seq<char>| exists|j: int| 0 <= j < before.len() && before[j].0 == key,
                |key: Seq<char>| before[choose|j: int| 0 <= j < before.len() && before[j].0 == key].1,
            ),
        ensures
            self.wf(),
            self@ == m.insert(k, v),
    {
        assert forall|a: int, b: int|
            0 <= a < self.ev().len() && 0 <= b < self.ev().len() && a != b implies self.ev()[a].0
                != self.ev()[b].0 by {
            if a == before.len() {
                assert(before[b].0 == self.ev()[b].0);
            } else if b == before.len() {
                assert(before[a].0 == self.ev()[a].0);
            }
        }
        assert(self.wf());
        assert forall|key: Seq<char>| #[trigger] self@.contains_key(key) == m.insert(k, v).contains_key(key) by {
            if m.insert(k, v).contains_key(key) {
                if key == k {
                    assert(self.ev()[before.len() as int].0 == key);
                } else {
                    let j = choose|j: int| 0 <= j < before.len() && before[j].0 == key;
                    assert(self.ev()[j].0 == key);
                }
            }
            if self.has_at(key) {
                let j = choose|j: int| 0 <= j < self.ev().len() && self.ev()[j].0 == key;
                if j < before.len() {
                    assert(before[j].0 == key);
                }
            }
        }
        assert forall|key: Seq<char>| #[trigger] self@.contains_key(key) implies self@[key] == m.insert(k, v)[key] by {
            let j = choose|j: int| 0 <= j < self.ev().len() && self.ev()[j].0 == key;
            self.lemma_view_at(j);
            if key != k {
                assert(j < before.len());
                assert(before[j].0 == key);
                let j2 = choose|j2: int| 0 <= j2 < before.len() && before[j2].0 == key;
                assert(j2 == j);
            }
        }
        assert(self@ =~= m.insert(k, v));
    }
}

impl View for TaskTimers {
    type V = Map<Seq<char>, u64>;

    closed spec fn view(&self) -> Map<Seq<char>, u64> {
        Map::new(
            |key: Seq<char>| exists|j: int| 0 <= j < self.ev().len() && self.ev()[j].0 == key,
            |key: Seq<char>| self.ev()[choose|j: int| 0 <= j < self.ev().len() && self.ev()[j].0 == key].1,
        )
    }
}

} // verus!
