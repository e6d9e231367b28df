use vstd::prelude::*;
use vstd::string::*;
use crate::text::{
    decimal, digit_char, digits_value, all_digits, is_digit, find_from, split_once_spec, split_once,
    parse_u32_spec, parse_u32, u64_to_decimal,
};
use crate::files::{join_path, join_path_spec};
use crate::string_set::{StringSet, set_contents};

verus! {

/// The mark between a directory's new name and the number of times it was renamed.
pub open spec fn iter_mark() -> Seq<char> {
    seq!['_', 'i', 't', 'e', 'r', '_']
}

/// The iteration of a forgotten directory found again: one more than the number after the first
/// `_iter_` in its path (one when that is not a number), or zero for a path without the mark.
pub open spec fn dir_iteration_spec(path: Seq<char>) -> int {
    match split_once_spec(path, iter_mark()) {
        Some((_, suffix)) => match parse_u32_spec(suffix) {
            Some(x) => x + 1,
            None => 1,
        },
        None => 0,
    }
}

/// The iteration to give a directory that is still in the watched directory after a cycle;
/// `None` when it does not fit in a `u32` (the number after the mark is `u32::MAX`, where the
/// addition of one overflows).
pub fn dir_iteration(path: &str) -> (r: Option<u32>)
    ensures
        r == (if dir_iteration_spec(path@) <= u32::MAX {
            Some(dir_iteration_spec(path@) as u32)
        } else {
            None
        }),
{
    proof {
        reveal_strlit("_iter_");
        assert("_iter_"@ =~= iter_mark());
    }
    match split_once(path, "_iter_") {
        Some((_, suffix)) => match parse_u32(suffix.as_str()) {
            Some(x) => x.checked_add(1),
            None => Some(1),
        },
        None => Some(0),
    }
}

/// The new name of a forgotten directory: a fresh identifier, the mark, and its iteration.
pub fn iterated_dir_name(id: &str, iteration: u32) -> (r: String)
    ensures
        r@ == id@ + iter_mark() + decimal(iteration as nat),
{
    proof {
        reveal_strlit("_iter_");
    }
    let mut r = String::from_str(id);
    r.append("_iter_");
    let n = u64_to_decimal(iteration as u64);
    r.append(n.as_str());
    proof {
        assert(r@ =~= id@ + iter_mark() + decimal(iteration as nat));
    }
    r
}

proof fn lemma_decimal_digits(n: nat)
    ensures
        decimal(n).len() > 0,
        all_digits(decimal(n)),
        digits_value(decimal(n)) == n,
        decimal(n)[0] != '+',
    decreases n,
{
    if n < 10 {
        assert(decimal(n) == seq![digit_char(n)]);
        assert(decimal(n).drop_last() =~= Seq::<char>::empty());
        assert(digits_value(Seq::<char>::empty()) == 0);
    } else {
        lemma_decimal_digits(n / 10);
        let d = decimal(n);
        assert(d == decimal(n / 10) + seq![digit_char(n % 10)]);
        assert(d.drop_last() =~= decimal(n / 10));
        assert(d.last() == digit_char(n % 10));
        assert forall|i: int| 0 <= i < d.len() implies is_digit(#[trigger] d[i]) by {
            if i < decimal(n / 10).len() {
                assert(d[i] == decimal(n / 10)[i]);
            }
        }
        assert(d[0] == decimal(n / 10)[0]);
    }
}

proof fn lemma_find_after_plain(id: Seq<char>, rest: Seq<char>, i: nat)
    requires
        forall|k: int| 0 <= k < id.len() ==> id[k] != '_',
        i <= id.len(),
    ensures
        find_from(id + iter_mark() + rest, iter_mark(), i) == Some(id.len()),
    decreases id.len() - i,
{
    let s = id + iter_mark() + rest;
    if i < id.len() {
        assert(s.subrange(i as int, (i + 6) as int)[0] == id[i as int]);
        assert(s.subrange(i as int, (i + 6) as int) != iter_mark());
        lemma_find_after_plain(id, rest, i + 1);
    } else {
        assert(s.subrange(i as int, (i + 6) as int) =~= iter_mark());
    }
}

/// A directory renamed by the watcher is, when found again, given the next iteration: the name
/// made of an identifier without underscores (such as a UUID), the mark and iteration `n` yields
/// iteration `n + 1`.
pub proof fn lemma_renamed_dir_iteration(id: Seq<char>, n: u32)
    requires
        forall|k: int| 0 <= k < id.len() ==> id[k] != '_',
        n < u32::MAX,
    ensures
        dir_iteration_spec(id + iter_mark() + decimal(n as nat)) == n + 1,
{
    let rest = decimal(n as nat);
    let s = id + iter_mark() + rest;
    lemma_find_after_plain(id, rest, 0);
    assert(s.subrange((id.len() + 6) as int, s.len() as int) =~= rest);
    lemma_decimal_digits(n as nat);
    assert(split_once_spec(s, iter_mark()) == Some((s.subrange(0, id.len() as int), rest)));
    assert(parse_u32_spec(rest) == Some(n));
}

/// The name to give the directory `dir` of the watched directory `watched` when it is found
/// again: `id`, the mark, and the iteration read from its full path; `None` when that iteration
/// does not fit in a `u32`.
pub fn next_dir_name(id: &str, watched: &str, dir: &str) -> (r: Option<String>)
    ensures
        match r {
            Some(name) => dir_iteration_spec(join_path_spec(watched@, dir@)) <= u32::MAX
                && name@ == id@ + iter_mark() + decimal(
                dir_iteration_spec(join_path_spec(watched@, dir@)) as nat,
            ),
            None => dir_iteration_spec(join_path_spec(watched@, dir@)) > u32::MAX,
        },
{
    let old_path = join_path(watched, dir);
    match dir_iteration(old_path.as_str()) {
        Some(n) => Some(iterated_dir_name(id, n)),
        None => None,
    }
}

/// What the watcher of forgotten directories remembers between its cycles: the names of the
/// directories it found in the watched directory.
pub struct ForgetWatcher {
    seen: StringSet,
}

impl View for ForgetWatcher {
    type V = Set<Seq<char>>;

    closed spec fn view(&self) -> Set<Seq<char>> {
        set_contents(self.seen)
    }
}

/// A visit of `dir`: whether it was seen before (it is then due to be renamed), and what is
/// remembered afterwards.
pub open spec fn visit_spec(seen: Set<Seq<char>>, dir: Seq<char>) -> (bool, Set<Seq<char>>) {
    if seen.contains(dir) {
        (true, seen)
    } else {
        (false, seen.insert(dir))
    }
}

/// What is remembered after a cycle that found `dir_count` directories began.
pub open spec fn begin_cycle_spec(seen: Set<Seq<char>>, dir_count: nat) -> Set<Seq<char>> {
    if dir_count == 0 {
        Set::empty()
    } else {
        seen
    }
}

/// What is remembered after `old_name` was renamed to `new_name`.
pub open spec fn renamed_spec(seen: Set<Seq<char>>, old_name: Seq<char>, new_name: Seq<char>) -> Set<
    Seq<char>,
> {
    seen.remove(old_name).insert(new_name)
}

impl ForgetWatcher {
    /// A watcher that has seen nothing yet.
    pub fn new() -> (w: Self)
        ensures
            w@ == Set::<Seq<char>>::empty(),
    {
        ForgetWatcher { seen: StringSet::new() }
    }

    /// Whether the watcher has seen the directory `dir`.
    pub fn is_seen(&self, dir: &str) -> (r: bool)
        ensures
            r == self@.contains(dir@),
    {
        self.seen.contains(dir)
    }

    /// Begins a cycle that found `dir_count` directories: an empty watched directory makes the
    /// watcher forget all it has seen.
    pub fn begin_cycle(&mut self, dir_count: usize)
        ensures
            final(self)@ == begin_cycle_spec(old(self)@, dir_count as nat),
    {
        if dir_count == 0 {
            self.seen.clear();
        }
    }

    /// Visits the directory `dir` found in this cycle. Returns whether it was seen in an earlier
    /// one, so that it is due to be renamed; a directory not seen before is remembered.
    pub fn visit(&mut self, dir: String) -> (due: bool)
        ensures
            (due, final(self)@) == visit_spec(old(self)@, dir@),
    {
        if self.seen.contains(dir.as_str()) {
            true
        } else {
            self.seen.insert(dir);
            false
        }
    }

    /// Records that the directory `old_name` was renamed to `new_name`.
    pub fn renamed(&mut self, old_name: &str, new_name: String)
        ensures
            final(self)@ == renamed_spec(old(self)@, old_name@, new_name@),
    {
        self.seen.remove(old_name);
        self.seen.insert(new_name);
    }
}

/// A directory found in two cycles in a row is due to be renamed on the second: a first visit
/// remembers it, and the next visit reports it.
pub proof fn lemma_second_visit_is_due(seen: Set<Seq<char>>, dir: Seq<char>)
    ensures
        visit_spec(visit_spec(seen, dir).1, dir).0,
        visit_spec(visit_spec(seen, dir).1, dir).1 == visit_spec(seen, dir).1,
{
}

/// A cycle that finds the watched directory empty leaves nothing remembered, so any directory
/// that appears later is first remembered and not renamed.
pub proof fn lemma_empty_cycle_forgets(seen: Set<Seq<char>>, dir: Seq<char>)
    ensures
        !visit_spec(begin_cycle_spec(seen, 0), dir).0,
{
}

/// After a rename the new name is remembered and the old one is not (when they differ): a
/// directory that keeps its new name is renamed again on the next cycle, and a new directory
/// under the old name is first remembered.
pub proof fn lemma_rename_moves_name(seen: Set<Seq<char>>, old_name: Seq<char>, new_name: Seq<char>)
    requires
        old_name != new_name,
    ensures
        visit_spec(renamed_spec(seen, old_name, new_name), new_name).0,
        !visit_spec(renamed_spec(seen, old_name, new_name), old_name).0,
{
}

/// A rename forgets only the old name: the new name is seen afterwards, the old one is not (when
/// they differ), and every other directory is seen exactly when it was seen before.
pub proof fn lemma_rename_forgets_only_old(
    seen: Set<Seq<char>>,
    old_name: Seq<char>,
    new_name: Seq<char>,
    dir: Seq<char>,
)
    ensures
        renamed_spec(seen, old_name, new_name).contains(new_name),
        old_name != new_name ==> !renamed_spec(seen, old_name, new_name).contains(old_name),
        dir != old_name && dir != new_name ==> (renamed_spec(seen, old_name, new_name).contains(dir)
            <==> seen.contains(dir)),
{
}

/// A visit answers whether the directory was seen before, remembers it, and changes nothing
/// about any other directory.
pub proof fn lemma_visit_remembers_only_it(seen: Set<Seq<char>>, dir: Seq<char>, other: Seq<char>)
    ensures
        visit_spec(seen, dir).0 == seen.contains(dir),
        visit_spec(seen, dir).1.contains(dir),
        other != dir ==> (visit_spec(seen, dir).1.contains(other) <==> seen.contains(other)),
{
}

/// A cycle that finds directories keeps all that was seen; one that finds none forgets all.
pub proof fn lemma_begin_cycle_keeps_or_forgets(seen: Set<Seq<char>>, dir_count: nat, dir: Seq<char>)
    ensures
        dir_count > 0 ==> (begin_cycle_spec(seen, dir_count).contains(dir) <==> seen.contains(dir)),
        dir_count == 0 ==> !begin_cycle_spec(seen, dir_count).contains(dir),
{
}

} // verus!
