use vstd::prelude::*;
use crate::string_set::{StringSet, set_contents};
use crate::text::strings_view;

verus! {

/// The keys of the directories a task must not copy again, as the exceptions table holds them;
/// each key stands for one directory of one task. The cache answers whether a directory is
/// already excluded without asking the database.
pub struct ExcludesCache {
    keys: StringSet,
}

impl View for ExcludesCache {
    type V = Set<Seq<char>>;

    closed spec fn view(&self) -> Set<Seq<char>> {
        set_contents(self.keys)
    }
}

/// What a request to exclude a directory needs.
#[derive(Debug, Clone, Copy, PartialEq, Eq)]
pub enum AddStep {
    /// the directory is already excluded: the request answers that nothing was added
    AlreadyExcluded,
    /// the directory must be written to the exceptions table
    Insert,
}

/// The step a request to exclude the directory of `key` takes with the keys `known`.
pub open spec fn add_step_spec(known: Set<Seq<char>>, key: Seq<char>) -> AddStep {
    if known.contains(key) {
        AddStep::AlreadyExcluded
    } else {
        AddStep::Insert
    }
}

/// The keys known after the table reported deleting `rows` rows for `key`.
pub open spec fn deleted_spec(known: Set<Seq<char>>, key: Seq<char>, rows: u64) -> Set<Seq<char>> {
    if rows > 0 {
        known.remove(key)
    } else {
        known
    }
}

impl ExcludesCache {
    /// A cache that knows the keys `known` read from the exceptions table.
    pub fn new(known: &Vec<String>) -> (c: Self)
        ensures
            c@ == strings_view(known@).to_set(),
    {
        let ghost v = strings_view(known@);
        let mut keys = StringSet::new();
        let mut i: usize = 0;
        while i < known.len()
            invariant
                i <= known@.len(),
                v == strings_view(known@),
                set_contents(keys) == v.take(i as int).to_set(),
            decreases known@.len() - i,
        {
            keys.insert(known[i].clone());
            proof {
                assert(v.take((i + 1) as int) =~= v.take(i as int).push(v[i as int]));
                v.take(i as int).lemma_push_to_set_commute(v[i as int]);
            }
            i = i + 1;
        }
        proof {
            assert(v.take(known@.len() as int) =~= v);
        }
        ExcludesCache { keys }
    }

    /// Whether the directory of `key` is already excluded.
    pub fn is_excluded(&self, key: &str) -> (r: bool)
        ensures
            r == self@.contains(key@),
    {
        self.keys.contains(key)
    }

    /// The step a request to exclude the directory of `key` takes.
    pub fn add_step(&self, key: &str) -> (r: AddStep)
        ensures
            r == add_step_spec(self@, key@),
    {
        if self.keys.contains(key) {
            AddStep::AlreadyExcluded
        } else {
            AddStep::Insert
        }
    }

    /// Records that the directory of `key` was written to the exceptions table, which reported
    /// adding `rows` rows; answers whether the directory is new to the table.
    pub fn record_insert(&mut self, key: String, rows: u64) -> (added: bool)
        ensures
            final(self)@ == old(self)@.insert(key@),
            added == (rows > 0),
    {
        self.keys.insert(key);
        rows > 0
    }

    /// Records that the table reported deleting `rows` rows for the directory of `key`: the key
    /// is forgotten only when a row went.
    pub fn record_delete(&mut self, key: &str, rows: u64)
        ensures
            final(self)@ == deleted_spec(old(self)@, key@, rows),
    {
        if rows > 0 {
            self.keys.remove(key);
        }
    }

    /// Records that the directories of a task, whose keys are `keys`, were cleared from the table.
    pub fn record_clear(&mut self, keys: &Vec<String>)
        ensures
            final(self)@ == old(self)@.difference(strings_view(keys@).to_set()),
    {
        let ghost v = strings_view(keys@);
        let ghost start = self@;
        let mut i: usize = 0;
        while i < keys.len()
            invariant
                i <= keys@.len(),
                v == strings_view(keys@),
                set_contents(self.keys) == start.difference(v.take(i as int).to_set()),
            decreases keys@.len() - i,
        {
            self.keys.remove(keys[i].as_str());
            proof {
                assert(v.take((i + 1) as int) =~= v.take(i as int).push(v[i as int]));
                v.take(i as int).lemma_push_to_set_commute(v[i as int]);
                assert(start.difference(v.take(i as int).to_set()).remove(v[i as int])
                    =~= start.difference(v.take((i + 1) as int).to_set()));
            }
            i = i + 1;
        }
        proof {
            assert(v.take(keys@.len() as int) =~= v);
        }
    }
}

/// A directory excluded once is not excluded again: after its key is recorded, a new request
/// for it answers that nothing was added, without writing to the table.
pub proof fn lemma_excluded_dir_is_skipped(known: Set<Seq<char>>, key: Seq<char>)
    ensures
        add_step_spec(known.insert(key), key) == AddStep::AlreadyExcluded,
{
}

/// A directory whose row was deleted (to scan its packet again) can be excluded again.
pub proof fn lemma_deleted_dir_is_added_again(known: Set<Seq<char>>, key: Seq<char>, rows: u64)
    requires
        rows > 0,
    ensures
        add_step_spec(deleted_spec(known, key, rows), key) == AddStep::Insert,
{
}

/// After a task's directories are cleared, none of them is excluded, and the keys of other
/// directories are kept.
pub proof fn lemma_clear_forgets_only_those(known: Set<Seq<char>>, cleared: Set<Seq<char>>, key: Seq<char>)
    ensures
        cleared.contains(key) ==> add_step_spec(known.difference(cleared), key) == AddStep::Insert,
        !cleared.contains(key) ==> add_step_spec(known.difference(cleared), key) == add_step_spec(
            known,
            key,
        ),
{
}

} // verus!
