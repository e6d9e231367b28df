use vstd::prelude::*;
use vstd::string::*;
use crate::text::{eq_str, first_index, lemma_first_index_stable, strings_view};
use crate::copy_rules::PacketFilters;

verus! {

/// What a copy task copies out of each new packet directory.
#[derive(Debug, Clone, Copy, PartialEq, Eq, Structural)]
pub enum CopyModifier {
    CopyAll,
    CopyOnly,
    CopyExcept,
}

/// The name under which a modifier is written in the settings file.
pub open spec fn modifier_name(m: CopyModifier) -> Seq<char> {
    match m {
        CopyModifier::CopyAll => "copy_all"@,
        CopyModifier::CopyOnly => "copy_only"@,
        CopyModifier::CopyExcept => "copy_except"@,
    }
}

/// The modifier written under a name in the settings file, if it is one.
pub open spec fn modifier_of_name(s: Seq<char>) -> Option<CopyModifier> {
    if s == "copy_only"@ {
        Some(CopyModifier::CopyOnly)
    } else if s == "copy_all"@ {
        Some(CopyModifier::CopyAll)
    } else if s == "copy_except"@ {
        Some(CopyModifier::CopyExcept)
    } else {
        None
    }
}

impl CopyModifier {
    /// The name of the modifier in the settings file.
    pub fn to_string(&self) -> (s: String)
        ensures
            s@ == modifier_name(*self),
    {
        match self {
            CopyModifier::CopyAll => String::from_str("copy_all"),
            CopyModifier::CopyOnly => String::from_str("copy_only"),
            CopyModifier::CopyExcept => String::from_str("copy_except"),
        }
    }
}

/// Reads a modifier from its name in the settings file; any other name is refused with a message
/// that lists the names.
pub fn deserialize_copy_modifier(s: &str) -> (r: Result<CopyModifier, String>)
    ensures
        match modifier_of_name(s@) {
            Some(m) => r == Ok::<CopyModifier, String>(m),
            None => r matches Err(e) && e@ == "Модификатор может быть только: copy_only, copy_all, copy_except"@,
        },
{
    if eq_str(s, "copy_only") {
        Ok(CopyModifier::CopyOnly)
    } else if eq_str(s, "copy_all") {
        Ok(CopyModifier::CopyAll)
    } else if eq_str(s, "copy_except") {
        Ok(CopyModifier::CopyExcept)
    } else {
        Err(String::from_str("Модификатор может быть только: copy_only, copy_all, copy_except"))
    }
}

/// The rules of a task read from a settings file that lists none.
pub fn empty_rules() -> (r: Vec<String>)
    ensures
        r@.len() == 0,
{
    Vec::new()
}

/// What `std::time::Duration::from_millis` gives for a number of milliseconds.
pub uninterp spec fn duration_of_millis(ms: u64) -> std::time::Duration;

/// Calls `std::time::Duration::from_millis`; its result is the one named by `duration_of_millis`.
#[verifier::external_body]
fn millis(ms: u64) -> (d: std::time::Duration)
    ensures
        d == duration_of_millis(ms),
{
    std::time::Duration::from_millis(ms)
}

/// A copy task: the directory it watches, where it copies new packets, how often it looks.
#[derive(Debug, Clone)]
pub struct Task {
    pub source_dir: String,
    pub target_dir: String,
    /// milliseconds between two scans
    pub timer: u64,
    pub task_name: String,
    pub copy_modifier: CopyModifier,
    /// copy only documents
    pub only_docs: bool,
    pub delete_after_copy: bool,
    pub rules: Vec<String>,
}

impl Default for Task {
    fn default() -> (t: Self)
        ensures
            t.source_dir@ == "in"@,
            t.target_dir@ == "out"@,
            t.timer == 20000,
            t.task_name@ == "default_thread"@,
            t.copy_modifier == CopyModifier::CopyAll,
            t.only_docs,
            !t.delete_after_copy,
            t.rules@.len() == 0,
    {
        Task {
            source_dir: String::from_str("in"),
            target_dir: String::from_str("out"),
            timer: 20000,
            task_name: String::from_str("default_thread"),
            copy_modifier: CopyModifier::CopyAll,
            only_docs: true,
            delete_after_copy: false,
            rules: Vec::new(),
        }
    }
}

impl Task {
    pub fn get_task_name(&self) -> (r: &str)
        ensures
            r@ == self.task_name@,
    {
        self.task_name.as_str()
    }

    pub fn get_source_dir(&self) -> (r: &String)
        ensures
            r == &self.source_dir,
    {
        &self.source_dir
    }

    pub fn get_target_dir(&self) -> (r: &String)
        ensures
            r == &self.target_dir,
    {
        &self.target_dir
    }

    /// The time between two scans of the task.
    pub fn get_task_delay(&self) -> (d: std::time::Duration)
        ensures
            d == duration_of_millis(self.timer),
    {
        millis(self.timer)
    }
}

/// The settings of the copy program: its tasks and the document types it knows.
#[derive(Debug, Clone)]
pub struct Settings {
    pub tasks: Vec<Task>,
    pub doc_types: Vec<String>,
}

impl Default for Settings {
    fn default() -> (s: Self)
        ensures
            s.tasks@.len() == 1,
            s.tasks@[0].task_name@ == "default_thread"@,
            s.tasks@[0].source_dir@ == "in"@,
            s.tasks@[0].target_dir@ == "out"@,
            s.tasks@[0].timer == 20000,
            s.tasks@[0].copy_modifier == CopyModifier::CopyAll,
            s.tasks@[0].only_docs,
            !s.tasks@[0].delete_after_copy,
            s.tasks@[0].rules@.len() == 0,
            s.doc_types@.len() == 2,
            s.doc_types@[0]@ == "Транспортный\\s+пакет"@,
            s.doc_types@[1]@ == "Документ"@,
    {
        let mut tasks = Vec::new();
        tasks.push(Task::default());
        let mut doc_types = Vec::new();
        doc_types.push(String::from_str("Транспортный\\s+пакет"));
        doc_types.push(String::from_str("Документ"));
        Settings { tasks, doc_types }
    }
}

/// The arguments of the copy program.
#[derive(Debug, Clone, Copy)]
pub struct Args {
    /// only scan the directories and list the packets that exist (for a first start)
    pub first_initialize: bool,
}

impl Default for Args {
    fn default() -> (a: Self)
        ensures
            !a.first_initialize,
    {
        Args { first_initialize: false }
    }
}

/// The ports of the server.
#[derive(Debug, Clone, Copy)]
pub struct Cli {
    pub ws_port: usize,
    pub http_port: usize,
}

impl Default for Cli {
    fn default() -> (c: Self)
        ensures
            c.ws_port == 3010,
            c.http_port == 3009,
    {
        Cli { ws_port: 3010, http_port: 3009 }
    }
}

/// A task of the server: the directory it watches, the directories it copies new packets to,
/// how often it looks and how it copies, which packets it cleans, and whether its packets are
/// shown.
#[derive(Debug, Clone)]
pub struct ServerTask {
    pub name: String,
    pub source_dir: String,
    pub target_dirs: Vec<String>,
    /// where delivery reports are written, if they are
    pub report_dir: Option<String>,
    /// milliseconds between two scans
    pub timer: u64,
    pub copy_modifier: CopyModifier,
    pub delete_after_copy: bool,
    /// a task that is not active does not scan its directory
    pub is_active: bool,
    /// the exclusion list of the task is to be rebuilt from its directory
    pub generate_exclude_file: bool,
    /// the packets of the task are shown in the packet list
    pub visible: bool,
    /// packets of the types in `clean_types` are removed as they are found
    pub autocleaning: bool,
    pub clean_types: Vec<String>,
    pub filters: PacketFilters,
}

impl ServerTask {
    pub fn get_task_name(&self) -> (r: &str)
        ensures
            r@ == self.name@,
    {
        self.name.as_str()
    }

    pub fn get_source_dir(&self) -> (r: &String)
        ensures
            r == &self.source_dir,
    {
        &self.source_dir
    }

    pub fn get_target_dirs(&self) -> (r: &[String])
        ensures
            r@ == self.target_dirs@,
    {
        self.target_dirs.as_slice()
    }

    pub fn get_report_dir(&self) -> (r: Option<&String>)
        ensures
            match self.report_dir {
                Some(d) => r == Some(&d),
                None => r is None,
            },
    {
        match &self.report_dir {
            Some(d) => Some(d),
            None => None,
        }
    }
}

/// The names of tasks, in order.
pub open spec fn task_names(tasks: Seq<ServerTask>) -> Seq<Seq<char>> {
    tasks.map_values(|t: ServerTask| t.name@)
}

/// A task as an update writes it over one of the same name: without the request to rebuild its
/// exclusion list, which the update itself answers.
pub open spec fn without_exclude_request(t: ServerTask) -> ServerTask {
    ServerTask { generate_exclude_file: false, ..t }
}

/// The tasks after an update with `payload`: the first task of its name is replaced by it (with
/// `generate_exclude_file` cleared), or, when there is none, it is added at the end as it is.
pub open spec fn update_spec(tasks: Seq<ServerTask>, payload: ServerTask) -> Seq<ServerTask> {
    match first_index(task_names(tasks), payload.name@, tasks.len()) {
        Some(i) => tasks.update(i, without_exclude_request(payload)),
        None => tasks.push(payload),
    }
}

/// The tasks after the request to rebuild the exclusion list of the task `name` was carried out:
/// the first task of that name has `generate_exclude_file` cleared.
pub open spec fn clear_exclude_request_spec(tasks: Seq<ServerTask>, name: Seq<char>) -> Seq<ServerTask> {
    match first_index(task_names(tasks), name, tasks.len()) {
        Some(i) => tasks.update(i, without_exclude_request(tasks[i])),
        None => tasks,
    }
}

/// The tasks after the task `name` is deleted: the first task of that name is taken out.
pub open spec fn delete_spec(tasks: Seq<ServerTask>, name: Seq<char>) -> Seq<ServerTask> {
    match first_index(task_names(tasks), name, tasks.len()) {
        Some(i) => tasks.remove(i),
        None => tasks,
    }
}

/// The index of the first task named `name`.
pub fn task_position(tasks: &Vec<ServerTask>, name: &str) -> (r: Option<usize>)
    ensures
        match r {
            Some(i) => first_index(task_names(tasks@), name@, tasks@.len()) == Some(i as int),
            None => first_index(task_names(tasks@), name@, tasks@.len()) is None,
        },
{
    let ghost v = task_names(tasks@);
    let mut i: usize = 0;
    while i < tasks.len()
        invariant
            i <= tasks@.len(),
            v == task_names(tasks@),
            first_index(v, name@, i as nat) is None,
        decreases tasks@.len() - i,
    {
        if eq_str(tasks[i].name.as_str(), name) {
            proof {
                lemma_first_index_stable(v, name@, (i + 1) as nat, tasks@.len());
            }
            return Some(i);
        }
        i = i + 1;
    }
    None
}

/// Updates the settings' tasks with `payload`: it replaces the task of its name (with
/// `generate_exclude_file` cleared), or is added when there is none. Answers whether the task's
/// exclusion list is to be rebuilt, as `payload` asks.
pub fn update(tasks: &mut Vec<ServerTask>, payload: ServerTask) -> (rebuild_excludes: bool)
    ensures
        final(tasks)@ == update_spec(old(tasks)@, payload),
        rebuild_excludes == payload.generate_exclude_file,
{
    let rebuild = payload.generate_exclude_file;
    let pos = task_position(tasks, payload.name.as_str());
    proof {
        lemma_first_index_found(task_names(tasks@), payload.name@, tasks@.len());
    }
    match pos {
        Some(i) => {
            let mut t = payload;
            t.generate_exclude_file = false;
            tasks.set(i, t);
        },
        None => {
            tasks.push(payload);
        },
    }
    rebuild
}

/// Records that the exclusion list of the task `name` was rebuilt: its request is cleared.
pub fn clear_exclude_request(tasks: &mut Vec<ServerTask>, name: &str)
    ensures
        final(tasks)@ == clear_exclude_request_spec(old(tasks)@, name@),
{
    let pos = task_position(tasks, name);
    proof {
        lemma_first_index_found(task_names(tasks@), name@, tasks@.len());
    }
    match pos {
        Some(i) => {
            let ghost before = tasks@;
            let mut t = tasks.remove(i);
            t.generate_exclude_file = false;
            tasks.insert(i, t);
            proof {
                assert(tasks@ =~= before.update(i as int, without_exclude_request(before[i as int])));
            }
        },
        None => {},
    }
}

/// The names of the visible tasks among the first `n`, in order.
pub open spec fn visible_names_spec(tasks: Seq<ServerTask>, n: nat) -> Seq<Seq<char>>
    decreases n,
{
    if n == 0 {
        Seq::empty()
    } else if tasks[n - 1].visible {
        visible_names_spec(tasks, (n - 1) as nat).push(tasks[n - 1].name@)
    } else {
        visible_names_spec(tasks, (n - 1) as nat)
    }
}

/// The names of the tasks whose packets are shown, in order.
pub fn visible_task_names(tasks: &Vec<ServerTask>) -> (r: Vec<String>)
    ensures
        strings_view(r@) == visible_names_spec(tasks@, tasks@.len()),
{
    let mut r: Vec<String> = Vec::new();
    let mut i: usize = 0;
    while i < tasks.len()
        invariant
            i <= tasks@.len(),
            strings_view(r@) == visible_names_spec(tasks@, i as nat),
        decreases tasks@.len() - i,
    {
        if tasks[i].visible {
            let ghost before = r@;
            r.push(tasks[i].name.clone());
            proof {
                assert(strings_view(r@) =~= strings_view(before).push(tasks@[i as int].name@));
            }
        }
        i = i + 1;
    }
    r
}

/// Deletes the task `task_name` from the settings' tasks.
pub fn delete(tasks: &mut Vec<ServerTask>, task_name: &str)
    ensures
        final(tasks)@ == delete_spec(old(tasks)@, task_name@),
{
    let pos = task_position(tasks, task_name);
    proof {
        lemma_first_index_found(task_names(tasks@), task_name@, tasks@.len());
    }
    match pos {
        Some(i) => {
            tasks.remove(i);
        },
        None => {},
    }
}

/// The first `n` names hold no `name` when no task among them has it.
proof fn lemma_first_index_none(names: Seq<Seq<char>>, name: Seq<char>, n: nat)
    requires
        n <= names.len(),
        forall|k: int| 0 <= k < n ==> names[k] != name,
    ensures
        first_index(names, name, n) is None,
    decreases n,
{
    if n > 0 {
        lemma_first_index_none(names, name, (n - 1) as nat);
    }
}

/// The first index found is that of a name equal to `name`, and no earlier name is.
pub proof fn lemma_first_index_found(names: Seq<Seq<char>>, name: Seq<char>, n: nat)
    requires
        n <= names.len(),
    ensures
        match first_index(names, name, n) {
            Some(i) => 0 <= i < n && names[i] == name && forall|k: int| 0 <= k < i ==> names[k]
                != name,
            None => forall|k: int| 0 <= k < n ==> names[k] != name,
        },
    decreases n,
{
    if n > 0 {
        lemma_first_index_found(names, name, (n - 1) as nat);
    }
}

/// The first index depends on the names only up to where it is found.
proof fn lemma_first_index_same_prefix(a: Seq<Seq<char>>, b: Seq<Seq<char>>, name: Seq<char>, n: nat)
    requires
        n <= a.len(),
        n <= b.len(),
        forall|k: int| 0 <= k < n ==> a[k] == b[k],
    ensures
        first_index(a, name, n) == first_index(b, name, n),
    decreases n,
{
    if n > 0 {
        lemma_first_index_same_prefix(a, b, name, (n - 1) as nat);
    }
}

/// After an update with a task, looking that task's name up finds it: the task read back under
/// the name is the one written (without the request to rebuild exclusions when it replaced
/// another), and the number of tasks grew by one only if the name was new.
pub proof fn lemma_update_then_find(tasks: Seq<ServerTask>, payload: ServerTask)
    ensures
        ({
            let after = update_spec(tasks, payload);
            &&& first_index(task_names(after), payload.name@, after.len()) matches Some(i)
                && after[i] == (if first_index(task_names(tasks), payload.name@, tasks.len()) is Some {
                without_exclude_request(payload)
            } else {
                payload
            })
            &&& after.len() == tasks.len() + (if first_index(
                task_names(tasks),
                payload.name@,
                tasks.len(),
            ) is Some {
                0int
            } else {
                1int
            })
        }),
{
    let names = task_names(tasks);
    let name = payload.name@;
    let after = update_spec(tasks, payload);
    let an = task_names(after);
    lemma_first_index_found(names, name, tasks.len());
    match first_index(names, name, tasks.len()) {
        Some(i) => {
            assert(an =~= names.update(i, name));
            lemma_first_index_same_prefix(an, names, name, i as nat);
            lemma_first_index_none(names, name, i as nat);
            assert(first_index(an, name, (i + 1) as nat) == Some(i));
            lemma_first_index_stable(an, name, (i + 1) as nat, after.len());
        },
        None => {
            assert(an =~= names.push(name));
            lemma_first_index_same_prefix(an, names, name, tasks.len());
            assert(first_index(an, name, (tasks.len() + 1) as nat) == Some(tasks.len() as int));
        },
    }
}

/// Updating twice with the same task leaves what one update leaves, for a task that asks for no
/// rebuild of its exclusions.
pub proof fn lemma_update_idempotent(tasks: Seq<ServerTask>, payload: ServerTask)
    requires
        !payload.generate_exclude_file,
    ensures
        update_spec(update_spec(tasks, payload), payload) == update_spec(tasks, payload),
{
    let after = update_spec(tasks, payload);
    lemma_update_then_find(tasks, payload);
    lemma_first_index_found(task_names(after), payload.name@, after.len());
    let i = first_index(task_names(after), payload.name@, after.len()).unwrap();
    assert(without_exclude_request(payload) == payload);
    assert(after.update(i, payload) =~= after);
}

/// When task names are unique, a deleted task is no longer found, and the other tasks stay in
/// their order.
pub proof fn lemma_delete_then_absent(tasks: Seq<ServerTask>, name: Seq<char>)
    requires
        forall|a: int, b: int|
            0 <= a < b < tasks.len() ==> tasks[a].name@ != tasks[b].name@,
    ensures
        first_index(
            task_names(delete_spec(tasks, name)),
            name,
            delete_spec(tasks, name).len(),
        ) is None,
        delete_spec(tasks, name) == tasks.filter(|t: ServerTask| t.name@ != name),
{
    let names = task_names(tasks);
    lemma_first_index_found(names, name, tasks.len());
    let after = delete_spec(tasks, name);
    match first_index(names, name, tasks.len()) {
        Some(i) => {
            assert forall|k: int| 0 <= k < after.len() implies task_names(after)[k] != name by {
                if k < i {
                    assert(after[k] == tasks[k]);
                } else {
                    assert(after[k] == tasks[k + 1]);
                }
            }
            lemma_first_index_none(task_names(after), name, after.len());
            lemma_filter_skips_one(tasks, name, i);
        },
        None => {
            assert forall|k: int| 0 <= k < tasks.len() implies tasks[k].name@ != name by {
                assert(names[k] == tasks[k].name@);
            }
            lemma_first_index_none(task_names(after), name, after.len());
            lemma_filter_keeps_all(tasks, name);
        },
    }
}

proof fn lemma_filter_keeps_all(tasks: Seq<ServerTask>, name: Seq<char>)
    requires
        forall|k: int| 0 <= k < tasks.len() ==> tasks[k].name@ != name,
    ensures
        tasks.filter(|t: ServerTask| t.name@ != name) == tasks,
    decreases tasks.len(),
{
    reveal(Seq::filter);
    if tasks.len() > 0 {
        lemma_filter_keeps_all(tasks.drop_last(), name);
        assert(tasks.drop_last().push(tasks.last()) =~= tasks);
    } else {
        assert(tasks.filter(|t: ServerTask| t.name@ != name) =~= tasks);
    }
}

proof fn lemma_filter_skips_one(tasks: Seq<ServerTask>, name: Seq<char>, i: int)
    requires
        0 <= i < tasks.len(),
        tasks[i].name@ == name,
        forall|k: int| 0 <= k < tasks.len() && k != i ==> tasks[k].name@ != name,
    ensures
        tasks.filter(|t: ServerTask| t.name@ != name) == tasks.remove(i),
    decreases tasks.len(),
{
    reveal(Seq::filter);
    let last = tasks.len() - 1;
    if i == last {
        lemma_filter_keeps_all(tasks.drop_last(), name);
        assert(tasks.remove(i) =~= tasks.drop_last());
    } else {
        lemma_filter_skips_one(tasks.drop_last(), name, i);
        assert(tasks.drop_last().remove(i).push(tasks.last()) =~= tasks.remove(i));
    }
}

/// The message that refuses settings whose task names a directory that does not exist.
pub open spec fn missing_dir_message(dir: Seq<char>) -> Seq<char> {
    "Ошибка, директории `"@ + dir + "` не существует"@
}

/// The first directory, in the order the tasks are checked (each task's source, then its
/// target), among the first `n` tasks that does not exist.
pub open spec fn first_missing_dir(
    tasks: Seq<Task>,
    source_exists: Seq<bool>,
    target_exists: Seq<bool>,
    n: nat,
) -> Option<Seq<char>>
    decreases n,
{
    if n == 0 {
        None
    } else {
        match first_missing_dir(tasks, source_exists, target_exists, (n - 1) as nat) {
            Some(d) => Some(d),
            None => if !source_exists[n - 1] {
                Some(tasks[n - 1].source_dir@)
            } else if !target_exists[n - 1] {
                Some(tasks[n - 1].target_dir@)
            } else {
                None
            },
        }
    }
}

impl Settings {
    /// Checks that the directories of every task exist (`source_exists[i]` and
    /// `target_exists[i]` tell it for the task `i`); answers the message about the first that
    /// does not, which makes the settings unusable.
    pub fn check_dirs(&self, source_exists: &Vec<bool>, target_exists: &Vec<bool>) -> (r: Option<
        String,
    >)
        requires
            source_exists@.len() == self.tasks@.len(),
            target_exists@.len() == self.tasks@.len(),
        ensures
            match first_missing_dir(self.tasks@, source_exists@, target_exists@, self.tasks@.len()) {
                Some(d) => r matches Some(m) && m@ == missing_dir_message(d),
                None => r is None,
            },
    {
        let mut i: usize = 0;
        while i < self.tasks.len()
            invariant
                i <= self.tasks@.len(),
                source_exists@.len() == self.tasks@.len(),
                target_exists@.len() == self.tasks@.len(),
                first_missing_dir(self.tasks@, source_exists@, target_exists@, i as nat) is None,
            decreases self.tasks@.len() - i,
        {
            let missing = if !source_exists[i] {
                Some(self.tasks[i].source_dir.as_str())
            } else if !target_exists[i] {
                Some(self.tasks[i].target_dir.as_str())
            } else {
                None
            };
            match missing {
                Some(d) => {
                    proof {
                        lemma_first_missing_stable(
                            self.tasks@,
                            source_exists@,
                            target_exists@,
                            (i + 1) as nat,
                            self.tasks@.len(),
                        );
                    }
                    let mut m = String::from_str("Ошибка, директории `");
                    m.append(d);
                    m.append("` не существует");
                    return Some(m);
                },
                None => {},
            }
            i = i + 1;
        }
        None
    }
}

proof fn lemma_first_missing_stable(
    tasks: Seq<Task>,
    source_exists: Seq<bool>,
    target_exists: Seq<bool>,
    k: nat,
    m: nat,
)
    requires
        k <= m,
        first_missing_dir(tasks, source_exists, target_exists, k) is Some,
    ensures
        first_missing_dir(tasks, source_exists, target_exists, m) == first_missing_dir(
            tasks,
            source_exists,
            target_exists,
            k,
        ),
    decreases m - k,
{
    if k < m {
        lemma_first_missing_stable(tasks, source_exists, target_exists, k, (m - 1) as nat);
    }
}

/// The visible names are the names of exactly the tasks marked visible, in their order, whatever
/// the other fields of the tasks.
pub proof fn lemma_visible_names_are_the_visible_tasks(tasks: Seq<ServerTask>, n: nat)
    requires
        n <= tasks.len(),
    ensures
        visible_names_spec(tasks, n) == tasks.take(n as int).filter(|t: ServerTask| t.visible).map_values(
            |t: ServerTask| t.name@,
        ),
    decreases n,
{
    reveal(Seq::filter);
    let pred = |t: ServerTask| t.visible;
    if n == 0 {
        assert(tasks.take(0) =~= Seq::<ServerTask>::empty());
        assert(Seq::<ServerTask>::empty().filter(pred) =~= Seq::<ServerTask>::empty());
        assert(Seq::<ServerTask>::empty().filter(pred).map_values(|t: ServerTask| t.name@)
            =~= Seq::<Seq<char>>::empty());
    } else {
        lemma_visible_names_are_the_visible_tasks(tasks, (n - 1) as nat);
        let pre = tasks.take(n - 1);
        let cur = tasks.take(n as int);
        assert(cur.drop_last() =~= pre);
        assert(cur.last() == tasks[n - 1]);
        let fp = pre.filter(pred);
        if tasks[n - 1].visible {
            assert(cur.filter(pred) == fp.push(tasks[n - 1]));
            assert(fp.push(tasks[n - 1]).map_values(|t: ServerTask| t.name@) =~= fp.map_values(
                |t: ServerTask| t.name@,
            ).push(tasks[n - 1].name@));
        } else {
            assert(cur.filter(pred) == fp);
        }
    }
}

/// Every visible task's name is listed.
pub proof fn lemma_visible_names_complete(tasks: Seq<ServerTask>, i: int)
    requires
        0 <= i < tasks.len(),
    ensures
        tasks[i].visible ==> visible_names_spec(tasks, tasks.len()).contains(tasks[i].name@),
{
    lemma_visible_names_members(tasks, tasks.len(), i);
}

proof fn lemma_visible_names_members(tasks: Seq<ServerTask>, n: nat, i: int)
    requires
        n <= tasks.len(),
    ensures
        0 <= i < n && tasks[i].visible ==> visible_names_spec(tasks, n).contains(tasks[i].name@),
    decreases n,
{
    if n > 0 {
        lemma_visible_names_members(tasks, (n - 1) as nat, i);
        let prev = visible_names_spec(tasks, (n - 1) as nat);
        let cur = visible_names_spec(tasks, n);
        if tasks[n - 1].visible {
            assert(cur == prev.push(tasks[n - 1].name@));
            if i == n - 1 {
                assert(cur[prev.len() as int] == tasks[i].name@);
            } else if 0 <= i < n - 1 && tasks[i].visible {
                let k = choose|k: int| 0 <= k < prev.len() && prev[k] == tasks[i].name@;
                assert(cur[k] == tasks[i].name@);
            }
        }
    }
}

/// The check finds the first missing directory in the order the tasks are checked: each task
/// before it has both directories, and the one named is its task's missing source, or its
/// missing target when the source exists. Without one, every directory exists.
pub proof fn lemma_first_missing_dir_is_missing(
    tasks: Seq<Task>,
    source_exists: Seq<bool>,
    target_exists: Seq<bool>,
    n: nat,
)
    requires
        n <= tasks.len(),
        source_exists.len() == tasks.len(),
        target_exists.len() == tasks.len(),
    ensures
        match first_missing_dir(tasks, source_exists, target_exists, n) {
            Some(d) => exists|i: int|
                0 <= i < n && (forall|j: int| 0 <= j < i ==> source_exists[j] && target_exists[j]) && (
                (!source_exists[i] && d == tasks[i].source_dir@) || (source_exists[i]
                    && !target_exists[i] && d == tasks[i].target_dir@)),
            None => forall|j: int| 0 <= j < n ==> source_exists[j] && target_exists[j],
        },
    decreases n,
{
    if n > 0 {
        lemma_first_missing_dir_is_missing(tasks, source_exists, target_exists, (n - 1) as nat);
        match first_missing_dir(tasks, source_exists, target_exists, (n - 1) as nat) {
            Some(d) => {},
            None => {
                if !source_exists[n - 1] || !target_exists[n - 1] {
                    let i = n - 1;
                    assert(forall|j: int| 0 <= j < i ==> source_exists[j] && target_exists[j]);
                }
            },
        }
    }
}

} // verus!
