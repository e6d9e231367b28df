use vstd::prelude::*;
use vstd::string::*;
use crate::text::{eq_str, parse_u32, parse_u32_spec, strings_view, first_index, find_name};
use crate::tables::PacketTable;
use crate::settings::lemma_first_index_found;

verus! {

/// The requests the HTTP API answers.
#[derive(Debug, Clone, Copy, PartialEq, Eq)]
pub enum Endpoint {
    /// `GET /api/v1/settings/tasks`
    Tasks,
    /// `PUT /api/v1/settings/tasks/update`
    UpdateTask,
    /// `DELETE /api/v1/settings/tasks/delete`
    DeleteTask,
    /// `GET /api/v1/packets/truncate`
    TruncatePackets,
    /// `GET /api/v1/packets/clean`
    CleanPackets,
    /// `POST /api/v1/packets/rescan`
    RescanPacket,
    /// `POST /api/v1/packets/delete`
    DeletePacket,
    /// `GET /api/v1/packets`
    Packets,
    /// `GET /api/v1/packets/search`
    SearchPackets,
    /// `GET /api/v1/packets/count`
    PacketsCount,
}

/// The endpoint a method and a path name, if any.
pub open spec fn route_spec(method: Seq<char>, path: Seq<char>) -> Option<Endpoint> {
    if method == "GET"@ && path == "/api/v1/settings/tasks"@ {
        Some(Endpoint::Tasks)
    } else if method == "PUT"@ && path == "/api/v1/settings/tasks/update"@ {
        Some(Endpoint::UpdateTask)
    } else if method == "DELETE"@ && path == "/api/v1/settings/tasks/delete"@ {
        Some(Endpoint::DeleteTask)
    } else if method == "GET"@ && path == "/api/v1/packets/truncate"@ {
        Some(Endpoint::TruncatePackets)
    } else if method == "GET"@ && path == "/api/v1/packets/clean"@ {
        Some(Endpoint::CleanPackets)
    } else if method == "POST"@ && path == "/api/v1/packets/rescan"@ {
        Some(Endpoint::RescanPacket)
    } else if method == "POST"@ && path == "/api/v1/packets/delete"@ {
        Some(Endpoint::DeletePacket)
    } else if method == "GET"@ && path == "/api/v1/packets"@ {
        Some(Endpoint::Packets)
    } else if method == "GET"@ && path == "/api/v1/packets/search"@ {
        Some(Endpoint::SearchPackets)
    } else if method == "GET"@ && path == "/api/v1/packets/count"@ {
        Some(Endpoint::PacketsCount)
    } else {
        None
    }
}

/// The answer to a request for a path the API does not have.
pub open spec fn not_found_spec(path: Seq<char>) -> Seq<char> {
    "Эндпоинт "@ + path + " отсутсвует в схеме API"@
}

/// The endpoint that answers a request with `method` (such as `GET`) for `path`, or the message
/// that answers a request for a path the API does not have.
pub fn route(method: &str, path: &str) -> (r: Result<Endpoint, String>)
    ensures
        match route_spec(method@, path@) {
            Some(e) => r == Ok::<Endpoint, String>(e),
            None => r matches Err(m) && m@ == not_found_spec(path@),
        },
{
    let get = eq_str(method, "GET");
    let put = eq_str(method, "PUT");
    let delete = eq_str(method, "DELETE");
    let post = eq_str(method, "POST");
    if get && eq_str(path, "/api/v1/settings/tasks") {
        Ok(Endpoint::Tasks)
    } else if put && eq_str(path, "/api/v1/settings/tasks/update") {
        Ok(Endpoint::UpdateTask)
    } else if delete && eq_str(path, "/api/v1/settings/tasks/delete") {
        Ok(Endpoint::DeleteTask)
    } else if get && eq_str(path, "/api/v1/packets/truncate") {
        Ok(Endpoint::TruncatePackets)
    } else if get && eq_str(path, "/api/v1/packets/clean") {
        Ok(Endpoint::CleanPackets)
    } else if post && eq_str(path, "/api/v1/packets/rescan") {
        Ok(Endpoint::RescanPacket)
    } else if post && eq_str(path, "/api/v1/packets/delete") {
        Ok(Endpoint::DeletePacket)
    } else if get && eq_str(path, "/api/v1/packets") {
        Ok(Endpoint::Packets)
    } else if get && eq_str(path, "/api/v1/packets/search") {
        Ok(Endpoint::SearchPackets)
    } else if get && eq_str(path, "/api/v1/packets/count") {
        Ok(Endpoint::PacketsCount)
    } else {
        let mut m = String::from_str("Эндпоинт ");
        m.append(path);
        m.append(" отсутсвует в схеме API");
        Err(m)
    }
}

/// Which packets a request for the packet list asks for.
#[derive(Debug, Clone, Copy, PartialEq, Eq)]
pub enum PacketsRequest {
    /// every packet (a request without a query)
    All,
    /// `limit` packets of the visible tasks, the newest first, after skipping `offset`
    Page { limit: u32, offset: u32 },
}

/// The answer to a request for the packet list whose query lacks `limit` or `offset`.
pub open spec fn paging_missing_spec() -> Seq<char> {
    "В запросе должны присутсвовать параметры limit и offset"@
}

/// Reads a request for the packet list: one without a query asks for every packet; one with a
/// query must give both `limit` and `offset`, as numbers.
pub fn packets_request(has_query: bool, limit: Option<&str>, offset: Option<&str>) -> (r: Result<
    PacketsRequest,
    String,
>)
    requires
        has_query && limit is Some ==> parse_u32_spec(limit.unwrap()@) is Some,
        has_query && offset is Some ==> parse_u32_spec(offset.unwrap()@) is Some,
    ensures
        !has_query ==> r == Ok::<PacketsRequest, String>(PacketsRequest::All),
        has_query && limit is Some && offset is Some ==> r == Ok::<PacketsRequest, String>(
            PacketsRequest::Page {
                limit: parse_u32_spec(limit.unwrap()@).unwrap(),
                offset: parse_u32_spec(offset.unwrap()@).unwrap(),
            },
        ),
        has_query && (limit is None || offset is None) ==> (r matches Err(m) && m@
            == paging_missing_spec()),
{
    if !has_query {
        return Ok(PacketsRequest::All);
    }
    match (limit, offset) {
        (Some(l), Some(o)) => {
            let l = parse_u32(l).unwrap();
            let o = parse_u32(o).unwrap();
            Ok(PacketsRequest::Page { limit: l, offset: o })
        },
        _ => Err(String::from_str("В запросе должны присутсвовать параметры limit и offset")),
    }
}

/// The answer to a request to delete a task that does not name it.
pub open spec fn name_missing_spec() -> Seq<char> {
    "В запросе должен присутсвовать параметр name"@
}

/// The name of the task a request to delete a task names in its `name` parameter.
pub fn task_name_param(name: Option<&str>) -> (r: Result<String, String>)
    ensures
        match name {
            Some(n) => r matches Ok(s) && s@ == n@,
            None => r matches Err(m) && m@ == name_missing_spec(),
        },
{
    match name {
        Some(n) => Ok(String::from_str(n)),
        None => Err(String::from_str("В запросе должен присутсвовать параметр name")),
    }
}

/// The answer to a search request without a string `value`.
pub open spec fn value_missing_spec() -> Seq<char> {
    "В запросе должен присутсвовать параметр value"@
}

/// What `serde_json` finds under `key` in the JSON document `body`: the string there, or `None`
/// when `body` is no JSON or holds no string under `key`.
pub uninterp spec fn json_string_field(body: Seq<u8>, key: Seq<char>) -> Option<Seq<char>>;

/// Parses `body` with `serde_json::from_slice` into a `serde_json::Value` and takes the string
/// under `key` with `Value::as_str`; the result is the one named by `json_string_field`.
#[verifier::external_body]
fn json_string(body: &[u8], key: &str) -> (r: Option<String>)
    ensures
        match r {
            Some(s) => json_string_field(body@, key@) == Some(s@),
            None => json_string_field(body@, key@) is None,
        },
{
    match serde_json::from_slice::<serde_json::Value>(body) {
        Ok(v) => match v[key].as_str() {
            Some(s) => Some(String::from(s)),
            None => None,
        },
        Err(_) => None,
    }
}

/// The search string of a search request, from the string found under `value` in its body.
pub fn search_value_of(value: Option<String>) -> (r: Result<String, String>)
    ensures
        match value {
            Some(v) => r == Ok::<String, String>(v),
            None => r matches Err(m) && m@ == value_missing_spec(),
        },
{
    match value {
        Some(v) => Ok(v),
        None => Err(String::from_str("В запросе должен присутсвовать параметр value")),
    }
}

/// The search string of a search request whose body is `body`: the string under `value` in the
/// JSON document, or the answer that asks for it.
pub fn search_value(body: &[u8]) -> (r: Result<String, String>)
    ensures
        match json_string_field(body@, "value"@) {
            Some(v) => r matches Ok(s) && s@ == v,
            None => r matches Err(m) && m@ == value_missing_spec(),
        },
{
    let v = json_string(body, "value");
    search_value_of(v)
}

/// The answer to a request that updated the task `name`.
pub fn task_updated_message(name: &str) -> (r: String)
    ensures
        r@ == "Задача "@ + name@ + " обновлена"@,
{
    let mut r = String::from_str("Задача ");
    r.append(name);
    r.append(" обновлена");
    r
}

/// The answer to a request that deleted the task `name`.
pub fn task_deleted_message(name: &str) -> (r: String)
    ensures
        r@ == "Задача "@ + name@ + " удалена"@,
{
    let mut r = String::from_str("Задача ");
    r.append(name);
    r.append(" удалена");
    r
}

/// The task names of packet rows.
pub open spec fn row_task_names(rows: Seq<PacketTable>) -> Seq<Seq<char>> {
    rows.map_values(|r: PacketTable| r.task_name@)
}

/// For the first `n` rows, in order, each row whose task is among `tasks` with the index of
/// the first task of that name; rows of tasks that the settings no longer hold are left out.
pub open spec fn rows_with_tasks(rows: Seq<Seq<char>>, tasks: Seq<Seq<char>>, n: nat) -> Seq<
    (int, int),
>
    decreases n,
{
    if n == 0 {
        Seq::empty()
    } else {
        let before = rows_with_tasks(rows, tasks, (n - 1) as nat);
        match first_index(tasks, rows[n - 1], tasks.len()) {
            Some(t) => before.push((n - 1, t)),
            None => before,
        }
    }
}

/// Pairs each packet row with the task it belongs to: the index of the row and that of the
/// first task of its name, for the rows whose task the settings hold, in the order of the rows.
pub fn pair_rows_with_tasks(rows: &Vec<PacketTable>, task_names: &Vec<String>) -> (r: Vec<
    (usize, usize),
>)
    ensures
        r@.len() == rows_with_tasks(
            row_task_names(rows@),
            strings_view(task_names@),
            rows@.len(),
        ).len(),
        forall|k: int|
            0 <= k < r@.len() ==> (r@[k].0 as int, r@[k].1 as int) == rows_with_tasks(
                row_task_names(rows@),
                strings_view(task_names@),
                rows@.len(),
            )[k],
{
    let ghost rn = row_task_names(rows@);
    let ghost tn = strings_view(task_names@);
    let mut r: Vec<(usize, usize)> = Vec::new();
    let mut i: usize = 0;
    while i < rows.len()
        invariant
            i <= rows@.len(),
            rn == row_task_names(rows@),
            tn == strings_view(task_names@),
            r@.len() == rows_with_tasks(rn, tn, i as nat).len(),
            forall|k: int|
                0 <= k < r@.len() ==> (r@[k].0 as int, r@[k].1 as int) == rows_with_tasks(
                    rn,
                    tn,
                    i as nat,
                )[k],
        decreases rows@.len() - i,
    {
        let found = find_name(task_names, rows[i].task_name.as_str());
        assert(rn[i as int] == rows@[i as int].task_name@);
        match found {
            Some(t) => {
                r.push((i, t));
            },
            None => {},
        }
        i = i + 1;
    }
    r
}

/// Where the first `c` stands in `q` from position `i` on; the length of `q` when none does.
pub open spec fn next_char(q: Seq<char>, c: char, i: nat) -> nat
    decreases q.len() - i,
{
    if i >= q.len() {
        q.len()
    } else if q[i as int] == c {
        i
    } else {
        next_char(q, c, i + 1)
    }
}

/// `next_char` finds the first `c` from `k` on, or the end.
pub proof fn lemma_next_char_is(q: Seq<char>, c: char, k: nat, i: nat)
    requires
        k <= i <= q.len(),
        forall|j: int| k <= j < i ==> q[j] != c,
        i == q.len() || q[i as int] == c,
    ensures
        next_char(q, c, k) == i,
    decreases i - k,
{
    if k < i {
        lemma_next_char_is(q, c, k + 1, i);
    }
}

/// `next_char` stays between its start and the end of the text.
pub proof fn lemma_next_char_bounds(q: Seq<char>, c: char, i: nat)
    requires
        i <= q.len(),
    ensures
        i <= next_char(q, c, i) <= q.len(),
    decreases q.len() - i,
{
    if i < q.len() && q[i as int] != c {
        lemma_next_char_bounds(q, c, i + 1);
    }
}

/// The value in the pair `q[start..end]` (written `key=value`) when its key is `key`.
pub open spec fn pair_value(q: Seq<char>, start: int, end: int, key: Seq<char>) -> Option<Seq<char>> {
    let pair = q.subrange(start, end);
    let eq = next_char(pair, '=', 0);
    if eq < pair.len() && pair.subrange(0, eq as int) == key {
        Some(pair.subrange(eq + 1int, pair.len() as int))
    } else {
        None
    }
}

/// The value of the first pair with key `key` among the `&`-separated pairs of the query `q`,
/// looking from position `start` on; values are taken as written, without decoding.
pub open spec fn param_from(q: Seq<char>, key: Seq<char>, start: nat) -> Option<Seq<char>>
    decreases q.len() + 1 - start,
{
    if start > q.len() {
        None
    } else {
        let end = next_char(q, '&', start);
        proof {
            lemma_next_char_bounds(q, '&', start);
        }
        match pair_value(q, start as int, end as int, key) {
            Some(v) => Some(v),
            None => if end < q.len() {
                param_from(q, key, end + 1)
            } else {
                None
            },
        }
    }
}

/// The value of the parameter `key` in the query string `query` (the part of a URI after `?`).
pub fn query_param(query: &str, key: &str) -> (r: Option<String>)
    ensures
        match r {
            Some(v) => param_from(query@, key@, 0) == Some(v@),
            None => param_from(query@, key@, 0) is None,
        },
{
    let ghost q = query@;
    let n = query.unicode_len();
    let mut start: usize = 0;
    loop
        invariant
            n == q.len(),
            q == query@,
            start <= n,
            param_from(q, key@, 0) == param_from(q, key@, start as nat),
        decreases n - start,
    {
        let mut end = start;
        while end < n && query.get_char(end) != '&'
            invariant
                n == q.len(),
                q == query@,
                start <= end <= n,
                forall|j: int| start <= j < end ==> q[j] != '&',
            decreases n - end,
        {
            end = end + 1;
        }
        proof {
            lemma_next_char_is(q, '&', start as nat, end as nat);
        }
        let mut eq = start;
        while eq < end && query.get_char(eq) != '='
            invariant
                n == q.len(),
                q == query@,
                start <= eq <= end <= n,
                forall|j: int| start <= j < eq ==> q[j] != '=',
            decreases end - eq,
        {
            eq = eq + 1;
        }
        let ghost pair = q.subrange(start as int, end as int);
        proof {
            assert forall|j: int| 0 <= j < eq - start implies pair[j] != '=' by {
                assert(pair[j] == q[start + j]);
            }
            if eq < end {
                assert(pair[eq - start] == q[eq as int]);
            }
            lemma_next_char_is(pair, '=', 0, (eq - start) as nat);
        }
        if eq < end {
            let k = query.substring_char(start, eq);
            if eq_str(k, key) {
                let v = query.substring_char(eq + 1, end);
                proof {
                    assert(pair.subrange(0, eq - start) =~= k@);
                    assert(pair.subrange(eq - start + 1, pair.len() as int) =~= v@);
                }
                return Some(String::from_str(v));
            }
            proof {
                assert(pair.subrange(0, eq - start) =~= k@);
            }
        }
        if end < n {
            start = end + 1;
        } else {
            return None;
        }
    }
}

/// Each row is paired with a task of the same name, the first such task; the rows come in their
/// order, each once; and every row whose task the settings hold is there.
pub proof fn lemma_rows_paired_with_their_task(rows: Seq<Seq<char>>, tasks: Seq<Seq<char>>, n: nat)
    requires
        n <= rows.len(),
    ensures
        forall|k: int|
            #![trigger rows_with_tasks(rows, tasks, n)[k]]
            0 <= k < rows_with_tasks(rows, tasks, n).len() ==> {
                let (r, t) = rows_with_tasks(rows, tasks, n)[k];
                &&& 0 <= r < n
                &&& 0 <= t < tasks.len()
                &&& tasks[t] == rows[r]
                &&& forall|j: int| 0 <= j < t ==> tasks[j] != rows[r]
            },
        forall|k1: int, k2: int|
            0 <= k1 < k2 < rows_with_tasks(rows, tasks, n).len() ==> rows_with_tasks(rows, tasks, n)[k1].0
                < rows_with_tasks(rows, tasks, n)[k2].0,
        forall|r: int|
            0 <= r < n && tasks.contains(#[trigger] rows[r]) ==> exists|k: int|
                0 <= k < rows_with_tasks(rows, tasks, n).len() && rows_with_tasks(rows, tasks, n)[k].0 == r,
    decreases n,
{
    if n > 0 {
        lemma_rows_paired_with_their_task(rows, tasks, (n - 1) as nat);
        let prev = rows_with_tasks(rows, tasks, (n - 1) as nat);
        let cur = rows_with_tasks(rows, tasks, n);
        lemma_first_index_found(tasks, rows[n - 1], tasks.len());
        match first_index(tasks, rows[n - 1], tasks.len()) {
            Some(t) => {
                assert(cur == prev.push((n - 1, t)));
                assert forall|k: int|
                    #![trigger cur[k]]
                    0 <= k < cur.len() implies {
                        let (r, t) = cur[k];
                        &&& 0 <= r < n
                        &&& 0 <= t < tasks.len()
                        &&& tasks[t] == rows[r]
                        &&& forall|j: int| 0 <= j < t ==> tasks[j] != rows[r]
                    } by {
                    if k < prev.len() {
                        assert(cur[k] == prev[k]);
                    }
                }
                assert forall|k1: int, k2: int| 0 <= k1 < k2 < cur.len() implies cur[k1].0 < cur[k2].0 by {
                    assert(cur[k1] == prev[k1]);
                    if k2 < prev.len() {
                        assert(cur[k2] == prev[k2]);
                    }
                }
                assert forall|r: int| 0 <= r < n && tasks.contains(#[trigger] rows[r]) implies exists|k: int|
                    0 <= k < cur.len() && cur[k].0 == r by {
                    if r < n - 1 {
                        let k = choose|k: int| 0 <= k < prev.len() && prev[k].0 == r;
                        assert(cur[k] == prev[k]);
                    } else {
                        assert(cur[prev.len() as int].0 == r);
                    }
                }
            },
            None => {
                assert(cur == prev);
                assert forall|r: int| 0 <= r < n && tasks.contains(#[trigger] rows[r]) implies exists|k: int|
                    0 <= k < cur.len() && cur[k].0 == r by {
                    if r == n - 1 {
                        let j = choose|j: int| 0 <= j < tasks.len() && tasks[j] == rows[r];
                        assert(tasks[j] != rows[n - 1]);
                    }
                }
            },
        }
    }
}

/// A parameter written alone is read back: for a key without `=` or `&` and a value without
/// `&`, the query `key=value` gives the value.
pub proof fn lemma_param_read_back(key: Seq<char>, value: Seq<char>)
    requires
        forall|i: int| 0 <= i < key.len() ==> key[i] != '=' && key[i] != '&',
        forall|i: int| 0 <= i < value.len() ==> value[i] != '&',
    ensures
        param_from(key + seq!['='] + value, key, 0) == Some(value),
{
    let q = key + seq!['='] + value;
    assert forall|j: int| 0 <= j < q.len() implies q[j] != '&' by {
        if j < key.len() {
            assert(q[j] == key[j]);
        } else if j > key.len() {
            assert(q[j] == value[j - key.len() - 1]);
        }
    }
    lemma_next_char_is(q, '&', 0, q.len());
    let pair = q.subrange(0, q.len() as int);
    assert(pair =~= q);
    assert forall|j: int| 0 <= j < key.len() implies pair[j] != '=' by {
        assert(pair[j] == key[j]);
    }
    lemma_next_char_is(pair, '=', 0, key.len());
    assert(pair.subrange(0, key.len() as int) =~= key);
    assert(pair.subrange(key.len() + 1int, pair.len() as int) =~= value);
}

/// The first pair with the key wins: a pair with another key before it is passed over.
pub proof fn lemma_param_skips_other_pair(
    other: Seq<char>,
    other_value: Seq<char>,
    rest: Seq<char>,
    key: Seq<char>,
)
    requires
        forall|i: int| 0 <= i < other.len() ==> other[i] != '=' && other[i] != '&',
        forall|i: int| 0 <= i < other_value.len() ==> other_value[i] != '&',
        other != key,
    ensures
        param_from(other + seq!['='] + other_value + seq!['&'] + rest, key, 0) == param_from(
            rest,
            key,
            0,
        ),
{
    let head = other + seq!['='] + other_value;
    let q = head + seq!['&'] + rest;
    assert forall|j: int| 0 <= j < head.len() implies q[j] != '&' by {
        assert(q[j] == head[j]);
        if j < other.len() {
            assert(head[j] == other[j]);
        } else if j > other.len() {
            assert(head[j] == other_value[j - other.len() - 1]);
        }
    }
    lemma_next_char_is(q, '&', 0, head.len());
    let pair = q.subrange(0, head.len() as int);
    assert(pair =~= head);
    assert forall|j: int| 0 <= j < other.len() implies pair[j] != '=' by {
        assert(pair[j] == other[j]);
    }
    lemma_next_char_is(pair, '=', 0, other.len());
    assert(pair.subrange(0, other.len() as int) =~= other);
    assert(q.subrange(head.len() + 1int, q.len() as int) =~= rest);
    lemma_param_from_shift(q, rest, key, head.len() + 1);
}

/// Reading from a position is reading the rest of the text from its start.
proof fn lemma_param_from_shift(q: Seq<char>, rest: Seq<char>, key: Seq<char>, off: nat)
    requires
        off <= q.len(),
        q.subrange(off as int, q.len() as int) == rest,
    ensures
        param_from(q, key, off) == param_from(rest, key, 0),
{
    lemma_param_from_shift_at(q, rest, key, off, 0);
}

proof fn lemma_param_from_shift_at(q: Seq<char>, rest: Seq<char>, key: Seq<char>, off: nat, s: nat)
    requires
        off <= q.len(),
        q.subrange(off as int, q.len() as int) == rest,
        s <= rest.len() + 1,
    ensures
        param_from(q, key, off + s) == param_from(rest, key, s),
    decreases rest.len() + 1 - s,
{
    if s <= rest.len() {
        lemma_next_char_shift(q, rest, '&', off, s);
        lemma_next_char_bounds(rest, '&', s);
        let end = next_char(rest, '&', s);
        assert(q.subrange((off + s) as int, (off + end) as int) =~= rest.subrange(s as int, end as int));
        if end < rest.len() {
            lemma_param_from_shift_at(q, rest, key, off, end + 1);
        }
    }
}

proof fn lemma_next_char_shift(q: Seq<char>, rest: Seq<char>, c: char, off: nat, s: nat)
    requires
        off <= q.len(),
        q.subrange(off as int, q.len() as int) == rest,
        s <= rest.len(),
    ensures
        next_char(q, c, off + s) == off + next_char(rest, c, s),
    decreases rest.len() - s,
{
    if s < rest.len() {
        assert(q[(off + s) as int] == rest[s as int]);
        if rest[s as int] != c {
            lemma_next_char_shift(q, rest, c, off, s + 1);
        }
    }
}

} // verus!
