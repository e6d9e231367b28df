use vstd::prelude::*;
use vstd::string::*;
use crate::text::{decimal, quoted, quoted_join, concat_all, strings_view, strs_view, join_quoted, concat_strs, u64_to_decimal};

verus! {

/// The ordering clause of a query: ascending or descending by the named column.
#[derive(Debug, Clone, Copy)]
pub enum SortingOrder<'a> {
    Asc(&'a str),
    Desc(&'a str),
}

/// The value of a `SELECT COUNT(*) as count` query.
#[derive(Debug, Clone)]
pub struct CountRequest {
    pub count: u32,
}

/// A row that carries only an `id` column.
#[derive(Debug, Clone)]
pub struct IdSelector(pub String);

/// A record of a table that is found by its identifier.
pub trait Id {
    fn get_id(&self) -> &str;
}

/// What a selector holds: the query text it starts from and the clauses added to it.
pub struct SelectorModel {
    /// the text the query starts from (a full `SELECT ... FROM table`, or `DELETE FROM table`)
    pub base: Seq<char>,
    /// `column = $n` conditions with their values, in the order they were added
    pub where_params: Option<Seq<(Seq<char>, Seq<char>)>>,
    /// `AND column<operator>"value"` conditions, in the order they were added
    pub and_params: Option<Seq<(Seq<char>, Seq<char>, Seq<char>)>>,
    /// a ready `WHERE id [NOT] IN (...)` clause
    pub where_by_id: Option<Seq<char>>,
    /// `(ascending, column)` of the ordering clause
    pub sorting: Option<(bool, Seq<char>)>,
    pub limit: Option<u32>,
    pub offset: Option<u32>,
}

/// Builder of an SQL query: a base text, conditions with bound values, ordering and paging.
#[derive(Debug, Clone)]
pub struct Selector<'a> {
    query: String,
    where_params: Option<Vec<(String, String)>>,
    and_params: Option<Vec<(String, String, String)>>,
    where_by_id: Option<String>,
    sorting_order: Option<SortingOrder<'a>>,
    limit: Option<u32>,
    offset: Option<u32>,
}

pub open spec fn pairs_view(v: Seq<(String, String)>) -> Seq<(Seq<char>, Seq<char>)> {
    v.map_values(|p: (String, String)| (p.0@, p.1@))
}

pub open spec fn triples_view(v: Seq<(String, String, String)>) -> Seq<(Seq<char>, Seq<char>, Seq<char>)> {
    v.map_values(|p: (String, String, String)| (p.0@, p.1@, p.2@))
}

pub open spec fn sorting_view(o: SortingOrder) -> (bool, Seq<char>) {
    match o {
        SortingOrder::Asc(p) => (true, p@),
        SortingOrder::Desc(p) => (false, p@),
    }
}

impl<'a> View for Selector<'a> {
    type V = SelectorModel;

    closed spec fn view(&self) -> SelectorModel {
        SelectorModel {
            base: self.query@,
            where_params: match self.where_params {
                Some(v) => Some(pairs_view(v@)),
                None => None,
            },
            and_params: match self.and_params {
                Some(v) => Some(triples_view(v@)),
                None => None,
            },
            where_by_id: match self.where_by_id {
                Some(w) => Some(w@),
                None => None,
            },
            sorting: match self.sorting_order {
                Some(o) => Some(sorting_view(o)),
                None => None,
            },
            limit: self.limit,
            offset: self.offset,
        }
    }
}

/// The selector a query starts from: the base text and no clause.
pub open spec fn empty_model(base: Seq<char>) -> SelectorModel {
    SelectorModel {
        base,
        where_params: None,
        and_params: None,
        where_by_id: None,
        sorting: None,
        limit: None,
        offset: None,
    }
}

/// The `n`-th condition (from 0) of the `WHERE` list: `column = $n+1`, then ` AND ` unless it is the last.
pub open spec fn where_item(ps: Seq<(Seq<char>, Seq<char>)>, i: int) -> Seq<char> {
    ps[i].0 + " = $"@ + decimal((i + 1) as nat) + if i + 1 < ps.len() {
        " AND "@
    } else {
        Seq::empty()
    }
}

pub open spec fn where_items(ps: Seq<(Seq<char>, Seq<char>)>, n: nat) -> Seq<char>
    decreases n,
{
    if n == 0 {
        Seq::empty()
    } else {
        where_items(ps, (n - 1) as nat) + where_item(ps, n - 1)
    }
}

/// ` AND column<operator>"value"`
pub open spec fn and_item(a: (Seq<char>, Seq<char>, Seq<char>)) -> Seq<char> {
    " AND "@ + a.0 + a.1 + quoted(a.2)
}

pub open spec fn and_items(a: Seq<(Seq<char>, Seq<char>, Seq<char>)>, n: nat) -> Seq<char>
    decreases n,
{
    if n == 0 {
        Seq::empty()
    } else {
        and_items(a, (n - 1) as nat) + and_item(a[n - 1])
    }
}

/// The condition part: the `WHERE` list when there is one, else the id clause, else nothing.
pub open spec fn where_part(m: SelectorModel) -> Seq<char> {
    match m.where_params {
        Some(ps) => " WHERE "@ + where_items(ps, ps.len()),
        None => match m.where_by_id {
            Some(w) => w,
            None => Seq::empty(),
        },
    }
}

/// Whether the query has a condition, so that `AND` conditions can follow.
pub open spec fn has_where(m: SelectorModel) -> bool {
    m.where_params is Some || m.where_by_id is Some
}

/// The `AND` conditions, written only after a condition part.
pub open spec fn and_part(m: SelectorModel) -> Seq<char> {
    if has_where(m) {
        match m.and_params {
            Some(a) => and_items(a, a.len()),
            None => Seq::empty(),
        }
    } else {
        Seq::empty()
    }
}

pub open spec fn sort_part(m: SelectorModel) -> Seq<char> {
    match m.sorting {
        Some((asc, p)) => if asc {
            " ORDER BY "@ + p + " ASC"@
        } else {
            " ORDER BY "@ + p + " DESC"@
        },
        None => Seq::empty(),
    }
}

pub open spec fn limit_part(m: SelectorModel) -> Seq<char> {
    match m.limit {
        Some(l) => " LIMIT "@ + decimal(l as nat),
        None => Seq::empty(),
    }
}

pub open spec fn offset_part(m: SelectorModel) -> Seq<char> {
    match m.offset {
        Some(o) => " OFFSET "@ + decimal(o as nat),
        None => Seq::empty(),
    }
}

/// The query text a selector stands for.
pub open spec fn query_text(m: SelectorModel) -> Seq<char> {
    m.base + where_part(m) + and_part(m) + sort_part(m) + limit_part(m) + offset_part(m)
}

/// The values bound to `$1, $2, ...`, when the query has a `WHERE` list.
pub open spec fn query_values(m: SelectorModel) -> Option<Seq<Seq<char>>> {
    match m.where_params {
        Some(ps) => Some(ps.map_values(|p: (Seq<char>, Seq<char>)| p.1)),
        None => None,
    }
}

pub open spec fn opt_strings_view(v: Option<Vec<String>>) -> Option<Seq<Seq<char>>> {
    match v {
        Some(v) => Some(strings_view(v@)),
        None => None,
    }
}

/// The `WHERE` list with one more `column = value` condition.
pub open spec fn with_where(m: SelectorModel, extra: Seq<(Seq<char>, Seq<char>)>) -> SelectorModel {
    SelectorModel {
        where_params: Some(
            match m.where_params {
                Some(ps) => ps + extra,
                None => extra,
            },
        ),
        ..m
    }
}

/// How a value is written in a condition on a JSON field: `'"value"'`.
pub open spec fn json_value(v: Seq<char>) -> Seq<char> {
    seq!['\''] + quoted(v) + seq!['\'']
}

/// The clause `WHERE id IN (...)` (or `NOT IN`) over the quoted ids.
pub open spec fn id_clause(negated: bool, ids: Seq<Seq<char>>) -> Seq<char> {
    (if negated {
        " WHERE id NOT IN "@
    } else {
        " WHERE id IN "@
    }) + "("@ + quoted_join(ids, ids.len()) + ")"@
}

/// The operations of a query builder; each returns the builder with one more clause.
pub trait QuerySelector<'a>: Sized {
    /// A selector over the full query text of a table (`SELECT ... FROM table`).
    fn new(select: &str) -> Self;
    /// A selector over the pieces written one after the other.
    fn new_concat(select: &[&str]) -> Self;
    /// The query text and the values bound to its `$n` parameters.
    fn query(&self) -> (String, Option<Vec<String>>);
    fn where_not_in(self, ids: &[String]) -> Self;
    fn where_in(self, ids: &[String]) -> Self;
    /// Adds a `param = $n` condition with its value.
    fn add_param(self, param: &str, value: &str) -> Self;
    /// Adds several conditions at once; nothing when there are none.
    fn add_params(self, params: Option<Vec<(&str, &str)>>) -> Self;
    fn and(self, param: &str, operator: &str, value: &str) -> Self;
    fn add_raw_query(self, raw: &str) -> Self;
    fn limit(self, limit: &u32) -> Self;
    fn offset(self, offset: &u32) -> Self;
    /// Adds a condition on a JSON field: `param = $n` with the value `'"value"'`.
    fn add_json_param(self, param: &str, value: &str) -> Self;
    /// Orders the result by a column.
    fn sort(self, sorting_order: SortingOrder<'a>) -> Self;
}

impl<'a> Selector<'a> {
    fn with_base(query: String) -> (r: Self)
        ensures
            r@ == empty_model(query@),
    {
        Selector {
            query,
            where_params: None,
            and_params: None,
            where_by_id: None,
            sorting_order: None,
            limit: None,
            offset: None,
        }
    }

    fn push_where(self, param: String, value: String) -> (r: Self)
        ensures
            r@ == with_where(self@, seq![(param@, value@)]),
    {
        let Selector { query, where_params, and_params, where_by_id, sorting_order, limit, offset } = self;
        let mut ps = match where_params {
            Some(v) => v,
            None => Vec::new(),
        };
        let ghost old_ps = ps@;
        ps.push((param, value));
        let r = Selector { query, where_params: Some(ps), and_params, where_by_id, sorting_order, limit, offset };
        proof {
            assert(pairs_view(ps@) =~= pairs_view(old_ps) + seq![(param@, value@)]);
        }
        r
    }

    fn set_id_clause(self, clause: String) -> (r: Self)
        ensures
            r@ == (SelectorModel { where_by_id: Some(clause@), ..self@ }),
    {
        let Selector { query, where_params, and_params, where_by_id: _, sorting_order, limit, offset } = self;
        Selector { query, where_params, and_params, where_by_id: Some(clause), sorting_order, limit, offset }
    }

    /// Writes the condition part; gives the values of the `WHERE` list.
    fn write_where(&self, body: &mut String) -> (values: Option<Vec<String>>)
        ensures
            final(body)@ == old(body)@ + where_part(self@),
            opt_strings_view(values) == query_values(self@),
    {
        match &self.where_params {
            Some(where_p) => {
                let ghost ps = pairs_view(where_p@);
                body.append(" WHERE ");
                let ghost start = body@;
                let mut vals: Vec<String> = Vec::new();
                let n = where_p.len();
                let mut i: usize = 0;
                while i < n
                    invariant
                        n == where_p@.len(),
                        ps == pairs_view(where_p@),
                        i <= n,
                        body@ == start + where_items(ps, i as nat),
                        strings_view(vals@) =~= ps.take(i as int).map_values(
                            |p: (Seq<char>, Seq<char>)| p.1,
                        ),
                    decreases n - i,
                {
                    let ghost before = body@;
                    let par = &where_p[i].0;
                    let val = &where_p[i].1;
                    body.append(par.as_str());
                    body.append(" = $");
                    let num = u64_to_decimal((i + 1) as u64);
                    body.append(num.as_str());
                    if i + 1 < n {
                        body.append(" AND ");
                    }
                    let ghost old_vals = strings_view(vals@);
                    vals.push(val.clone());
                    proof {
                        assert(ps[i as int] == (par@, val@));
                        assert(strings_view(vals@) =~= old_vals.push(val@));
                        assert(ps.take((i + 1) as int) =~= ps.take(i as int).push(ps[i as int]));
                        assert(body@ =~= before + where_item(ps, i as int));
                        assert(strings_view(vals@) =~= ps.take((i + 1) as int).map_values(
                            |p: (Seq<char>, Seq<char>)| p.1,
                        ));
                    }
                    i = i + 1;
                }
                proof {
                    assert(ps.take(n as int) =~= ps);
                }
                Some(vals)
            },
            None => {
                if let Some(win) = &self.where_by_id {
                    body.append(win.as_str());
                }
                None
            },
        }
    }

    /// Writes the `AND` conditions.
    fn write_and(&self, body: &mut String)
        requires
            has_where(self@),
        ensures
            final(body)@ == old(body)@ + and_part(self@),
    {
        if let Some(and) = &self.and_params {
            let ghost a = triples_view(and@);
            let ghost start = body@;
            let n = and.len();
            let mut i: usize = 0;
            while i < n
                invariant
                    n == and@.len(),
                    a == triples_view(and@),
                    i <= n,
                    body@ == start + and_items(a, i as nat),
                decreases n - i,
            {
                proof {
                    reveal_strlit("\"");
                }
                let ghost before = body@;
                body.append(" AND ");
                body.append(and[i].0.as_str());
                body.append(and[i].1.as_str());
                body.append("\"");
                body.append(and[i].2.as_str());
                body.append("\"");
                proof {
                    assert(a[i as int] == (and@[i as int].0@, and@[i as int].1@, and@[i as int].2@));
                    assert(body@ =~= before + and_item(a[i as int]));
                }
                i = i + 1;
            }
        }
    }

    fn write_sort(&self, body: &mut String)
        ensures
            final(body)@ == old(body)@ + sort_part(self@),
    {
        match &self.sorting_order {
            Some(SortingOrder::Asc(p)) => {
                body.append(" ORDER BY ");
                body.append(p);
                body.append(" ASC");
            },
            Some(SortingOrder::Desc(p)) => {
                body.append(" ORDER BY ");
                body.append(p);
                body.append(" DESC");
            },
            None => {},
        }
        proof {
            assert(final(body)@ =~= old(body)@ + sort_part(self@));
        }
    }

    fn write_paging(&self, body: &mut String)
        ensures
            final(body)@ == old(body)@ + limit_part(self@) + offset_part(self@),
    {
        let ghost start = body@;
        if let Some(lim) = self.limit {
            body.append(" LIMIT ");
            let l = u64_to_decimal(lim as u64);
            body.append(l.as_str());
        }
        proof {
            assert(body@ =~= start + limit_part(self@));
        }
        let ghost with_limit = body@;
        if let Some(off) = self.offset {
            body.append(" OFFSET ");
            let o = u64_to_decimal(off as u64);
            body.append(o.as_str());
        }
        proof {
            assert(body@ =~= with_limit + offset_part(self@));
        }
    }

    fn id_in(negated: bool, ids: &[String]) -> (s: String)
        ensures
            s@ == id_clause(negated, strings_view(ids@)),
    {
        let joined = join_quoted(ids);
        let mut s = if negated {
            String::from_str(" WHERE id NOT IN ")
        } else {
            String::from_str(" WHERE id IN ")
        };
        s.append("(");
        s.append(joined.as_str());
        s.append(")");
        proof {
            assert(s@ =~= id_clause(negated, strings_view(ids@)));
        }
        s
    }
}

impl<'a> QuerySelector<'a> for Selector<'a> {
    fn new(select: &str) -> (r: Self)
        ensures
            r@ == empty_model(select@),
    {
        Self::with_base(String::from_str(select))
    }

    fn new_concat(select: &[&str]) -> (r: Self)
        ensures
            r@ == empty_model(concat_all(strs_view(select@), select@.len())),
    {
        Self::with_base(concat_strs(select))
    }

    fn where_in(self, ids: &[String]) -> (r: Self)
        ensures
            r@ == (SelectorModel { where_by_id: Some(id_clause(false, strings_view(ids@))), ..self@ }),
    {
        let clause = Self::id_in(false, ids);
        self.set_id_clause(clause)
    }

    fn where_not_in(self, ids: &[String]) -> (r: Self)
        ensures
            r@ == (SelectorModel { where_by_id: Some(id_clause(true, strings_view(ids@))), ..self@ }),
    {
        let clause = Self::id_in(true, ids);
        self.set_id_clause(clause)
    }

    fn query(&self) -> (r: (String, Option<Vec<String>>))
        ensures
            r.0@ == query_text(self@),
            opt_strings_view(r.1) == query_values(self@),
    {
        let ghost m = self@;
        let mut body = self.query.clone();
        let values = self.write_where(&mut body);
        let contains_where = self.where_params.is_some() || self.where_by_id.is_some();
        if contains_where {
            self.write_and(&mut body);
        }
        self.write_sort(&mut body);
        self.write_paging(&mut body);
        proof {
            assert(body@ =~= query_text(m));
        }
        (body, values)
    }

    fn add_param(self, param: &str, value: &str) -> (r: Self)
        ensures
            r@ == with_where(self@, seq![(param@, value@)]),
    {
        self.push_where(String::from_str(param), String::from_str(value))
    }

    fn add_params(self, params: Option<Vec<(&str, &str)>>) -> (r: Self)
        ensures
            r@ == match params {
                None => self@,
                Some(v) => with_where(self@, v@.map_values(|p: (&str, &str)| (p.0@, p.1@))),
            },
    {
        match params {
            None => self,
            Some(v) => {
                let ghost m = self@;
                let ghost pv = v@.map_values(|p: (&str, &str)| (p.0@, p.1@));
                let Selector { query, where_params, and_params, where_by_id, sorting_order, limit, offset } = self;
                let mut ps = match where_params {
                    Some(w) => w,
                    None => Vec::new(),
                };
                let ghost start = pairs_view(ps@);
                let mut i: usize = 0;
                while i < v.len()
                    invariant
                        i <= v@.len(),
                        pv == v@.map_values(|p: (&str, &str)| (p.0@, p.1@)),
                        pairs_view(ps@) =~= start + pv.take(i as int),
                    decreases v@.len() - i,
                {
                    let (p, val) = v[i];
                    let ghost old_ps = ps@;
                    ps.push((String::from_str(p), String::from_str(val)));
                    proof {
                        assert(pv[i as int] == (p@, val@));
                        assert(pairs_view(ps@) =~= pairs_view(old_ps).push((p@, val@)));
                        assert(pv.take((i + 1) as int) =~= pv.take(i as int) + seq![pv[i as int]]);
                    }
                    i = i + 1;
                }
                proof {
                    assert(pv.take(v@.len() as int) =~= pv);
                }
                Selector { query, where_params: Some(ps), and_params, where_by_id, sorting_order, limit, offset }
            },
        }
    }

    fn and(self, param: &str, operator: &str, value: &str) -> (r: Self)
        ensures
            r@ == (SelectorModel {
                and_params: Some(
                    match self@.and_params {
                        Some(a) => a,
                        None => Seq::empty(),
                    }.push((param@, operator@, value@)),
                ),
                ..self@
            }),
    {
        let ghost m = self@;
        let Selector { query, where_params, and_params, where_by_id, sorting_order, limit, offset } = self;
        let mut a = match and_params {
            Some(v) => v,
            None => Vec::new(),
        };
        let ghost old_a = a@;
        a.push((String::from_str(param), String::from_str(operator), String::from_str(value)));
        proof {
            assert(triples_view(old_a) == match m.and_params {
                Some(x) => x,
                None => Seq::empty(),
            });
            assert(triples_view(a@) =~= triples_view(old_a).push((param@, operator@, value@)));
        }
        Selector { query, where_params, and_params: Some(a), where_by_id, sorting_order, limit, offset }
    }

    fn add_raw_query(self, raw: &str) -> (r: Self)
        ensures
            r@ == (SelectorModel { base: self@.base + raw@, ..self@ }),
    {
        let Selector { query, where_params, and_params, where_by_id, sorting_order, limit, offset } = self;
        let mut query = query;
        query.append(raw);
        Selector { query, where_params, and_params, where_by_id, sorting_order, limit, offset }
    }

    fn add_json_param(self, param: &str, value: &str) -> (r: Self)
        ensures
            r@ == with_where(self@, seq![(param@, json_value(value@))]),
    {
        proof {
            reveal_strlit("'\"");
            reveal_strlit("\"'");
        }
        let mut v = String::from_str("'\"");
        v.append(value);
        v.append("\"'");
        proof {
            assert(v@ =~= json_value(value@));
        }
        self.push_where(String::from_str(param), v)
    }

    fn sort(self, sorting_order: SortingOrder<'a>) -> (r: Self)
        ensures
            r@ == (SelectorModel { sorting: Some(sorting_view(sorting_order)), ..self@ }),
    {
        let Selector { query, where_params, and_params, where_by_id, sorting_order: _, limit, offset } = self;
        Selector { query, where_params, and_params, where_by_id, sorting_order: Some(sorting_order), limit, offset }
    }

    fn limit(self, limit: &u32) -> (r: Self)
        ensures
            r@ == (SelectorModel { limit: Some(*limit), ..self@ }),
    {
        let Selector { query, where_params, and_params, where_by_id, sorting_order, limit: _, offset } = self;
        Selector { query, where_params, and_params, where_by_id, sorting_order, limit: Some(*limit), offset }
    }

    fn offset(self, offset: &u32) -> (r: Self)
        ensures
            r@ == (SelectorModel { offset: Some(*offset), ..self@ }),
    {
        let Selector { query, where_params, and_params, where_by_id, sorting_order, limit, offset: _ } = self;
        Selector { query, where_params, and_params, where_by_id, sorting_order, limit, offset: Some(*offset) }
    }
}

/// The statement that removes every row of a table whose id is not listed (and, when a user is
/// given, that belongs to that user).
pub fn delete_many_exclude_ids_selector<'a>(table_name: &str, ids: &[String], user_id: Option<&str>) -> (r: Selector<'a>)
    ensures
        r@ == (SelectorModel {
            where_by_id: Some(id_clause(true, strings_view(ids@))),
            and_params: match user_id {
                Some(uid) => Some(seq![("user_id"@, "="@, uid@)]),
                None => None,
            },
            ..empty_model("DELETE FROM "@ + table_name@)
        }),
{
    let mut del = String::from_str("DELETE FROM ");
    del.append(table_name);
    let mut sql = Selector::new(del.as_str()).where_not_in(ids);
    if let Some(uid) = user_id {
        sql = sql.and("user_id", "=", uid);
    }
    proof {
        if let Some(uid) = user_id {
            assert(Seq::<(Seq<char>, Seq<char>, Seq<char>)>::empty().push(("user_id"@, "="@, uid@))
                =~= seq![("user_id"@, "="@, uid@)]);
        }
    }
    sql
}

/// Every query text starts with the text the selector was built from.
pub proof fn lemma_query_starts_with_base(m: SelectorModel)
    ensures
        query_text(m).len() >= m.base.len(),
        query_text(m).subrange(0, m.base.len() as int) == m.base,
{
    assert(query_text(m).subrange(0, m.base.len() as int) =~= m.base);
}

/// The conditions added with values are bound in the order they were added: the `i`-th (from 0)
/// is written `column = $i+1` and its value is the `i`-th of the values.
pub proof fn lemma_values_match_placeholders(m: SelectorModel, i: int)
    requires
        m.where_params is Some,
        0 <= i < m.where_params->0.len(),
    ensures
        query_values(m) is Some,
        query_values(m)->0.len() == m.where_params->0.len(),
        query_values(m)->0[i] == m.where_params->0[i].1,
        where_item(m.where_params->0, i).subrange(0, m.where_params->0[i].0.len() + 4int)
            == m.where_params->0[i].0 + " = $"@,
        where_item(m.where_params->0, i).subrange(
            m.where_params->0[i].0.len() + 4int,
            m.where_params->0[i].0.len() + 4int + decimal((i + 1) as nat).len(),
        ) == decimal((i + 1) as nat),
{
    reveal_strlit(" = $");
    let ps = m.where_params->0;
    let w = where_item(ps, i);
    let head = ps[i].0 + " = $"@;
    assert(w.subrange(0, head.len() as int) =~= head);
    assert(w.subrange(head.len() as int, head.len() + decimal((i + 1) as nat).len() as int) =~= decimal(
        (i + 1) as nat,
    ));
}

/// A condition added with a value is bound last: the values are those before it, then its value.
pub proof fn lemma_added_value_is_last(m: SelectorModel, param: Seq<char>, value: Seq<char>)
    ensures
        query_values(with_where(m, seq![(param, value)])) == Some(
            match query_values(m) {
                Some(v) => v,
                None => Seq::empty(),
            }.push(value),
        ),
{
    let before = match m.where_params {
        Some(ps) => ps,
        None => Seq::empty(),
    };
    let after = before + seq![(param, value)];
    assert(after.map_values(|p: (Seq<char>, Seq<char>)| p.1) =~= before.map_values(
        |p: (Seq<char>, Seq<char>)| p.1,
    ).push(value));
}

/// `AND` conditions are written only after a condition: on a query without one they change
/// nothing.
pub proof fn lemma_and_without_where(m: SelectorModel, extra: (Seq<char>, Seq<char>, Seq<char>))
    requires
        !has_where(m),
    ensures
        query_text(
            SelectorModel {
                and_params: Some(
                    match m.and_params {
                        Some(a) => a,
                        None => Seq::empty(),
                    }.push(extra),
                ),
                ..m
            },
        ) == query_text(m),
{
}

/// A `WHERE` list of bound conditions takes the place of an id clause: the id clause is then not
/// written.
pub proof fn lemma_where_list_hides_ids(m: SelectorModel, clause: Seq<char>)
    requires
        m.where_params is Some,
    ensures
        query_text(SelectorModel { where_by_id: Some(clause), ..m }) == query_text(m),
        query_values(SelectorModel { where_by_id: Some(clause), ..m }) == query_values(m),
{
}

/// Adding two lists of conditions one after the other adds them together, in order.
pub proof fn lemma_with_where_composes(
    m: SelectorModel,
    a: Seq<(Seq<char>, Seq<char>)>,
    b: Seq<(Seq<char>, Seq<char>)>,
)
    ensures
        with_where(with_where(m, a), b) == with_where(m, a + b),
{
    match m.where_params {
        Some(ps) => {
            assert(ps + a + b =~= ps + (a + b));
        },
        None => {},
    }
}

/// The selector after `add_param` is called with each of the first `n` pairs, in order.
pub open spec fn add_param_chain(m: SelectorModel, pairs: Seq<(Seq<char>, Seq<char>)>, n: nat) -> SelectorModel
    decreases n,
{
    if n == 0 {
        m
    } else {
        with_where(add_param_chain(m, pairs, (n - 1) as nat), seq![pairs[n - 1]])
    }
}

/// `add_params` with a non-empty list of pairs is `add_param` with each of them in turn: the
/// pairs are bound in order after the conditions the selector already has.
pub proof fn lemma_add_params_is_chain(m: SelectorModel, pairs: Seq<(Seq<char>, Seq<char>)>)
    requires
        pairs.len() >= 1,
    ensures
        with_where(m, pairs) == add_param_chain(m, pairs, pairs.len()),
        query_values(with_where(m, pairs)) == Some(
            match m.where_params {
                Some(ps) => ps,
                None => Seq::empty(),
            }.map_values(|p: (Seq<char>, Seq<char>)| p.1) + pairs.map_values(
                |p: (Seq<char>, Seq<char>)| p.1,
            ),
        ),
{
    lemma_chain_prefix(m, pairs, pairs.len());
    assert(pairs.take(pairs.len() as int) =~= pairs);
    let before = match m.where_params {
        Some(ps) => ps,
        None => Seq::empty(),
    };
    assert((before + pairs).map_values(|p: (Seq<char>, Seq<char>)| p.1) =~= before.map_values(
        |p: (Seq<char>, Seq<char>)| p.1,
    ) + pairs.map_values(|p: (Seq<char>, Seq<char>)| p.1));
    match m.where_params {
        Some(ps) => {},
        None => {
            assert(Seq::<(Seq<char>, Seq<char>)>::empty() + pairs =~= pairs);
        },
    }
}

proof fn lemma_chain_prefix(m: SelectorModel, pairs: Seq<(Seq<char>, Seq<char>)>, n: nat)
    requires
        1 <= n <= pairs.len(),
    ensures
        add_param_chain(m, pairs, n) == with_where(m, pairs.take(n as int)),
    decreases n,
{
    if n == 1 {
        assert(pairs.take(1) =~= seq![pairs[0]]);
    } else {
        lemma_chain_prefix(m, pairs, (n - 1) as nat);
        lemma_with_where_composes(m, pairs.take(n - 1), seq![pairs[n - 1]]);
        assert(pairs.take(n - 1) + seq![pairs[n - 1]] =~= pairs.take(n as int));
    }
}

/// A call that adds no bound condition and no id clause: `and`, `sort`, `limit`, `offset` or
/// `add_raw_query`, with its arguments as their contracts see them.
pub enum PlainClause {
    And(Seq<char>, Seq<char>, Seq<char>),
    Sort(bool, Seq<char>),
    Limit(u32),
    Offset(u32),
    Raw(Seq<char>),
}

/// The selector after one such call, as the call's contract states it.
pub open spec fn apply_plain(m: SelectorModel, c: PlainClause) -> SelectorModel {
    match c {
        PlainClause::And(p, o, v) => SelectorModel {
            and_params: Some(
                match m.and_params {
                    Some(a) => a,
                    None => Seq::empty(),
                }.push((p, o, v)),
            ),
            ..m
        },
        PlainClause::Sort(asc, col) => SelectorModel { sorting: Some((asc, col)), ..m },
        PlainClause::Limit(l) => SelectorModel { limit: Some(l), ..m },
        PlainClause::Offset(o) => SelectorModel { offset: Some(o), ..m },
        PlainClause::Raw(r) => SelectorModel { base: m.base + r, ..m },
    }
}

/// The selector after the first `n` such calls, in order.
pub open spec fn apply_plain_all(m: SelectorModel, cs: Seq<PlainClause>, n: nat) -> SelectorModel
    decreases n,
{
    if n == 0 {
        m
    } else {
        apply_plain(apply_plain_all(m, cs, (n - 1) as nat), cs[n - 1])
    }
}

/// Any sequence of `and`, `sort`, `limit`, `offset` and `add_raw_query` calls on a new selector
/// binds no value and writes no `AND` condition: `AND` conditions follow only a condition part.
/// The text is the base (with the raw texts added) and the ordering and paging clauses.
pub proof fn lemma_plain_calls_bind_nothing(base: Seq<char>, cs: Seq<PlainClause>, n: nat)
    requires
        n <= cs.len(),
    ensures
        ({
            let m = apply_plain_all(empty_model(base), cs, n);
            &&& !has_where(m)
            &&& query_values(m) is None
            &&& and_part(m) == Seq::<char>::empty()
            &&& query_text(m) == m.base + sort_part(m) + limit_part(m) + offset_part(m)
            &&& m.base.len() >= base.len() && m.base.subrange(0, base.len() as int) == base
        }),
    decreases n,
{
    if n > 0 {
        lemma_plain_calls_bind_nothing(base, cs, (n - 1) as nat);
        let prev = apply_plain_all(empty_model(base), cs, (n - 1) as nat);
        let m = apply_plain_all(empty_model(base), cs, n);
        assert(m.base.subrange(0, base.len() as int) =~= base) by {
            assert(prev.base.subrange(0, base.len() as int) =~= base);
            match cs[n - 1] {
                PlainClause::Raw(r) => {
                    assert((prev.base + r).subrange(0, base.len() as int) =~= prev.base.subrange(
                        0,
                        base.len() as int,
                    ));
                },
                _ => {},
            }
        }
    } else {
        assert(empty_model(base).base.subrange(0, base.len() as int) =~= base);
    }
    let m = apply_plain_all(empty_model(base), cs, n);
    assert(query_text(m) =~= m.base + sort_part(m) + limit_part(m) + offset_part(m));
}

/// After a condition part, every `AND` condition added is written, after those before it and in
/// the order added: ` AND `, the column, the operator and the value between double quotes. The
/// rest of the query is unchanged.
pub proof fn lemma_each_and_condition_written(
    m: SelectorModel,
    column: Seq<char>,
    operator: Seq<char>,
    value: Seq<char>,
)
    requires
        has_where(m),
    ensures
        ({
            let m2 = SelectorModel {
                and_params: Some(
                    match m.and_params {
                        Some(a) => a,
                        None => Seq::empty(),
                    }.push((column, operator, value)),
                ),
                ..m
            };
            &&& and_part(m2) == and_part(m) + " AND "@ + column + operator + seq!['"'] + value + seq!['"']
            &&& query_text(m2) == m.base + where_part(m) + and_part(m) + " AND "@ + column + operator
                + seq!['"'] + value + seq!['"'] + sort_part(m) + limit_part(m) + offset_part(m)
            &&& query_values(m2) == query_values(m)
        }),
{
    let a = match m.and_params {
        Some(a) => a,
        None => Seq::empty(),
    };
    let a2 = a.push((column, operator, value));
    let m2 = SelectorModel { and_params: Some(a2), ..m };
    let item = " AND "@ + column + operator + seq!['"'] + value + seq!['"'];
    assert(and_part(m) == and_items(a, a.len())) by {
        if m.and_params is None {
            assert(and_items(a, 0) == Seq::<char>::empty());
        }
    }
    assert(and_items(a2, a.len()) == and_items(a, a.len())) by {
        lemma_and_items_prefix(a2, a, a.len());
    }
    assert(and_item(a2[a.len() as int]) =~= item);
    assert(and_items(a2, a2.len()) == and_items(a2, a.len()) + and_item(a2[a.len() as int]));
    assert(and_part(m2) == and_items(a2, a2.len()));
    assert(and_part(m2) =~= and_part(m) + item);
    assert(where_part(m2) == where_part(m));
    assert(sort_part(m2) == sort_part(m));
    assert(limit_part(m2) == limit_part(m));
    assert(offset_part(m2) == offset_part(m));
    assert(query_text(m2) == m2.base + where_part(m2) + and_part(m2) + sort_part(m2) + limit_part(m2)
        + offset_part(m2));
    assert(query_text(m2) =~= m.base + where_part(m) + and_part(m) + item + sort_part(m) + limit_part(m)
        + offset_part(m));
}

/// The `AND` text of the first `n` conditions depends only on those conditions.
proof fn lemma_and_items_prefix(a: Seq<(Seq<char>, Seq<char>, Seq<char>)>, b: Seq<(Seq<char>, Seq<char>, Seq<char>)>, n: nat)
    requires
        n <= a.len(),
        n <= b.len(),
        forall|k: int| 0 <= k < n ==> a[k] == b[k],
    ensures
        and_items(a, n) == and_items(b, n),
    decreases n,
{
    if n > 0 {
        lemma_and_items_prefix(a, b, (n - 1) as nat);
    }
}

} // verus!
