use vstd::prelude::*;
use vstd::string::*;
use crate::text::{strings_view, strs_view};
use crate::query::{
    Selector, SelectorModel, QuerySelector, SortingOrder, Id, empty_model, query_text,
    query_values, id_clause,
};

verus! {

// ---------------------------------------------------------------------------------------------
// The table of the packet directories a task has already seen.
// ---------------------------------------------------------------------------------------------

/// A directory that a task has seen and does not copy again.
#[derive(Debug, Clone)]
pub struct ExceptTable {
    pub dir_name: String,
    pub task_id: String,
}

/// `('dir','task')` for each directory, joined by commas: the rows of a bulk insert.
pub open spec fn except_rows(dirs: Seq<Seq<char>>, task_id: Seq<char>, n: nat) -> Seq<char>
    decreases n,
{
    if n == 0 {
        Seq::empty()
    } else {
        let row = "('"@ + dirs[n - 1] + "','"@ + task_id + "')"@;
        if n == 1 {
            row
        } else {
            except_rows(dirs, task_id, (n - 1) as nat) + seq![','] + row
        }
    }
}

impl Id for ExceptTable {
    fn get_id(&self) -> (r: &str)
        ensures
            r@ == self.dir_name@,
    {
        self.dir_name.as_str()
    }
}

impl ExceptTable {
    pub fn new(task_name: &str, dir_name: &str) -> (r: Self)
        ensures
            r.dir_name@ == dir_name@,
            r.task_id@ == task_name@,
    {
        ExceptTable { dir_name: String::from_str(dir_name), task_id: String::from_str(task_name) }
    }

    pub fn table_name() -> (r: &'static str)
        ensures
            r@ == "exceptions"@,
    {
        "exceptions"
    }

    pub fn table_fields() -> (r: Vec<&'static str>)
        ensures
            strs_view(r@) == seq!["dir_name"@, "task_id"@],
    {
        let r = vec!["dir_name", "task_id"];
        proof {
            assert(strs_view(r@) =~= seq!["dir_name"@, "task_id"@]);
        }
        r
    }

    pub fn create_table() -> (r: String)
        ensures
            r@ == "CREATE TABLE IF NOT EXISTS exceptions (\n            dir_name TEXT NOT NULL, task_id TEXT NOT NULL, PRIMARY KEY (dir_name,task_id));"@,
    {
        String::from_str(
            "CREATE TABLE IF NOT EXISTS exceptions (\n            dir_name TEXT NOT NULL, task_id TEXT NOT NULL, PRIMARY KEY (dir_name,task_id));",
        )
    }

    /// The query that counts the rows of a task's directory.
    pub fn exists_selector<'a>(task_name: &str, dir_name: &str) -> (r: Selector<'a>)
        ensures
            query_text(r@) == "SELECT COUNT(*) as count FROM exceptions where dir_name='"@ + dir_name@
                + "' AND  task_id='"@ + task_name@ + "'"@,
            query_values(r@) is None,
    {
        let mut select = String::from_str(" where dir_name='");
        select.append(dir_name);
        select.append("' AND  task_id='");
        select.append(task_name);
        select.append("'");
        let r = Selector::new("SELECT COUNT(*) as count FROM exceptions").add_raw_query(select.as_str());
        proof {
            reveal_strlit("SELECT COUNT(*) as count FROM exceptions");
            reveal_strlit(" where dir_name='");
            reveal_strlit("SELECT COUNT(*) as count FROM exceptions where dir_name='");
            assert("SELECT COUNT(*) as count FROM exceptions"@ + " where dir_name='"@
                =~= "SELECT COUNT(*) as count FROM exceptions where dir_name='"@);
            assert(query_text(r@) =~= "SELECT COUNT(*) as count FROM exceptions where dir_name='"@ + dir_name@
                + "' AND  task_id='"@ + task_name@ + "'"@);
        }
        r
    }

    /// The statement that inserts a row for each directory of a task.
    pub fn truncate_query(dirs: &Vec<String>, task_id: &str) -> (r: String)
        ensures
            r@ == "INSERT INTO exceptions (dir_name, task_id) VALUES "@ + except_rows(
                strings_view(dirs@),
                task_id@,
                dirs@.len(),
            ),
    {
        let ghost v = strings_view(dirs@);
        let mut q = String::from_str("INSERT INTO exceptions (dir_name, task_id) VALUES ");
        let ghost start = q@;
        let mut i: usize = 0;
        while i < dirs.len()
            invariant
                i <= dirs@.len(),
                v == strings_view(dirs@),
                q@ == start + except_rows(v, task_id@, i as nat),
            decreases dirs@.len() - i,
        {
            proof {
                reveal_strlit(",");
            }
            let ghost before = q@;
            if i > 0 {
                q.append(",");
            }
            q.append("('");
            q.append(dirs[i].as_str());
            q.append("','");
            q.append(task_id);
            q.append("')");
            proof {
                assert(v[i as int] == dirs@[i as int]@);
                let row = "('"@ + v[i as int] + "','"@ + task_id@ + "')"@;
                if i == 0 {
                    assert(q@ =~= before + row);
                } else {
                    assert(q@ =~= before + seq![','] + row);
                }
                assert(q@ =~= start + except_rows(v, task_id@, (i + 1) as nat));
            }
            i = i + 1;
        }
        q
    }

    /// The statement that removes all directories of a task.
    pub fn delete_task_query(task_id: &str) -> (r: String)
        ensures
            r@ == "DELETE FROM exceptions WHERE task_id=('"@ + task_id@ + "')"@,
    {
        let mut q = String::from_str("DELETE FROM exceptions WHERE task_id=('");
        q.append(task_id);
        q.append("')");
        q
    }
}

// ---------------------------------------------------------------------------------------------
// The table of the senders of packets.
// ---------------------------------------------------------------------------------------------

/// One way to reach a contact: its kind (such as a phone) and its value.
#[derive(Debug, Clone)]
pub struct ContactType {
    pub contact_type: String,
    pub value: String,
}

/// A contact of a sender.
#[derive(Debug, Clone)]
pub struct ContactInfo {
    pub id: Option<String>,
    pub organization: Option<String>,
    pub person: Option<String>,
    pub post: Option<String>,
    pub photo: Option<String>,
    pub contacts: Vec<ContactType>,
    pub note: Option<String>,
}

/// The person who prepared a packet, as the packet names them.
#[derive(Debug, Clone)]
pub struct Executor {
    pub organization: Option<String>,
    pub person: Option<String>,
    pub post: Option<String>,
    pub contact_info: Option<String>,
}

/// The sender of a packet, as the packet names it.
#[derive(Debug, Clone)]
pub struct SenderInfo {
    pub source_guid: Option<String>,
    pub organization: Option<String>,
    pub medo_addressee: Option<String>,
    pub executor: Option<Executor>,
}

/// A sender of packets.
#[derive(Debug, Clone)]
pub struct AddresseTable {
    pub id: String,
    pub organization: String,
    pub medo_addresse: Option<String>,
    pub contact_info: Vec<ContactInfo>,
    pub icon: Option<String>,
}

pub open spec fn text_or_empty(o: Option<String>) -> Seq<char> {
    match o {
        Some(s) => s@,
        None => Seq::empty(),
    }
}

/// The executor's organization, person, post and contact, each empty where the packet has none.
pub open spec fn executor_fields(e: Executor) -> Seq<Seq<char>> {
    seq![
        text_or_empty(e.organization),
        text_or_empty(e.person),
        text_or_empty(e.post),
        text_or_empty(e.contact_info),
    ]
}

/// Whether an executor says anything at all.
pub open spec fn executor_has_data(e: Executor) -> bool {
    text_or_empty(e.organization).len() + text_or_empty(e.person).len() + text_or_empty(e.post).len()
        + text_or_empty(e.contact_info).len() > 0
}

fn string_or_empty(o: &Option<String>) -> (r: String)
    ensures
        r@ == text_or_empty(*o),
{
    match o {
        Some(s) => s.clone(),
        None => String::new(),
    }
}

/// The contact of an executor that says anything: the fields from which its identifier is made.
pub fn executor_contact_key(executor: &Executor) -> (r: Option<Vec<String>>)
    ensures
        executor_has_data(*executor) <==> r is Some,
        r matches Some(v) ==> strings_view(v@) == executor_fields(*executor),
{
    let org = string_or_empty(&executor.organization);
    let person = string_or_empty(&executor.person);
    let post = string_or_empty(&executor.post);
    let cont = string_or_empty(&executor.contact_info);
    if org.unicode_len() > 0 || person.unicode_len() > 0 || post.unicode_len() > 0 || cont.unicode_len() > 0 {
        let v = vec![org, person, post, cont];
        proof {
            assert(strings_view(v@) =~= executor_fields(*executor));
        }
        Some(v)
    } else {
        None
    }
}

impl Id for AddresseTable {
    fn get_id(&self) -> (r: &str)
        ensures
            r@ == self.id@,
    {
        self.id.as_str()
    }
}

impl AddresseTable {
    pub fn table_name() -> (r: &'static str)
        ensures
            r@ == "addresses"@,
    {
        "addresses"
    }

    pub fn table_fields() -> (r: Vec<&'static str>)
        ensures
            strs_view(r@) == seq!["id"@, "organization"@, "medo_addresse"@, "contact_info"@, "icon"@],
    {
        let r = vec!["id", "organization", "medo_addresse", "contact_info", "icon"];
        proof {
            assert(strs_view(r@) =~= seq!["id"@, "organization"@, "medo_addresse"@, "contact_info"@, "icon"@]);
        }
        r
    }

    pub fn create_table() -> (r: String)
        ensures
            r@ == "CREATE TABLE IF NOT EXISTS addresses (\n            id TEXT PRIMARY KEY NOT NULL, \n            organization TEXT NOT NULL, \n            medo_addresse TEXT, \n            contact_info JSON DEFAULT('[]'),\n            icon BLOB\n            );"@,
    {
        String::from_str(
            "CREATE TABLE IF NOT EXISTS addresses (\n            id TEXT PRIMARY KEY NOT NULL, \n            organization TEXT NOT NULL, \n            medo_addresse TEXT, \n            contact_info JSON DEFAULT('[]'),\n            icon BLOB\n            );",
        )
    }

    /// The query that counts the senders.
    pub fn count_selector<'a>() -> (r: Selector<'a>)
        ensures
            r@ == empty_model("SELECT COUNT(*) as count FROM addresses"@),
    {
        Selector::new("SELECT COUNT(*) as count FROM addresses")
    }

    /// The sender of a packet, when the packet names it by uid and organization. Its contact, when
    /// the executor says anything, is identified by `contact_id` (made from the fields of
    /// `executor_contact_key`), and lists the executor's phone when the packet has one.
    pub fn from_sender(sender: &Option<SenderInfo>, contact_id: &str) -> (r: Result<AddresseTable, String>)
        ensures
            match sender {
                None => r matches Err(e) && e@ == "id организации отправителя не найден"@,
                Some(s) => match s.source_guid {
                    None => r matches Err(e) && e@ == "id организации отправителя не найден"@,
                    Some(id) => match s.organization {
                        None => r matches Err(e) && e@ == "наименование организации отправителя не найдено"@,
                        Some(org) => r matches Ok(a) && {
                            &&& a.id@ == id@
                            &&& a.organization@ == org@
                            &&& a.medo_addresse == s.medo_addressee
                            &&& a.icon is None
                            &&& match s.executor {
                                Some(e) if executor_has_data(e) => {
                                    &&& a.contact_info@.len() == 1
                                    &&& a.contact_info@[0].id matches Some(cid) && cid@ == contact_id@
                                    &&& a.contact_info@[0].organization matches Some(x) && x@ == text_or_empty(e.organization)
                                    &&& a.contact_info@[0].person matches Some(x) && x@ == text_or_empty(e.person)
                                    &&& a.contact_info@[0].post matches Some(x) && x@ == text_or_empty(e.post)
                                    &&& a.contact_info@[0].photo is None
                                    &&& a.contact_info@[0].note is None
                                    &&& if text_or_empty(e.contact_info).len() > 0 {
                                        &&& a.contact_info@[0].contacts@.len() == 1
                                        &&& a.contact_info@[0].contacts@[0].contact_type@ == "телефон"@
                                        &&& a.contact_info@[0].contacts@[0].value@ == text_or_empty(e.contact_info)
                                    } else {
                                        a.contact_info@[0].contacts@.len() == 0
                                    }
                                },
                                _ => a.contact_info@.len() == 0,
                            }
                        },
                    },
                },
            },
    {
        let s = match sender {
            Some(s) => s,
            None => return Err(String::from_str("id организации отправителя не найден")),
        };
        let id = match &s.source_guid {
            Some(id) => id.clone(),
            None => return Err(String::from_str("id организации отправителя не найден")),
        };
        let organization = match &s.organization {
            Some(o) => o.clone(),
            None => return Err(String::from_str("наименование организации отправителя не найдено")),
        };
        let medo_addresse = s.medo_addressee.clone();
        let mut contacts: Vec<ContactInfo> = Vec::new();
        if let Some(executor) = &s.executor {
            let org = string_or_empty(&executor.organization);
            let person = string_or_empty(&executor.person);
            let post = string_or_empty(&executor.post);
            let cont = string_or_empty(&executor.contact_info);
            if org.unicode_len() > 0 || person.unicode_len() > 0 || post.unicode_len() > 0
                || cont.unicode_len() > 0 {
                let mut ct: Vec<ContactType> = Vec::new();
                if cont.unicode_len() > 0 {
                    ct.push(ContactType { contact_type: String::from_str("телефон"), value: cont.clone() });
                }
                contacts.push(
                    ContactInfo {
                        id: Some(String::from_str(contact_id)),
                        organization: Some(org),
                        person: Some(person),
                        post: Some(post),
                        photo: None,
                        contacts: ct,
                        note: None,
                    },
                );
            }
        }
        Ok(AddresseTable { id, organization, medo_addresse, icon: None, contact_info: contacts })
    }
}

// ---------------------------------------------------------------------------------------------
// The table of the packets the tasks have found.
// ---------------------------------------------------------------------------------------------

/// A packet found by a task, as the packets table keys it.
#[derive(Debug, Clone)]
pub struct PacketTable {
    pub id: String,
    pub task_name: String,
    pub report_sended: bool,
}

/// `field LIKE '%word%'`
pub open spec fn like_spec(field: Seq<char>, word: Seq<char>) -> Seq<char> {
    field + " LIKE '%"@ + word + "%'"@
}

/// ` task_name = "name"` for each name, joined by ` or `.
pub open spec fn task_names_condition(names: Seq<Seq<char>>, n: nat) -> Seq<char>
    decreases n,
{
    if n == 0 {
        Seq::empty()
    } else {
        task_names_condition(names, (n - 1) as nat) + " task_name = \""@ + names[n - 1] + if n < names.len() {
            "\" or "@
        } else {
            "\""@
        }
    }
}

/// The condition that keeps the packets of the named (visible) tasks.
pub open spec fn visible_tasks_spec(names: Seq<Seq<char>>) -> Seq<char> {
    " where "@ + task_names_condition(names, names.len())
}

impl Id for PacketTable {
    fn get_id(&self) -> (r: &str)
        ensures
            r@ == self.id@,
    {
        self.id.as_str()
    }
}

impl PacketTable {
    /// The row of a packet: its identifier, the task that found it and whether its delivery
    /// report was sent.
    pub fn new(id: &str, task_name: &str, report_sended: bool) -> (r: Self)
        ensures
            r.id@ == id@,
            r.task_name@ == task_name@,
            r.report_sended == report_sended,
    {
        PacketTable {
            id: String::from_str(id),
            task_name: String::from_str(task_name),
            report_sended,
        }
    }

    pub fn get_task_name(&self) -> (r: &str)
        ensures
            r@ == self.task_name@,
    {
        self.task_name.as_str()
    }

    pub fn report_is_sended(&self) -> (r: bool)
        ensures
            r == self.report_sended,
    {
        self.report_sended
    }

    pub fn table_name() -> (r: &'static str)
        ensures
            r@ == "packets"@,
    {
        "packets"
    }

    pub fn table_fields() -> (r: Vec<&'static str>)
        ensures
            strs_view(r@) == seq![
                "id"@, "task_name"@, "header_id"@, "directory"@, "packet_type"@, "delivery_time"@,
                "error"@, "default_pdf"@, "pdf_hash"@, "files"@, "requisites"@, "sender_id"@,
                "acknowledgment"@, "visible"@, "trace_message"@, "report_sended"@,
            ],
    {
        let r = vec![
            "id", "task_name", "header_id", "directory", "packet_type", "delivery_time", "error",
            "default_pdf", "pdf_hash", "files", "requisites", "sender_id", "acknowledgment", "visible",
            "trace_message", "report_sended",
        ];
        proof {
            assert(strs_view(r@) =~= seq![
                "id"@, "task_name"@, "header_id"@, "directory"@, "packet_type"@, "delivery_time"@,
                "error"@, "default_pdf"@, "pdf_hash"@, "files"@, "requisites"@, "sender_id"@,
                "acknowledgment"@, "visible"@, "trace_message"@, "report_sended"@,
            ]);
        }
        r
    }

    pub fn create_table() -> (r: String)
        ensures
            r@ == "CREATE TABLE IF NOT EXISTS packets (\n            id TEXT PRIMARY KEY NOT NULL,\n            task_name TEXT NOT NULL,\n            header_id TEXT, \n            directory TEXT NOT NULL, \n            packet_type TEXT,\n            delivery_time TEXT NOT NULL,\n            error TEXT,\n            default_pdf TEXT, \n            pdf_hash TEXT,\n            files JSON DEFAULT('[]'),\n            requisites JSON,\n            sender_id TEXT,\n            acknowledgment JSON,\n            visible INTEGER NOT NULL DEFAULT 1,\n            trace_message TEXT,\n            report_sended INTEGER NOT NULL DEFAULT 0\n            );"@,
    {
        String::from_str(
            "CREATE TABLE IF NOT EXISTS packets (\n            id TEXT PRIMARY KEY NOT NULL,\n            task_name TEXT NOT NULL,\n            header_id TEXT, \n            directory TEXT NOT NULL, \n            packet_type TEXT,\n            delivery_time TEXT NOT NULL,\n            error TEXT,\n            default_pdf TEXT, \n            pdf_hash TEXT,\n            files JSON DEFAULT('[]'),\n            requisites JSON,\n            sender_id TEXT,\n            acknowledgment JSON,\n            visible INTEGER NOT NULL DEFAULT 1,\n            trace_message TEXT,\n            report_sended INTEGER NOT NULL DEFAULT 0\n            );",
        )
    }

    /// `field LIKE '%word%'`: the field holds the word.
    pub fn like(field_name: &str, searched_word: &str) -> (r: String)
        ensures
            r@ == like_spec(field_name@, searched_word@),
    {
        let mut r = String::from_str(field_name);
        r.append(" LIKE '%");
        r.append(searched_word);
        r.append("%'");
        r
    }

    /// The condition that keeps the packets of the named tasks.
    pub fn only_visible_tasks_query(names: &Vec<String>) -> (r: String)
        ensures
            r@ == visible_tasks_spec(strings_view(names@)),
    {
        let ghost v = strings_view(names@);
        let mut params = String::from_str(" where ");
        let ghost start = params@;
        let n = names.len();
        let mut i: usize = 0;
        while i < n
            invariant
                n == names@.len(),
                i <= n,
                v == strings_view(names@),
                params@ == start + task_names_condition(v, i as nat),
            decreases n - i,
        {
            let ghost before = params@;
            params.append(" task_name = \"");
            params.append(names[i].as_str());
            if i + 1 < n {
                params.append("\" or ");
            } else {
                params.append("\"");
            }
            proof {
                assert(v[i as int] == names@[i as int]@);
                assert(params@ =~= start + task_names_condition(v, (i + 1) as nat));
            }
            i = i + 1;
        }
        params
    }

    /// The query that counts the packets of the named tasks.
    pub fn packets_count_selector<'a>(names: &Vec<String>) -> (r: Selector<'a>)
        ensures
            r@ == empty_model("SELECT COUNT(*) as count FROM packets"@ + visible_tasks_spec(strings_view(names@))),
    {
        let vq = Self::only_visible_tasks_query(names);
        Selector::new("SELECT COUNT(*) as count FROM packets").add_raw_query(vq.as_str())
    }

    /// The query for the ids of one page of packets of the named tasks, newest first.
    pub fn page_ids_selector<'a>(rows: &u32, offset: &u32, names: &Vec<String>) -> (r: Selector<'a>)
        ensures
            r@ == (SelectorModel {
                sorting: Some((false, "delivery_time"@)),
                limit: Some(*rows),
                offset: Some(*offset),
                ..empty_model("SELECT id FROM packets"@ + visible_tasks_spec(strings_view(names@)))
            }),
    {
        let vq = Self::only_visible_tasks_query(names);
        Selector::new("SELECT id FROM packets")
            .sort(SortingOrder::Desc("delivery_time"))
            .add_raw_query(vq.as_str())
            .limit(rows)
            .offset(offset)
    }

    /// The query for the packets of the given ids, newest first.
    pub fn page_selector<'a>(full_select: &str, ids: &[String]) -> (r: Selector<'a>)
        ensures
            r@ == (SelectorModel {
                where_by_id: Some(id_clause(false, strings_view(ids@))),
                sorting: Some((false, "delivery_time"@)),
                ..empty_model(full_select@)
            }),
    {
        Selector::new(full_select).where_in(ids).sort(SortingOrder::Desc("delivery_time"))
    }

    /// The query for at most a hundred packets whose directory or requisites hold the searched
    /// text, newest first.
    pub fn search_selector<'a>(full_select: &str, search_string: &str) -> (r: Selector<'a>)
        ensures
            r@ == (SelectorModel {
                sorting: Some((false, "delivery_time"@)),
                limit: Some(100u32),
                ..empty_model(full_select@ + " where "@ + like_spec("directory"@, search_string@) + " OR "@
                    + like_spec("requisites"@, search_string@))
            }),
    {
        let mut select = String::from_str(" where ");
        let d = Self::like("directory", search_string);
        let q = Self::like("requisites", search_string);
        select.append(d.as_str());
        select.append(" OR ");
        select.append(q.as_str());
        let hundred: u32 = 100;
        let r = Selector::new(full_select)
            .sort(SortingOrder::Desc("delivery_time"))
            .add_raw_query(select.as_str())
            .limit(&hundred);
        proof {
            assert(r@.base =~= full_select@ + " where "@ + like_spec("directory"@, search_string@) + " OR "@
                + like_spec("requisites"@, search_string@));
        }
        r
    }

    /// The statement that removes one directory of a task (bound as `$1` and `$2`).
    pub fn truncate_query() -> (r: String)
        ensures
            r@ == "DELETE FROM packets WHERE task_name = $1 AND directory = $2"@,
    {
        String::from_str("DELETE FROM packets WHERE task_name = $1 AND directory = $2")
    }

    /// The statement that removes all packets of a task (bound as `$1`).
    pub fn delete_by_task_name_query() -> (r: String)
        ensures
            r@ == "DELETE FROM packets WHERE task_name = $1"@,
    {
        String::from_str("DELETE FROM packets WHERE task_name = $1")
    }

    /// The statement that removes a packet (bound as `$1`).
    pub fn delete_by_id_query() -> (r: String)
        ensures
            r@ == "DELETE FROM packets WHERE id = $1"@,
    {
        String::from_str("DELETE FROM packets WHERE id = $1")
    }
}

/// The number of packets of one type.
#[derive(Debug, Clone)]
pub struct PacketTypesCount {
    pub count: u32,
    pub packet_type: String,
}

impl Default for PacketTypesCount {
    fn default() -> (r: Self)
        ensures
            r.count == 0,
            r.packet_type@ == "Неизвестно"@,
    {
        PacketTypesCount { count: 0, packet_type: String::from_str("Неизвестно") }
    }
}

impl PacketTypesCount {
    /// The query that counts the packets of each type.
    pub fn packet_types_query() -> (r: String)
        ensures
            r@ == "SELECT COUNT(*) as count, packet_type FROM packets GROUP BY packet_type"@,
    {
        String::from_str("SELECT COUNT(*) as count, packet_type FROM packets GROUP BY packet_type")
    }
}

} // verus!
