use vstd::prelude::*;
use vstd::string::*;
use crate::text::{strings_view, contains_string};

verus! {

/// The filters of a copy task: the packet types and the sender uids it looks for.
#[derive(Debug, Clone)]
pub struct PacketFilters {
    pub document_types: Vec<String>,
    pub document_uids: Vec<String>,
}

/// What the rules read of a parsed packet: its type and its sender's uid, where the packet has them.
pub struct PacketFacts {
    pub packet_type: Option<String>,
    pub source_uid: Option<String>,
}

/// A packet that a rule could not judge; each one is reported as a packet with an error.
#[derive(Debug, Clone, Copy, PartialEq, Eq, Structural)]
pub enum RuleFailure {
    /// the packet has no type (`xdms:type`)
    MissingPacketType,
    /// the packet has no sender uid
    MissingSourceUid,
}

/// Whether the packet passes the task's filters, and the failures reported on the way, in order.
pub struct RulesOutcome {
    pub pass: bool,
    pub failures: Vec<RuleFailure>,
}

pub open spec fn opt_view(o: Option<String>) -> Option<Seq<char>> {
    match o {
        Some(s) => Some(s@),
        None => None,
    }
}

/// The type rule: the packet has a type, and its being listed is what the task asks for.
pub open spec fn type_rule(types: Seq<Seq<char>>, t: Option<Seq<char>>, accept: bool) -> bool {
    match t {
        Some(x) => types.contains(x) == accept,
        None => false,
    }
}

/// The sender rule: the packet has a sender uid, and its being listed is what the task asks for.
pub open spec fn uid_rule(uids: Seq<Seq<char>>, u: Option<Seq<char>>, accept: bool) -> bool {
    match u {
        Some(x) => uids.contains(x) == accept,
        None => false,
    }
}

pub open spec fn type_report(t: Option<Seq<char>>) -> Seq<RuleFailure> {
    if t is None {
        seq![RuleFailure::MissingPacketType]
    } else {
        Seq::empty()
    }
}

pub open spec fn uid_report(u: Option<Seq<char>>) -> Seq<RuleFailure> {
    if u is None {
        seq![RuleFailure::MissingSourceUid]
    } else {
        Seq::empty()
    }
}

/// The decision of the rules, evaluated in the order the task reads them.
///
/// When the task has both filters, the packet must pass both (the sender rule is looked at only
/// after the type rule passed); when it fails there, or the task has only one filter, passing any
/// filter the task has is enough. Each rule looked at on a packet that lacks its fact reports it.
pub open spec fn rules_result(
    types: Seq<Seq<char>>,
    uids: Seq<Seq<char>>,
    t: Option<Seq<char>>,
    u: Option<Seq<char>>,
    accept: bool,
) -> (bool, Seq<RuleFailure>) {
    let both = types.len() > 0 && uids.len() > 0;
    let first = if both {
        type_report(t) + if type_rule(types, t, accept) {
            uid_report(u)
        } else {
            Seq::empty()
        }
    } else {
        Seq::empty()
    };
    if both && type_rule(types, t, accept) && uid_rule(uids, u, accept) {
        (true, first)
    } else {
        let second = (if types.len() > 0 {
            type_report(t)
        } else {
            Seq::empty()
        }) + (if uids.len() > 0 {
            uid_report(u)
        } else {
            Seq::empty()
        });
        (
            (types.len() > 0 && type_rule(types, t, accept)) || (uids.len() > 0 && uid_rule(
                uids,
                u,
                accept,
            )),
            first + second,
        )
    }
}

fn packet_type_rule(
    filters: &PacketFilters,
    facts: &PacketFacts,
    need_rule_accept: bool,
    failures: &mut Vec<RuleFailure>,
) -> (r: bool)
    ensures
        r == type_rule(
            strings_view(filters.document_types@),
            opt_view(facts.packet_type),
            need_rule_accept,
        ),
        final(failures)@ == old(failures)@ + type_report(opt_view(facts.packet_type)),
{
    match &facts.packet_type {
        None => {
            failures.push(RuleFailure::MissingPacketType);
            false
        },
        Some(t) => {
            proof {
                assert(old(failures)@ + type_report(opt_view(facts.packet_type)) =~= old(failures)@);
            }
            contains_string(&filters.document_types, t) == need_rule_accept
        },
    }
}

fn source_uid_rule(
    filters: &PacketFilters,
    facts: &PacketFacts,
    need_rule_accept: bool,
    failures: &mut Vec<RuleFailure>,
) -> (r: bool)
    ensures
        r == uid_rule(
            strings_view(filters.document_uids@),
            opt_view(facts.source_uid),
            need_rule_accept,
        ),
        final(failures)@ == old(failures)@ + uid_report(opt_view(facts.source_uid)),
{
    match &facts.source_uid {
        None => {
            failures.push(RuleFailure::MissingSourceUid);
            false
        },
        Some(u) => {
            proof {
                assert(old(failures)@ + uid_report(opt_view(facts.source_uid)) =~= old(failures)@);
            }
            contains_string(&filters.document_uids, u) == need_rule_accept
        },
    }
}

/// Whether a packet passes the filters of a task that copies only (`need_rule_accept`) or all but
/// (`!need_rule_accept`) the listed packets.
pub fn pass_rules(filters: &PacketFilters, facts: &PacketFacts, need_rule_accept: bool) -> (r: RulesOutcome)
    ensures
        (r.pass, r.failures@) == rules_result(
            strings_view(filters.document_types@),
            strings_view(filters.document_uids@),
            opt_view(facts.packet_type),
            opt_view(facts.source_uid),
            need_rule_accept,
        ),
{
    let ghost types = strings_view(filters.document_types@);
    let ghost uids = strings_view(filters.document_uids@);
    let ghost t = opt_view(facts.packet_type);
    let ghost u = opt_view(facts.source_uid);
    let mut failures: Vec<RuleFailure> = Vec::new();
    let both = filters.document_types.len() > 0 && filters.document_uids.len() > 0;
    let mut all = false;
    if both {
        if packet_type_rule(filters, facts, need_rule_accept, &mut failures) {
            if source_uid_rule(filters, facts, need_rule_accept, &mut failures) {
                all = true;
            }
        }
    }
    let ghost first = failures@;
    proof {
        let expected = if both {
            type_report(t) + if type_rule(types, t, need_rule_accept) {
                uid_report(u)
            } else {
                Seq::empty()
            }
        } else {
            Seq::empty()
        };
        assert(first =~= expected);
    }
    if all {
        return RulesOutcome { pass: true, failures };
    }
    let mut pass = false;
    if filters.document_types.len() > 0 {
        if packet_type_rule(filters, facts, need_rule_accept, &mut failures) {
            pass = true;
        }
    }
    let ghost mid = failures@;
    if filters.document_uids.len() > 0 {
        if source_uid_rule(filters, facts, need_rule_accept, &mut failures) {
            pass = true;
        }
    }
    proof {
        let second = (if types.len() > 0 {
            type_report(t)
        } else {
            Seq::empty()
        }) + (if uids.len() > 0 {
            uid_report(u)
        } else {
            Seq::empty()
        });
        assert(mid =~= first + (if types.len() > 0 {
            type_report(t)
        } else {
            Seq::empty()
        }));
        assert(failures@ =~= first + second);
    }
    RulesOutcome { pass, failures }
}

/// A packet that has both its type and its sender uid is never reported by the rules.
pub proof fn lemma_complete_packet_not_reported(
    types: Seq<Seq<char>>,
    uids: Seq<Seq<char>>,
    t: Seq<char>,
    u: Seq<char>,
    accept: bool,
)
    ensures
        rules_result(types, uids, Some(t), Some(u), accept).1 == Seq::<RuleFailure>::empty(),
{
    assert(rules_result(types, uids, Some(t), Some(u), accept).1 =~= Seq::<RuleFailure>::empty());
}

/// With a single filter, copying only the listed packets and copying all but them are
/// complementary: a packet that has the fact the filter reads passes exactly one of the two.
pub proof fn lemma_single_filter_complementary(
    types: Seq<Seq<char>>,
    uids: Seq<Seq<char>>,
    t: Seq<char>,
    u: Seq<char>,
)
    requires
        (types.len() > 0 && uids.len() == 0) || (types.len() == 0 && uids.len() > 0),
    ensures
        rules_result(types, uids, Some(t), Some(u), true).0 == !rules_result(types, uids, Some(t), Some(u), false).0,
{
}

/// With both filters, copying only the listed packets takes a packet listed by either filter,
/// and copying all but them takes a packet unlisted by either.
pub proof fn lemma_both_filters(types: Seq<Seq<char>>, uids: Seq<Seq<char>>, t: Seq<char>, u: Seq<char>)
    requires
        types.len() > 0,
        uids.len() > 0,
    ensures
        rules_result(types, uids, Some(t), Some(u), true).0 == (types.contains(t) || uids.contains(u)),
        rules_result(types, uids, Some(t), Some(u), false).0 == (!types.contains(t) || !uids.contains(u)),
{
}

/// A packet without a type, under a task that filters by type only, passes neither way and is
/// reported once.
pub proof fn lemma_untyped_packet_rejected(types: Seq<Seq<char>>, u: Option<Seq<char>>, accept: bool)
    requires
        types.len() > 0,
    ensures
        !rules_result(types, Seq::empty(), None, u, accept).0,
        rules_result(types, Seq::empty(), None, u, accept).1 == seq![RuleFailure::MissingPacketType],
{
    assert(rules_result(types, Seq::empty(), None, u, accept).1 =~= seq![RuleFailure::MissingPacketType]);
}

/// The report of a rule failure on the packet at `source_path`.
pub fn failure_message(failure: RuleFailure, source_path: &str) -> (s: String)
    ensures
        s@ == "Ошибка обработки пакета "@ + source_path@ + match failure {
            RuleFailure::MissingPacketType => " -> тип пакета (xdms:type) в схеме xml не найден"@,
            RuleFailure::MissingSourceUid => " -> uid отправителя в пакете не найден"@,
        },
{
    let mut s = String::from_str("Ошибка обработки пакета ");
    s.append(source_path);
    match failure {
        RuleFailure::MissingPacketType => s.append(" -> тип пакета (xdms:type) в схеме xml не найден"),
        RuleFailure::MissingSourceUid => s.append(" -> uid отправителя в пакете не найден"),
    }
    s
}

/// Whether a task that cleans automatically removes a packet of this type instead of copying it.
pub fn should_autoclean(autocleaning: bool, packet_type: &Option<String>, clean_types: &Vec<String>) -> (r: bool)
    ensures
        r == (autocleaning && match packet_type {
            Some(t) => strings_view(clean_types@).contains(t@),
            None => false,
        }),
{
    if autocleaning {
        if let Some(t) = packet_type {
            return contains_string(clean_types, t);
        }
    }
    false
}

/// What a parsed packet offers for a delivery report.
pub struct DeliveryFacts {
    /// where the task sends its reports, if it sends them
    pub report_dir: Option<String>,
    pub error: Option<String>,
    pub document_uid: Option<String>,
    pub source_uid: Option<String>,
    pub organization: Option<String>,
    pub addressee: Option<String>,
}

/// What becomes of the delivery report of a packet.
#[derive(Debug, Clone, PartialEq, Eq)]
pub enum ReportDecision {
    /// the task sends no reports
    NoReportDir,
    /// the packet was read with an error; no report
    PacketError,
    /// the packet lacks what a report needs (named, in order); no report
    MissingFields(Vec<String>),
    /// the report is sent
    Send,
}

/// The names of what a report needs and the packet lacks, in the order they are checked.
pub open spec fn missing_fields(f: DeliveryFacts) -> Seq<Seq<char>> {
    (if f.document_uid is None {
        seq!["uid документа"@]
    } else {
        Seq::empty()
    }) + (if f.source_uid is None {
        seq!["uid отправителя"@]
    } else {
        Seq::empty()
    }) + (if f.organization is None {
        seq!["наименование организации отправителя"@]
    } else {
        Seq::empty()
    }) + (if f.addressee is None {
        seq!["адрес МЭДО отправителя"@]
    } else {
        Seq::empty()
    })
}

/// Whether a delivery report is sent for a packet, and why not.
pub fn report_decision(facts: &DeliveryFacts) -> (r: ReportDecision)
    ensures
        facts.report_dir is None ==> r == ReportDecision::NoReportDir,
        facts.report_dir is Some && facts.error is Some ==> r == ReportDecision::PacketError,
        facts.report_dir is Some && facts.error is None && missing_fields(*facts).len() > 0 ==> (
        r matches ReportDecision::MissingFields(v) && strings_view(v@) == missing_fields(*facts)),
        facts.report_dir is Some && facts.error is None && missing_fields(*facts).len() == 0 ==> r
            == ReportDecision::Send,
{
    if facts.report_dir.is_none() {
        return ReportDecision::NoReportDir;
    }
    if facts.error.is_some() {
        return ReportDecision::PacketError;
    }
    let mut err: Vec<String> = Vec::new();
    if facts.document_uid.is_none() {
        err.push(String::from_str("uid документа"));
    }
    let ghost e1 = strings_view(err@);
    if facts.source_uid.is_none() {
        err.push(String::from_str("uid отправителя"));
    }
    let ghost e2 = strings_view(err@);
    if facts.organization.is_none() {
        err.push(String::from_str("наименование организации отправителя"));
    }
    let ghost e3 = strings_view(err@);
    if facts.addressee.is_none() {
        err.push(String::from_str("адрес МЭДО отправителя"));
    }
    proof {
        let f = *facts;
        assert(e1 =~= (if f.document_uid is None {
            seq!["uid документа"@]
        } else {
            Seq::empty()
        }));
        assert(e2 =~= e1 + (if f.source_uid is None {
            seq!["uid отправителя"@]
        } else {
            Seq::empty()
        }));
        assert(e3 =~= e2 + (if f.organization is None {
            seq!["наименование организации отправителя"@]
        } else {
            Seq::empty()
        }));
        assert(strings_view(err@) =~= missing_fields(f));
    }
    if err.len() > 0 {
        ReportDecision::MissingFields(err)
    } else {
        ReportDecision::Send
    }
}

/// Cleans the packets of the tasks that list packet types to clean.
pub struct PacketCleaner {}

impl PacketCleaner {
    /// Whether the cleaner removes a directory of a task's source directory: a directory that is
    /// not a packet is removed when it is empty; a packet is removed when its type is listed.
    /// A task that lists no type is not cleaned.
    pub fn removes_dir(
        not_a_packet: bool,
        entries_in_dir: Option<usize>,
        packet_type: &Option<String>,
        clean_types: &Vec<String>,
    ) -> (r: bool)
        ensures
            r == (clean_types@.len() > 0 && if not_a_packet {
                entries_in_dir == Some(0usize)
            } else {
                match packet_type {
                    Some(t) => strings_view(clean_types@).contains(t@),
                    None => false,
                }
            }),
    {
        if clean_types.len() == 0 {
            return false;
        }
        if not_a_packet {
            match entries_in_dir {
                Some(n) => n == 0,
                None => false,
            }
        } else {
            match packet_type {
                Some(t) => contains_string(clean_types, t),
                None => false,
            }
        }
    }
}

/// With only a sender filter, the rules judge a packet that has a sender uid by that uid alone:
/// copying only the listed packets takes it exactly when its uid is listed, copying all but them
/// exactly when it is not, and nothing is reported.
pub proof fn lemma_sender_filter_alone(
    uids: Seq<Seq<char>>,
    t: Option<Seq<char>>,
    u: Seq<char>,
    accept: bool,
)
    requires
        uids.len() > 0,
    ensures
        accept ==> rules_result(Seq::empty(), uids, t, Some(u), accept).0 == uids.contains(u),
        !accept ==> rules_result(Seq::empty(), uids, t, Some(u), accept).0 == !uids.contains(u),
        rules_result(Seq::empty(), uids, t, Some(u), accept).1 == Seq::<RuleFailure>::empty(),
{
    assert(rules_result(Seq::empty(), uids, t, Some(u), accept).1 =~= Seq::<RuleFailure>::empty());
}

/// With only a type filter, the rules judge a packet that has a type by that type alone: copying
/// only the listed packets takes it exactly when its type is listed, copying all but them exactly
/// when it is not, and nothing is reported.
pub proof fn lemma_type_filter_alone(
    types: Seq<Seq<char>>,
    t: Seq<char>,
    u: Option<Seq<char>>,
    accept: bool,
)
    requires
        types.len() > 0,
    ensures
        accept ==> rules_result(types, Seq::empty(), Some(t), u, accept).0 == types.contains(t),
        !accept ==> rules_result(types, Seq::empty(), Some(t), u, accept).0 == !types.contains(t),
        rules_result(types, Seq::empty(), Some(t), u, accept).1 == Seq::<RuleFailure>::empty(),
{
    assert(rules_result(types, Seq::empty(), Some(t), u, accept).1 =~= Seq::<RuleFailure>::empty());
}

/// A task without filters copies no packet by the rules, and reports nothing.
pub proof fn lemma_no_filter_passes_nothing(t: Option<Seq<char>>, u: Option<Seq<char>>, accept: bool)
    ensures
        !rules_result(Seq::empty(), Seq::empty(), t, u, accept).0,
        rules_result(Seq::empty(), Seq::empty(), t, u, accept).1 == Seq::<RuleFailure>::empty(),
{
    assert(rules_result(Seq::empty(), Seq::empty(), t, u, accept).1 =~= Seq::<RuleFailure>::empty());
}

/// A packet without a sender uid, under a task that filters by sender only, passes neither way
/// and is reported once.
pub proof fn lemma_senderless_packet_rejected(uids: Seq<Seq<char>>, t: Option<Seq<char>>, accept: bool)
    requires
        uids.len() > 0,
    ensures
        !rules_result(Seq::empty(), uids, t, None, accept).0,
        rules_result(Seq::empty(), uids, t, None, accept).1 == seq![RuleFailure::MissingSourceUid],
{
    assert(rules_result(Seq::empty(), uids, t, None, accept).1 =~= seq![RuleFailure::MissingSourceUid]);
}

/// A delivery report needs four facts of the packet: it lacks nothing exactly when it has the
/// document uid, the sender uid, the sender organization and the sender's MEDO address; each one
/// it lacks is named, and only those.
pub proof fn lemma_report_needs_all_facts(f: DeliveryFacts)
    ensures
        missing_fields(f).len() == 0 <==> (f.document_uid is Some && f.source_uid is Some
            && f.organization is Some && f.addressee is Some),
        missing_fields(f).contains("uid документа"@) <==> f.document_uid is None,
        missing_fields(f).contains("uid отправителя"@) <==> f.source_uid is None,
        missing_fields(f).contains("наименование организации отправителя"@) <==> f.organization is None,
        missing_fields(f).contains("адрес МЭДО отправителя"@) <==> f.addressee is None,
        missing_fields(f).len() == (if f.document_uid is None { 1int } else { 0int }) + (if f.source_uid
            is None { 1int } else { 0int }) + (if f.organization is None { 1int } else { 0int }) + (
        if f.addressee is None { 1int } else { 0int }),
{
    reveal_strlit("uid документа");
    reveal_strlit("uid отправителя");
    reveal_strlit("наименование организации отправителя");
    reveal_strlit("адрес МЭДО отправителя");
    let a = "uid документа"@;
    let b = "uid отправителя"@;
    let c = "наименование организации отправителя"@;
    let d = "адрес МЭДО отправителя"@;
    assert(a.len() != b.len() && a.len() != c.len() && a.len() != d.len());
    assert(b.len() != c.len() && b.len() != d.len() && c.len() != d.len());
    let s1: Seq<Seq<char>> = if f.document_uid is None { seq![a] } else { Seq::empty() };
    let s2: Seq<Seq<char>> = if f.source_uid is None { seq![b] } else { Seq::empty() };
    let s3: Seq<Seq<char>> = if f.organization is None { seq![c] } else { Seq::empty() };
    let s4: Seq<Seq<char>> = if f.addressee is None { seq![d] } else { Seq::empty() };
    let m = missing_fields(f);
    assert(m == s1 + s2 + s3 + s4);
    assert forall|x: Seq<char>| m.contains(x) <==> (s1.contains(x) || s2.contains(x) || s3.contains(x)
        || s4.contains(x)) by {
        if m.contains(x) {
            let i = choose|i: int| 0 <= i < m.len() && m[i] == x;
            if i < s1.len() {
                assert(s1[i] == x);
            } else if i < s1.len() + s2.len() {
                assert(s2[i - s1.len()] == x);
            } else if i < s1.len() + s2.len() + s3.len() {
                assert(s3[i - s1.len() - s2.len()] == x);
            } else {
                assert(s4[i - s1.len() - s2.len() - s3.len()] == x);
            }
        }
        if s1.contains(x) {
            assert(m[0] == x);
        }
        if s2.contains(x) {
            assert(m[s1.len() as int] == x);
        }
        if s3.contains(x) {
            assert(m[(s1.len() + s2.len()) as int] == x);
        }
        if s4.contains(x) {
            assert(m[(s1.len() + s2.len() + s3.len()) as int] == x);
        }
    }
    if f.document_uid is None {
        assert(s1[0] == a);
    }
    if f.source_uid is None {
        assert(s2[0] == b);
    }
    if f.organization is None {
        assert(s3[0] == c);
    }
    if f.addressee is None {
        assert(s4[0] == d);
    }
}

} // verus!
