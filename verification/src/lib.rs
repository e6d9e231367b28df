//! The logic of a server that watches directories for transport packets, copies them by the
//! rules of its tasks, and keeps a database of what it found: query building, table statements,
//! copy rules, task schedules, file stability checks, the cache of directories already seen, the
//! renaming of forgotten directories, task settings, the routing and parameters of its HTTP API,
//! paths, dates and error messages.

use vstd::prelude::*;

pub mod text;
pub mod string_set;
pub mod query;
pub mod copy_rules;
pub mod schedule;
pub mod file_check;
pub mod forgotten_dirs;
pub mod error;
pub mod settings;
pub mod tables;
pub mod date;
pub mod packets;
pub mod files;
pub mod api;
pub mod excludes;

pub use query::{
    CountRequest, Id, IdSelector, QuerySelector, Selector, SortingOrder,
    delete_many_exclude_ids_selector,
};
pub use copy_rules::{
    PacketFilters, PacketFacts, RuleFailure, RulesOutcome, pass_rules, failure_message,
    should_autoclean, DeliveryFacts, ReportDecision, report_decision, PacketCleaner,
};
pub use schedule::TaskTimers;
pub use file_check::{FileStamp, Verdict, StabilityCheck, MAX_REPEATS};
pub use forgotten_dirs::{dir_iteration, iterated_dir_name, next_dir_name, ForgetWatcher};
pub use error::{DbError, Error, from_validation_error, from_service_error, vec_to_str};
pub use settings::{
    Task, CopyModifier, Settings, Args, Cli, deserialize_copy_modifier, empty_rules, task_position,
    update, delete, ServerTask, visible_task_names, clear_exclude_request,
};
pub use tables::{
    ExceptTable, AddresseTable, ContactInfo, ContactType, Executor, SenderInfo, PacketTable,
    PacketTypesCount, executor_contact_key,
};
pub use date::{Date, DateFormat, DaysProgress, now_parts, parse_parts, written_date};
pub use packets::{AsNewdoc, NewDocument, PacketDocument};
pub use text::{split_once, parse_u32, find_name};
pub use files::{File, FileService, join_path, join_paths, file_extension};
pub use excludes::{ExcludesCache, AddStep};
pub use api::{
    Endpoint, PacketsRequest, route, packets_request, task_name_param, search_value,
    search_value_of, task_updated_message, task_deleted_message, pair_rows_with_tasks, query_param,
};

verus! {
}
