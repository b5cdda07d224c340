//! Management of launchd jobs: the job model, its validation and descriptor
//! encoding, the parsing of the job-control listing, and the decisions of the
//! job lifecycle.

mod archive;
mod config;
mod descriptor;
mod env;
mod error;
mod lifecycle;
mod owner;
mod paths;
mod tasks;
mod text;
mod tree;

pub use archive::{decompress, unpack_plan, ArchiveEntry, Extraction};
pub use config::{
    declared_label, AliveCondition, CalendarInterval, Config, ConfigKind, Configuration,
    ResourceLimit, TASKER_TASK_NAME,
};
pub use descriptor::get_plist_from_conf;
pub use env::{get_plist_path, Env};
pub use error::Error;
pub use lifecycle::{
    create_task, delete_task, find_yaml_file, load_task, prepare_task, read_last_n_lines, replace_root_alias,
    replace_task_root_alias, set_working_directory_as_root_alias, unload_task, update_yaml,
    view_std_err, view_std_out, view_yaml, Action, Outcome, PreparedTask, Progress, Step,
};
pub use owner::{get_user_group_pair_id, resolve_owner};
pub use paths::join_path;
pub use tasks::{
    exist, insert_task, is_loaded, list_combined, list_jobs, meta_yaml_list, Status, TaskInfo,
};
pub use text::{contains, join_text, starts_with, text_eq, text_less};
pub use tree::{copy_folder, move_by_rename, TreeWalk};
