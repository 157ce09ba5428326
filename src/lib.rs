//! A small task tracker: named accounts, each holding an ordered list of
//! tasks, with the commands that act on a store of accounts and the mapping
//! of that store to and from a JSON document tree.

pub mod task;
pub mod account;
pub mod store;
pub mod persist;

pub use task::{Priority, Task};
pub use account::{Account, INVALID_TASK_INDEX};
pub use store::{handle_add_command, handle_addp_command, handle_clear_command,
    handle_complete_command, handle_delete_command, handle_incomplete_command, handle_list_command,
    CommandError, Store, TaskRow};
pub use persist::{Json, LoadError, load_store, store_from_json, store_to_json};
