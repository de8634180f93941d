pub mod cli;
pub mod entry;
mod external;
pub mod layout;
pub mod listing;
pub mod perms;
pub mod size;
