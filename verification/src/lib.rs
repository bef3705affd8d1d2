pub mod classify;
pub mod listing;
pub mod perms;
pub mod timefmt;
