//! The core of a manager for several accounts of one editor: the account
//! store with its index and its recovery, quota protection, the choice of
//! the client version, and the decisions around the editor's processes.
//!
//! Nothing here touches a file, a process or the network. Every function
//! works on values and says in its contract what it returns; the program
//! around it reads, writes and waits.

pub mod account;
pub mod ambient;
pub mod device;
pub mod fetch;
pub mod index;
pub mod model;
pub mod process;
pub mod quota;
pub mod storage;
pub mod switch;
pub mod text;
pub mod version;
