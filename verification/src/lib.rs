//! Verified core of the galaxy-ops delivery tool: the path layout of a system,
//! system kinds and definitions, the layered value dictionaries used for
//! localization, value-file templates and the decisions behind the `gops sys`
//! commands.

pub mod addr;
pub mod cmd;
pub mod conf;
pub mod define;
pub mod dict;
pub mod env_file;
pub mod gflow;
pub mod operator;
pub mod ops_prj;
pub mod path;
pub mod setting;
pub mod sys_vars;
pub mod text;
pub mod value_file;
