//! Disk management logic: fstab editing, the device model and the choices
//! the terminal interface offers for a selection.

pub mod text;
pub mod fstab;
pub mod fstab_laws;
pub mod util;
pub mod model;
pub mod select;
pub mod actions;
pub mod tree;
pub mod disk_laws;
pub mod op;
pub mod privilege;
pub mod form;
pub mod submit;
pub mod session;
pub mod dialogs;
pub mod flow;
pub mod keys;
pub mod config;
pub mod session_laws;
pub mod objects;
pub mod calls;
pub mod smart;
pub mod view;
pub mod details;
pub mod replies;
