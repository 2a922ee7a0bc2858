pub mod draw;
pub mod layout;
pub mod widget;
pub mod workspaces;
pub mod updated_last;
