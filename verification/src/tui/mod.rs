//! The state of the terminal interface: text inputs, panels, forms and key handling.

pub mod input;
pub mod panels;
pub mod layout;
pub mod app;
pub mod forms;
pub mod handlers;
pub mod view;
