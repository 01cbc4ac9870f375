//! A line-oriented command shell: free-form instructions are recognised by
//! an ordered rule table and turned into actions with their arguments.
pub mod actions;
pub mod bindings;
pub mod command;
pub mod dispatch;
pub mod laws;
pub mod matcher;
pub mod text;
