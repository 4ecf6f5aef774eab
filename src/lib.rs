//! A small web service core: the route table of its HTTP surface and a
//! registry of compiled templates, checked for loops among their parents
//! and looked up by name.

pub mod server;
pub mod template;
