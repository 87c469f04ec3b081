//! A small HTML page builder for a request echo page: an escaping text
//! renderer, a declarative navigation menu, a fixed page shell with a
//! navbar, stylesheet and scripts, and the handler that turns a request's
//! URL, headers and body into the finished document.

pub mod handler;
pub mod html;
pub mod menu;
pub mod template;
