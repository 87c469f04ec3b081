//! The navigation menu: a list of links, dividers and named submenus,
//! built up item by item and rendered by the page shell.

use vstd::prelude::*;

verus! {

/// One entry of a navigation menu: a named submenu, a link with the
/// text it shows and the location it points to, or a divider line.
pub enum MenuItem {
    Menu(String, Menu),
    Link(String, String),
    Divider,
}

/// A navigation menu: its items in display order.
pub struct Menu(pub Vec<MenuItem>);

impl Menu {
    /// The empty menu.
    pub fn new() -> (m: Menu)
        ensures
            m.0@ =~= Seq::<MenuItem>::empty(),
    {
        Menu(Vec::new())
    }

    /// Append a link showing `name` that points to `location`.
    pub fn add_link(&mut self, name: String, location: String)
        ensures
            final(self).0@ == old(self).0@.push(MenuItem::Link(name, location)),
    {
        self.0.push(MenuItem::Link(name, location));
    }

    /// Append a divider line.
    pub fn add_divider(&mut self)
        ensures
            final(self).0@ == old(self).0@.push(MenuItem::Divider),
    {
        self.0.push(MenuItem::Divider);
    }

    /// Append `child` as a submenu named `name`.
    pub fn child_menu(&mut self, name: String, child: Menu)
        ensures
            final(self).0@ == old(self).0@.push(MenuItem::Menu(name, child)),
    {
        self.0.push(MenuItem::Menu(name, child));
    }
}

} // verus!
