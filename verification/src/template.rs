//! The page shell: external resources, the stylesheet and script tags
//! they become, the navbar, and the wrapper that turns page content into
//! a complete HTML document.

use vstd::prelude::*;
use crate::html::{append_escaped, escaped};
use crate::menu::{Menu, MenuItem};

verus! {

/// An external asset: where it lives and the integrity hash a browser
/// checks it against.
#[derive(Clone, Copy)]
pub struct Resource {
    pub uri: &'static str,
    pub integrity: &'static str,
}

impl Resource {
    fn new(uri: &'static str, integrity: &'static str) -> (r: Resource)
        ensures
            r.uri@ == uri@,
            r.integrity@ == integrity@,
    {
        Resource { uri, integrity }
    }

    /// The stylesheet of the Darkly bootstrap theme from bootswatch.com.
    pub fn bootstrap_darkly() -> (r: Resource)
        ensures
            r.uri@ == "https://bootswatch.com/4/darkly/bootstrap.min.css"@,
            r.integrity@ == "sha384-w+8Gqjk9Cuo6XH9HKHG5t5I1VR4YBNdPt/29vwgfZR485eoEJZ8rJRbm3TR32P6k"@,
    {
        Resource::new(
            "https://bootswatch.com/4/darkly/bootstrap.min.css",
            "sha384-w+8Gqjk9Cuo6XH9HKHG5t5I1VR4YBNdPt/29vwgfZR485eoEJZ8rJRbm3TR32P6k",
        )
    }

    /// JQuery, minified.
    pub fn jquery() -> (r: Resource)
        ensures
            r.uri@ == "https://code.jquery.com/jquery-3.3.1.slim.min.js"@,
            r.integrity@ == "sha384-q8i/X+965DzO0rT7abK41JStQIAqVgRVzpbzo5smXKp4YfRvH+8abtTE1Pi6jizo"@,
    {
        Resource::new(
            "https://code.jquery.com/jquery-3.3.1.slim.min.js",
            "sha384-q8i/X+965DzO0rT7abK41JStQIAqVgRVzpbzo5smXKp4YfRvH+8abtTE1Pi6jizo",
        )
    }

    /// Popper, minified.
    pub fn popper() -> (r: Resource)
        ensures
            r.uri@ == "https://cdnjs.cloudflare.com/ajax/libs/popper.js/1.14.7/umd/popper.min.js"@,
            r.integrity@ == "sha384-UO2eT0CpHqdSJQ6hJty5KVphtPhzWj9WO1clHTMGa3JDZwrnQq4sF86dIHNDz0W1"@,
    {
        Resource::new(
            "https://cdnjs.cloudflare.com/ajax/libs/popper.js/1.14.7/umd/popper.min.js",
            "sha384-UO2eT0CpHqdSJQ6hJty5KVphtPhzWj9WO1clHTMGa3JDZwrnQq4sF86dIHNDz0W1",
        )
    }

    /// The bootstrap scripts, minified.
    pub fn bootstrap_js() -> (r: Resource)
        ensures
            r.uri@ == "https://stackpath.bootstrapcdn.com/bootstrap/4.3.1/js/bootstrap.min.js"@,
            r.integrity@ == "sha384-JjSmVgyd0p3pXB1rRibZUAYoIIy6OrQ6VrjIEaFf/nJGzIxFDsf4x0xIM+B07jRM"@,
    {
        Resource::new(
            "https://stackpath.bootstrapcdn.com/bootstrap/4.3.1/js/bootstrap.min.js",
            "sha384-JjSmVgyd0p3pXB1rRibZUAYoIIy6OrQ6VrjIEaFf/nJGzIxFDsf4x0xIM+B07jRM",
        )
    }
}

/// The link tag a stylesheet resource renders to: attribute values are
/// escaped text.
pub open spec fn stylesheet_html(href: Seq<char>, integrity: Seq<char>) -> Seq<char> {
    "<link rel=\"stylesheet\" type=\"text/css\" href=\""@ + escaped(href) + "\" integrity=\""@
        + escaped(integrity) + "\" crossorigin=\"anonymous\">"@
}

/// A stylesheet to link into the page head: its location and its
/// integrity hash.
pub struct Stylesheet(pub String, pub String);

impl Stylesheet {
    /// The stylesheet tag for an external resource.
    pub fn from_resource(resource: Resource) -> (s: Stylesheet)
        ensures
            s.0@ == resource.uri@,
            s.1@ == resource.integrity@,
    {
        Stylesheet(String::from_str(resource.uri), String::from_str(resource.integrity))
    }

    /// The link tag for this stylesheet.
    pub fn render(&self) -> (r: String)
        ensures
            r@ == stylesheet_html(self.0@, self.1@),
    {
        let mut out = String::from_str("<link rel=\"stylesheet\" type=\"text/css\" href=\"");
        append_escaped(&mut out, self.0.as_str());
        out.append("\" integrity=\"");
        append_escaped(&mut out, self.1.as_str());
        out.append("\" crossorigin=\"anonymous\">");
        proof {
            assert(out@ =~= stylesheet_html(self.0@, self.1@));
        }
        out
    }

    /// The link tag, from a stylesheet given up.
    pub fn render_once(self) -> (r: String)
        ensures
            r@ == stylesheet_html(self.0@, self.1@),
    {
        self.render()
    }

    /// The link tag, through a mutable handle; the stylesheet is left as
    /// it was.
    pub fn render_mut(&mut self) -> (r: String)
        ensures
            r@ == stylesheet_html(old(self).0@, old(self).1@),
            *final(self) == *old(self),
    {
        self.render()
    }
}

/// The script tag a script resource renders to: raw text, laid out over
/// several lines.
pub open spec fn script_html(src: Seq<char>, integrity: Seq<char>) -> Seq<char> {
    "<script\n                type=\"application/javascript\"\n                src=\""@ + src
        + "\"\n                integrity=\""@ + integrity
        + "\"\n                crossorigin=\"anonymous\">\n            </script>"@
}

/// A script to load at the end of the page body: its location and its
/// integrity hash.
pub struct Script(pub String, pub String);

impl Script {
    /// The script tag for an external resource.
    pub fn from_resource(resource: Resource) -> (s: Script)
        ensures
            s.0@ == resource.uri@,
            s.1@ == resource.integrity@,
    {
        Script(String::from_str(resource.uri), String::from_str(resource.integrity))
    }

    /// The script tag for this script.
    pub fn render(&self) -> (r: String)
        ensures
            r@ == script_html(self.0@, self.1@),
    {
        let mut out = String::from_str(
            "<script\n                type=\"application/javascript\"\n                src=\"",
        );
        out.append(self.0.as_str());
        out.append("\"\n                integrity=\"");
        out.append(self.1.as_str());
        out.append("\"\n                crossorigin=\"anonymous\">\n            </script>");
        proof {
            assert(out@ =~= script_html(self.0@, self.1@));
        }
        out
    }

    /// The script tag, from a script given up.
    pub fn render_once(self) -> (r: String)
        ensures
            r@ == script_html(self.0@, self.1@),
    {
        self.render()
    }

    /// The script tag, through a mutable handle; the script is left as
    /// it was.
    pub fn render_mut(&mut self) -> (r: String)
        ensures
            r@ == script_html(old(self).0@, old(self).1@),
            *final(self) == *old(self),
    {
        self.render()
    }
}

/// Whether a character counts as alphanumeric; the name stands for what
/// char::is_alphanumeric answers.
pub uninterp spec fn alnum(c: char) -> bool;

/// The lowercase characters a character maps to; the name stands for
/// what char::to_lowercase yields.
pub uninterp spec fn lower_chars(c: char) -> Seq<char>;

/// Relies on char::is_alphanumeric: the answer depends on the character
/// alone.
#[verifier::external_body]
fn char_is_alphanumeric(c: char) -> (r: bool)
    ensures
        r == alnum(c),
{
    c.is_alphanumeric()
}

/// Relies on char::to_lowercase: the characters it yields depend on the
/// character alone.
#[verifier::external_body]
fn char_to_lowercase(c: char) -> (r: Vec<char>)
    ensures
        r@ == lower_chars(c),
{
    c.to_lowercase().collect()
}

/// The element id a menu name turns into: its alphanumeric characters,
/// lowercased.
pub open spec fn menu_id_of(name: Seq<char>) -> Seq<char>
    decreases name.len(),
{
    if name.len() == 0 {
        Seq::empty()
    } else {
        menu_id_of(name.drop_last()) + (if alnum(name.last()) {
            lower_chars(name.last())
        } else {
            Seq::empty()
        })
    }
}

/// The element id for a menu name.
fn menu_id(name: &str) -> (r: String)
    ensures
        r@ == menu_id_of(name@),
{
    let mut out = String::new();
    let n = name.unicode_len();
    let mut i: usize = 0;
    while i < n
        invariant
            i <= n,
            n == name@.len(),
            out@ == menu_id_of(name@.take(i as int)),
        decreases n - i,
    {
        let c = name.get_char(i);
        if char_is_alphanumeric(c) {
            let lower = char_to_lowercase(c);
            let ghost mid = out@;
            let m = lower.len();
            let mut j: usize = 0;
            while j < m
                invariant
                    j <= m,
                    m == lower@.len(),
                    lower@ == lower_chars(c),
                    out@ == mid + lower@.subrange(0, j as int),
                decreases m - j,
            {
                crate::html::push_char(&mut out, lower[j]);
                proof {
                    assert(lower@.subrange(0, j + 1) =~= lower@.subrange(0, j as int) + seq![
                        lower@[j as int],
                    ]);
                }
                j = j + 1;
            }
            proof {
                assert(lower@.subrange(0, m as int) =~= lower_chars(c));
            }
        }
        proof {
            assert(name@.take(i + 1).drop_last() =~= name@.take(i as int));
            assert(name@.take(i + 1).last() == c);
        }
        i = i + 1;
    }
    proof {
        assert(name@.take(n as int) =~= name@);
    }
    out
}

/// The anchor a link turns into inside a dropdown.
pub open spec fn dropdown_link_html(name: Seq<char>, location: Seq<char>) -> Seq<char> {
    "<a class=\"dropdown-item\" href=\""@ + escaped(location) + "\">"@ + escaped(name) + "</a>"@
}

/// What one menu item turns into inside a dropdown: a link becomes an
/// anchor, a divider a divider line, and a nested submenu nothing.
pub open spec fn dropdown_item_html(item: MenuItem) -> Seq<char> {
    match item {
        MenuItem::Menu(_, _) => Seq::empty(),
        MenuItem::Link(name, location) => dropdown_link_html(name@, location@),
        MenuItem::Divider => "<div class=\"dropdown-divider\"></div>"@,
    }
}

/// The items of a dropdown, rendered in order.
pub open spec fn dropdown_items_html(items: Seq<MenuItem>) -> Seq<char>
    decreases items.len(),
{
    if items.len() == 0 {
        Seq::empty()
    } else {
        dropdown_items_html(items.drop_last()) + dropdown_item_html(items.last())
    }
}

/// The dropdown a named submenu turns into, around the rendered text of
/// its items.
pub open spec fn nav_dropdown_html(name: Seq<char>, inner: Seq<char>) -> Seq<char> {
    "<li class=\"nav-item dropdown\"><a class=\"nav-link dropdown-toggle\" href=\"#\" id=\""@
        + escaped(menu_id_of(name))
        + "\" role=\"button\" data-toggle=\"dropdown\" aria-haspopup=\"true\" aria-extended=\"false\">"@
        + escaped(name) + "</a><div class=\"dropdown-menu\" aria-labelledby=\""@ + escaped(
        menu_id_of(name),
    ) + "\">"@ + inner + "</div></li>"@
}

/// The list entry a link turns into at the top level of the navbar.
pub open spec fn nav_link_html(name: Seq<char>, location: Seq<char>) -> Seq<char> {
    "<li class=\"nav-item\"><a class=\"nav-link\" href=\""@ + escaped(location) + "\">"@ + escaped(
        name,
    ) + "</a></li>"@
}

/// What one menu item turns into at the top level of the navbar: a
/// submenu becomes a dropdown, a link a list entry, and a divider
/// nothing.
pub open spec fn menu_item_html(item: MenuItem) -> Seq<char> {
    match item {
        MenuItem::Menu(name, menu) => nav_dropdown_html(name@, dropdown_items_html(menu.0@)),
        MenuItem::Link(name, location) => nav_link_html(name@, location@),
        MenuItem::Divider => Seq::empty(),
    }
}

/// The items of a menu, rendered in order at the top level.
pub open spec fn menu_items_html(items: Seq<MenuItem>) -> Seq<char>
    decreases items.len(),
{
    if items.len() == 0 {
        Seq::empty()
    } else {
        menu_items_html(items.drop_last()) + menu_item_html(items.last())
    }
}

/// The item list of the navbar, around the rendered text of its items.
pub open spec fn nav_menu_html(inner: Seq<char>) -> Seq<char> {
    "<ul class=\"navbar-nav mr-auto\">"@ + inner + "</ul>"@
}

/// The whole navbar, around the rendered text of the menu's items.
pub open spec fn navbar_html(inner: Seq<char>) -> Seq<char> {
    "<nav class=\"navbar navbar-expand-lg navbar-light bg-primary sticky-top\"><a class=\"navbar-brand\" href=\"#\">Agile for GitHub</a><button class=\"navbar-toggler\" type=\"button\" data-toggle=\"collapse\" data-target=\"#mainNavbarContent\" aria-controls=\"mainNavbarContent\" aria-expanded=\"false\" aria-label=\"Toggle navigation\"><span class=\"navbar-toggler-icon\"></span></button><div class=\"collapse navbar-collapse\" id=\"mainNavbarContent\">"@
        + nav_menu_html(inner) + "</div></nav>"@
}

/// One item of a dropdown, rendered.
fn nav_dropdown_item(item: &MenuItem) -> (r: String)
    ensures
        r@ == dropdown_item_html(*item),
{
    match item {
        MenuItem::Menu(_, _) => String::new(),
        MenuItem::Link(name, location) => {
            let mut out = String::from_str("<a class=\"dropdown-item\" href=\"");
            append_escaped(&mut out, location.as_str());
            out.append("\">");
            append_escaped(&mut out, name.as_str());
            out.append("</a>");
            proof {
                assert(out@ =~= dropdown_item_html(*item));
            }
            out
        },
        MenuItem::Divider => String::from_str("<div class=\"dropdown-divider\"></div>"),
    }
}

/// A named submenu, rendered as a dropdown.
fn nav_dropdown(name: &String, menu: &Menu) -> (r: String)
    ensures
        r@ == nav_dropdown_html(name@, dropdown_items_html(menu.0@)),
{
    let id = menu_id(name.as_str());
    let mut out = String::from_str(
        "<li class=\"nav-item dropdown\"><a class=\"nav-link dropdown-toggle\" href=\"#\" id=\"",
    );
    append_escaped(&mut out, id.as_str());
    out.append(
        "\" role=\"button\" data-toggle=\"dropdown\" aria-haspopup=\"true\" aria-extended=\"false\">",
    );
    append_escaped(&mut out, name.as_str());
    out.append("</a><div class=\"dropdown-menu\" aria-labelledby=\"");
    append_escaped(&mut out, id.as_str());
    out.append("\">");
    let ghost head = out@;
    let n = menu.0.len();
    let mut i: usize = 0;
    while i < n
        invariant
            i <= n,
            n == menu.0@.len(),
            out@ == head + dropdown_items_html(menu.0@.take(i as int)),
        decreases n - i,
    {
        let piece = nav_dropdown_item(&menu.0[i]);
        out.append(piece.as_str());
        proof {
            assert(menu.0@.take(i + 1).drop_last() =~= menu.0@.take(i as int));
            assert(menu.0@.take(i + 1).last() == menu.0@[i as int]);
        }
        i = i + 1;
    }
    out.append("</div></li>");
    proof {
        assert(menu.0@.take(n as int) =~= menu.0@);
        assert(out@ =~= nav_dropdown_html(name@, dropdown_items_html(menu.0@)));
    }
    out
}

/// One item of the menu, rendered at the top level of the navbar.
fn nav_menu_item(item: &MenuItem) -> (r: String)
    ensures
        r@ == menu_item_html(*item),
{
    match item {
        MenuItem::Menu(name, menu) => nav_dropdown(name, menu),
        MenuItem::Link(name, location) => {
            let mut out = String::from_str("<li class=\"nav-item\"><a class=\"nav-link\" href=\"");
            append_escaped(&mut out, location.as_str());
            out.append("\">");
            append_escaped(&mut out, name.as_str());
            out.append("</a></li>");
            proof {
                assert(out@ =~= menu_item_html(*item));
            }
            out
        },
        MenuItem::Divider => String::new(),
    }
}

/// The item list of the navbar.
fn nav_menu(menu: &Menu) -> (r: String)
    ensures
        r@ == nav_menu_html(menu_items_html(menu.0@)),
{
    let mut out = String::from_str("<ul class=\"navbar-nav mr-auto\">");
    let ghost head = out@;
    let n = menu.0.len();
    let mut i: usize = 0;
    while i < n
        invariant
            i <= n,
            n == menu.0@.len(),
            out@ == head + menu_items_html(menu.0@.take(i as int)),
        decreases n - i,
    {
        let piece = nav_menu_item(&menu.0[i]);
        out.append(piece.as_str());
        proof {
            assert(menu.0@.take(i + 1).drop_last() =~= menu.0@.take(i as int));
            assert(menu.0@.take(i + 1).last() == menu.0@[i as int]);
        }
        i = i + 1;
    }
    out.append("</ul>");
    proof {
        assert(menu.0@.take(n as int) =~= menu.0@);
        assert(out@ =~= nav_menu_html(menu_items_html(menu.0@)));
    }
    out
}

/// The navbar at the top of every page, holding the given menu.
pub fn main_navbar(menu: Menu) -> (r: String)
    ensures
        r@ == navbar_html(menu_items_html(menu.0@)),
{
    let mut out = String::from_str(
        "<nav class=\"navbar navbar-expand-lg navbar-light bg-primary sticky-top\"><a class=\"navbar-brand\" href=\"#\">Agile for GitHub</a><button class=\"navbar-toggler\" type=\"button\" data-toggle=\"collapse\" data-target=\"#mainNavbarContent\" aria-controls=\"mainNavbarContent\" aria-expanded=\"false\" aria-label=\"Toggle navigation\"><span class=\"navbar-toggler-icon\"></span></button><div class=\"collapse navbar-collapse\" id=\"mainNavbarContent\">",
    );
    let list = nav_menu(&menu);
    out.append(list.as_str());
    out.append("</div></nav>");
    proof {
        assert(out@ =~= navbar_html(menu_items_html(menu.0@)));
    }
    out
}

/// The menu every page carries: one outside link, and a dropdown with
/// two links around a divider.
pub open spec fn default_menu_html() -> Seq<char> {
    nav_link_html("Test"@, "http://google.com"@) + nav_dropdown_html(
        "Test dropdown"@,
        dropdown_link_html("First"@, "/basic/path"@) + "<div class=\"dropdown-divider\"></div>"@
            + dropdown_link_html("Second"@, "/basic/path"@),
    )
}

/// Everything that stands before the content on a page: the head with
/// the escaped title and the stylesheet, and the navbar that opens the
/// body.
pub open spec fn page_head(title: Seq<char>) -> Seq<char> {
    "<html><head><meta charset=\"utf-8\"><meta name=\"viewport\" content=\"width=device-width, initial-scale=1, shrink-to-fit=no\"><title>"@
        + escaped(title) + "</title>"@ + stylesheet_html(
        "https://bootswatch.com/4/darkly/bootstrap.min.css"@,
        "sha384-w+8Gqjk9Cuo6XH9HKHG5t5I1VR4YBNdPt/29vwgfZR485eoEJZ8rJRbm3TR32P6k"@,
    ) + "</head><body>"@ + navbar_html(default_menu_html())
}

/// Everything that stands after the content on a page: the three script
/// tags and the closing of the body.
pub open spec fn page_tail() -> Seq<char> {
    script_html(
        "https://code.jquery.com/jquery-3.3.1.slim.min.js"@,
        "sha384-q8i/X+965DzO0rT7abK41JStQIAqVgRVzpbzo5smXKp4YfRvH+8abtTE1Pi6jizo"@,
    ) + script_html(
        "https://cdnjs.cloudflare.com/ajax/libs/popper.js/1.14.7/umd/popper.min.js"@,
        "sha384-UO2eT0CpHqdSJQ6hJty5KVphtPhzWj9WO1clHTMGa3JDZwrnQq4sF86dIHNDz0W1"@,
    ) + script_html(
        "https://stackpath.bootstrapcdn.com/bootstrap/4.3.1/js/bootstrap.min.js"@,
        "sha384-JjSmVgyd0p3pXB1rRibZUAYoIIy6OrQ6VrjIEaFf/nJGzIxFDsf4x0xIM+B07jRM"@,
    ) + "</body></html>"@
}

/// The whole page around the given content: head with the title and the
/// stylesheet, body with the navbar, the content, and the scripts.
pub open spec fn page_html(title: Seq<char>, content: Seq<char>) -> Seq<char> {
    page_head(title) + content + page_tail()
}

/// Wrap page content in the static shell: head, stylesheet, navbar with
/// the fixed menu, and the scripts. The title is escaped; the content is
/// taken as rendered markup and stands as it is.
pub fn global_wrapper(title: String, content: String) -> (r: String)
    ensures
        r@ == page_html(title@, content@),
{
    let mut menu = Menu::new();
    menu.add_link(String::from_str("Test"), String::from_str("http://google.com"));
    let mut dropdown = Menu::new();
    dropdown.add_link(String::from_str("First"), String::from_str("/basic/path"));
    dropdown.add_divider();
    dropdown.add_link(String::from_str("Second"), String::from_str("/basic/path"));
    menu.child_menu(String::from_str("Test dropdown"), dropdown);

    let mut out = String::from_str(
        "<html><head><meta charset=\"utf-8\"><meta name=\"viewport\" content=\"width=device-width, initial-scale=1, shrink-to-fit=no\"><title>",
    );
    append_escaped(&mut out, title.as_str());
    out.append("</title>");
    let sheet = Stylesheet::from_resource(Resource::bootstrap_darkly()).render();
    out.append(sheet.as_str());
    out.append("</head><body>");
    proof {
        let items = menu.0@;
        let inner = items[1]->Menu_1.0@;
        assert(dropdown_items_html(Seq::<MenuItem>::empty()) == Seq::<char>::empty());
        assert(menu_items_html(Seq::<MenuItem>::empty()) == Seq::<char>::empty());
        assert(seq![inner[0]].drop_last() =~= Seq::<MenuItem>::empty());
        assert(dropdown_items_html(seq![inner[0]]) =~= dropdown_item_html(inner[0]));
        assert(seq![inner[0], inner[1]].drop_last() =~= seq![inner[0]]);
        assert(dropdown_items_html(seq![inner[0], inner[1]]) == dropdown_items_html(
            seq![inner[0]],
        ) + dropdown_item_html(inner[1]));
        assert(inner.drop_last() =~= seq![inner[0], inner[1]]);
        assert(dropdown_items_html(inner) == dropdown_items_html(seq![inner[0], inner[1]])
            + dropdown_item_html(inner[2]));
        assert(dropdown_items_html(inner) =~= dropdown_link_html("First"@, "/basic/path"@)
            + "<div class=\"dropdown-divider\"></div>"@ + dropdown_link_html(
            "Second"@,
            "/basic/path"@,
        ));
        assert(seq![items[0]].drop_last() =~= Seq::<MenuItem>::empty());
        assert(menu_items_html(seq![items[0]]) =~= menu_item_html(items[0]));
        assert(items.drop_last() =~= seq![items[0]]);
        assert(menu_items_html(items) == menu_items_html(seq![items[0]]) + menu_item_html(
            items[1],
        ));
        assert(menu_items_html(menu.0@) =~= default_menu_html());
    }
    let bar = main_navbar(menu);
    out.append(bar.as_str());
    out.append(content.as_str());
    let jquery = Script::from_resource(Resource::jquery()).render();
    out.append(jquery.as_str());
    let popper = Script::from_resource(Resource::popper()).render();
    out.append(popper.as_str());
    let bootstrap = Script::from_resource(Resource::bootstrap_js()).render();
    out.append(bootstrap.as_str());
    out.append("</body></html>");
    proof {
        assert(out@ =~= page_html(title@, content@));
    }
    out
}

/// The shell never loses what it wraps: the content stands somewhere in
/// the page, as it was given.
pub proof fn lemma_page_contains_content(title: Seq<char>, content: Seq<char>)
    ensures
        crate::html::contains_sub(page_html(title, content), content),
{
    crate::html::lemma_contains_self(content);
    crate::html::lemma_contains_right(page_head(title), content, content);
    crate::html::lemma_contains_left(page_head(title) + content, page_tail(), content);
}

/// A finished document: the doctype line, then the page.
pub open spec fn document_html(content: Seq<char>) -> Seq<char> {
    "<!DOCTYPE html>\r\n\r\n"@ + content
}

/// Render a page as a final web document.
pub fn render_page(content: String) -> (r: String)
    ensures
        r@ == document_html(content@),
{
    let mut out = String::from_str("<!DOCTYPE html>\r\n\r\n");
    out.append(content.as_str());
    out
}

} // verus!
