use echo_page::handler::{handle_error, handle_request};
use echo_page::html::escape;
use echo_page::menu::Menu;
use echo_page::template::{
    global_wrapper, main_navbar, render_page, Resource, Script, Stylesheet,
};

const STYLESHEET_TAG: &str = "<link rel=\"stylesheet\" type=\"text/css\" href=\"https://bootswatch.com/4/darkly/bootstrap.min.css\" integrity=\"sha384-w+8Gqjk9Cuo6XH9HKHG5t5I1VR4YBNdPt/29vwgfZR485eoEJZ8rJRbm3TR32P6k\" crossorigin=\"anonymous\">";

const NAVBAR_OPEN: &str = "<nav class=\"navbar navbar-expand-lg navbar-light bg-primary sticky-top\"><a class=\"navbar-brand\" href=\"#\">Agile for GitHub</a><button class=\"navbar-toggler\" type=\"button\" data-toggle=\"collapse\" data-target=\"#mainNavbarContent\" aria-controls=\"mainNavbarContent\" aria-expanded=\"false\" aria-label=\"Toggle navigation\"><span class=\"navbar-toggler-icon\"></span></button><div class=\"collapse navbar-collapse\" id=\"mainNavbarContent\"><ul class=\"navbar-nav mr-auto\">";

const NAVBAR_CLOSE: &str = "</ul></div></nav>";

fn script_tag(src: &str, integrity: &str) -> String {
    format!(
        "<script\n                type=\"application/javascript\"\n                src=\"{}\"\n                integrity=\"{}\"\n                crossorigin=\"anonymous\">\n            </script>",
        src, integrity
    )
}

fn default_navbar() -> String {
    let mut s = String::from(NAVBAR_OPEN);
    s += "<li class=\"nav-item\"><a class=\"nav-link\" href=\"http://google.com\">Test</a></li>";
    s += "<li class=\"nav-item dropdown\"><a class=\"nav-link dropdown-toggle\" href=\"#\" id=\"testdropdown\" role=\"button\" data-toggle=\"dropdown\" aria-haspopup=\"true\" aria-extended=\"false\">Test dropdown</a><div class=\"dropdown-menu\" aria-labelledby=\"testdropdown\"><a class=\"dropdown-item\" href=\"/basic/path\">First</a><div class=\"dropdown-divider\"></div><a class=\"dropdown-item\" href=\"/basic/path\">Second</a></div></li>";
    s += NAVBAR_CLOSE;
    s
}

fn expected_page(escaped_title: &str, content: &str) -> String {
    let mut s = String::from(
        "<html><head><meta charset=\"utf-8\"><meta name=\"viewport\" content=\"width=device-width, initial-scale=1, shrink-to-fit=no\"><title>",
    );
    s += escaped_title;
    s += "</title>";
    s += STYLESHEET_TAG;
    s += "</head><body>";
    s += &default_navbar();
    s += content;
    s += &script_tag(
        "https://code.jquery.com/jquery-3.3.1.slim.min.js",
        "sha384-q8i/X+965DzO0rT7abK41JStQIAqVgRVzpbzo5smXKp4YfRvH+8abtTE1Pi6jizo",
    );
    s += &script_tag(
        "https://cdnjs.cloudflare.com/ajax/libs/popper.js/1.14.7/umd/popper.min.js",
        "sha384-UO2eT0CpHqdSJQ6hJty5KVphtPhzWj9WO1clHTMGa3JDZwrnQq4sF86dIHNDz0W1",
    );
    s += &script_tag(
        "https://stackpath.bootstrapcdn.com/bootstrap/4.3.1/js/bootstrap.min.js",
        "sha384-JjSmVgyd0p3pXB1rRibZUAYoIIy6OrQ6VrjIEaFf/nJGzIxFDsf4x0xIM+B07jRM",
    );
    s += "</body></html>";
    s
}

#[test]
fn escape_rewrites_the_four_markup_characters() {
    assert_eq!(escape("a&b\"c<d>e"), "a&amp;b&quot;c&lt;d&gt;e");
    assert_eq!(escape("&&"), "&amp;&amp;");
    assert_eq!(escape(""), "");
}

#[test]
fn escape_keeps_plain_and_unicode_text() {
    assert_eq!(escape("hello world!"), "hello world!");
    assert_eq!(escape("héllo ω'"), "héllo ω'");
}

#[test]
fn stylesheet_render_is_the_link_tag() {
    let sheet = Stylesheet::from_resource(Resource::bootstrap_darkly());
    assert_eq!(sheet.render(), STYLESHEET_TAG);
}

#[test]
fn stylesheet_render_escapes_attribute_values() {
    let sheet = Stylesheet(String::from("a&b"), String::from("x\"y"));
    assert_eq!(
        sheet.render(),
        "<link rel=\"stylesheet\" type=\"text/css\" href=\"a&amp;b\" integrity=\"x&quot;y\" crossorigin=\"anonymous\">"
    );
}

#[test]
fn stylesheet_render_once_and_mut_agree() {
    let mut sheet = Stylesheet::from_resource(Resource::bootstrap_darkly());
    let direct = sheet.render();
    assert_eq!(sheet.render_mut(), direct);
    assert_eq!(sheet.render_once(), direct);
}

#[test]
fn script_render_is_the_raw_tag() {
    let script = Script::from_resource(Resource::jquery());
    assert_eq!(
        script.render(),
        script_tag(
            "https://code.jquery.com/jquery-3.3.1.slim.min.js",
            "sha384-q8i/X+965DzO0rT7abK41JStQIAqVgRVzpbzo5smXKp4YfRvH+8abtTE1Pi6jizo",
        )
    );
}

#[test]
fn script_render_does_not_escape() {
    let script = Script(String::from("a&b"), String::from("x\"y"));
    assert_eq!(script.render(), script_tag("a&b", "x\"y"));
}

#[test]
fn script_render_once_and_mut_agree() {
    let mut script = Script::from_resource(Resource::popper());
    let direct = script.render();
    assert_eq!(script.render_mut(), direct);
    assert_eq!(script.render_once(), direct);
}

#[test]
fn navbar_renders_links_dividers_and_dropdown() {
    let mut menu = Menu::new();
    menu.add_link(String::from("A&B"), String::from("/x?a=1&b=2"));
    menu.add_divider();
    let mut dropdown = Menu::new();
    dropdown.add_link(String::from("First"), String::from("/basic/path"));
    dropdown.add_divider();
    let nested = Menu::new();
    dropdown.child_menu(String::from("Nested"), nested);
    menu.child_menu(String::from("Test dropdown"), dropdown);

    let mut expected = String::from(NAVBAR_OPEN);
    expected +=
        "<li class=\"nav-item\"><a class=\"nav-link\" href=\"/x?a=1&amp;b=2\">A&amp;B</a></li>";
    expected += "<li class=\"nav-item dropdown\"><a class=\"nav-link dropdown-toggle\" href=\"#\" id=\"testdropdown\" role=\"button\" data-toggle=\"dropdown\" aria-haspopup=\"true\" aria-extended=\"false\">Test dropdown</a><div class=\"dropdown-menu\" aria-labelledby=\"testdropdown\"><a class=\"dropdown-item\" href=\"/basic/path\">First</a><div class=\"dropdown-divider\"></div></div></li>";
    expected += NAVBAR_CLOSE;
    assert_eq!(main_navbar(menu), expected);
}

#[test]
fn dropdown_id_lowercases_alphanumerics() {
    let mut menu = Menu::new();
    let dropdown = Menu::new();
    menu.child_menu(String::from("Ärger 9 Ω!"), dropdown);
    let rendered = main_navbar(menu);
    assert!(rendered.contains("id=\"ärger9ω\""));
    assert!(rendered.contains("aria-labelledby=\"ärger9ω\""));
}

#[test]
fn global_wrapper_builds_the_full_shell() {
    let page = global_wrapper(String::from("T<5>"), String::from("<p>hi</p>"));
    assert_eq!(page, expected_page("T&lt;5&gt;", "<p>hi</p>"));
}

#[test]
fn render_page_prepends_the_doctype() {
    let document = render_page(String::from("<html></html>"));
    assert_eq!(document, "<!DOCTYPE html>\r\n\r\n<html></html>");
}

#[test]
fn handle_request_echoes_everything() {
    let headers = vec![
        (String::from("host"), String::from("localhost")),
        (String::from("x-test"), String::from("a<b")),
    ];
    let body = vec![72u8, 101u8, 108u8];
    let document = handle_request("http://localhost/?q=1&r=2", &headers, &body);

    let mut content = String::from("<p><b>Url: </b>http://localhost/?q=1&amp;r=2</p><ul>");
    content += "<li><b>host: </b>localhost</li>";
    content += "<li><b>x-test: </b>a&lt;b</li>";
    content += "</ul><h1>Body</h1><pre>[\n    72,\n    101,\n    108,\n]</pre>";
    let expected = format!("<!DOCTYPE html>\r\n\r\n{}", expected_page("Test page", &content));
    assert_eq!(document, expected);
}

#[test]
fn handle_request_empty_body_lists_no_bytes() {
    let headers: Vec<(String, String)> = Vec::new();
    let body: Vec<u8> = Vec::new();
    let document = handle_request("/", &headers, &body);
    assert!(document.contains("<ul></ul>"));
    assert!(document.contains("<pre>[]</pre>"));
}

#[test]
fn handle_request_writes_bytes_up_to_three_digits() {
    let headers: Vec<(String, String)> = Vec::new();
    let body = vec![0u8, 10u8, 255u8];
    let document = handle_request("/", &headers, &body);
    assert!(document.contains("<pre>[\n    0,\n    10,\n    255,\n]</pre>"));
}

#[test]
fn handle_request_keeps_plain_text_verbatim() {
    let headers = vec![(String::from("accept"), String::from("text/plain"))];
    let body: Vec<u8> = Vec::new();
    let document = handle_request("http://example.org/echo", &headers, &body);
    assert!(document.contains("http://example.org/echo"));
    assert!(document.contains("accept"));
    assert!(document.contains("text/plain"));
}

#[test]
fn handle_error_without_a_name() {
    assert_eq!(handle_error(None), "Error: None ");
}

#[test]
fn handle_error_with_a_name() {
    assert_eq!(handle_error(Some("io")), "Error: Some(\"io\") ");
}

#[test]
fn handle_error_quotes_the_name_like_debug() {
    assert_eq!(handle_error(Some("a\"b")), "Error: Some(\"a\\\"b\") ");
}
