use tellbot::title::{
    decorate, fetched_title, find_title, find_url, message_text, Fetched, TITLE_PATTERN,
    URL_PATTERN,
};

fn args(items: &[&str]) -> Vec<String> {
    items.iter().map(|s| s.to_string()).collect()
}

#[test]
fn message_text_is_rebuilt_from_arguments() {
    assert_eq!(
        message_text(&args(&["#chan", ":check", "http://example.com/x.html", "please"])),
        "check http://example.com/x.html please"
    );
    assert_eq!(message_text(&args(&["#chan", ":hi"])), "hi");
    assert_eq!(message_text(&args(&["#chan", ":a", "", "b"])), "a  b");
}

#[test]
fn message_text_drops_one_character() {
    assert_eq!(message_text(&args(&["#chan", "hello"])), "ello");
    assert_eq!(message_text(&args(&["#chan", "::"])), ":");
    assert_eq!(message_text(&args(&["#chan", "\u{e9}t\u{e9}"])), "t\u{e9}");
}

#[test]
fn message_text_of_too_few_arguments_is_empty() {
    assert_eq!(message_text(&[]), "");
    assert_eq!(message_text(&args(&["#chan"])), "");
    assert_eq!(message_text(&args(&["#chan", ""])), "");
    assert_eq!(message_text(&args(&["#chan", ":"])), "");
}

#[test]
fn url_is_found_in_a_message() {
    assert_eq!(
        find_url("check http://example.com/x.html please"),
        Some("http://example.com/x.html".to_string())
    );
    assert_eq!(
        find_url("http://example.com/x.html please"),
        Some("http://example.com/x.html".to_string())
    );
    assert_eq!(find_url("see https://a.b"), Some("https://a.b".to_string()));
}

#[test]
fn url_ends_at_the_next_space() {
    assert_eq!(find_url("a\thttp://a.b/c\td e"), Some("http://a.b/c\td".to_string()));
    assert_eq!(find_url("\n\n https://a.b."), Some("https://a.b.".to_string()));
    assert_eq!(find_url("see https://a. b"), None);
    assert_eq!(find_url("https://a.b.c"), Some("https://a.b.c".to_string()));
}

#[test]
fn first_url_is_the_one_found() {
    assert_eq!(
        find_url("a http://one.example/ b http://two.example/"),
        Some("http://one.example/".to_string())
    );
}

#[test]
fn text_without_url_has_none() {
    assert_eq!(find_url("hello world"), None);
    assert_eq!(find_url(""), None);
    assert_eq!(find_url("http://nodot"), None);
    assert_eq!(find_url("ftp://example.com/"), None);
    assert_eq!(find_url("xhttp://example.com/"), None);
    assert_eq!(find_url("http://.x"), None);
}

#[test]
fn title_is_found_in_a_body() {
    assert_eq!(
        find_title("<html><head><title>Example</title></head></html>"),
        Some("Example".to_string())
    );
    assert_eq!(find_title("<title></title>"), Some("".to_string()));
}

#[test]
fn title_is_the_shortest_between_the_tags() {
    assert_eq!(
        find_title("<title>One</title> and <title>Two</title>"),
        Some("One".to_string())
    );
}

#[test]
fn body_without_title_has_none() {
    assert_eq!(find_title("<html></html>"), None);
    assert_eq!(find_title(""), None);
    assert_eq!(find_title("<title>open"), None);
    assert_eq!(find_title("<title>two\nlines</title>"), None);
    assert_eq!(find_title("<TITLE>Example</TITLE>"), None);
}

#[test]
fn title_is_decorated() {
    assert_eq!(decorate("Example"), "\u{3}7\u{ab}\u{3}6 Example \u{3}7\u{bb}\u{f}");
    assert_eq!(decorate(""), "\u{3}7\u{ab}\u{3}6  \u{3}7\u{bb}\u{f}");
}

#[test]
fn patterns_are_as_documented() {
    assert_eq!(URL_PATTERN, "(^|\\s+)(https?://[^ ]+\\.[^ ]+)");
    assert_eq!(TITLE_PATTERN, "<title>(.*?)</title>");
}

fn page(status: u16, body: &str) -> Fetched {
    Fetched::Page { status, body: body.to_string() }
}

#[test]
fn only_success_statuses_bring_a_page() {
    assert!(page(200, "").succeeded());
    assert!(page(204, "").succeeded());
    assert!(page(299, "").succeeded());
    assert!(!page(199, "").succeeded());
    assert!(!page(300, "").succeeded());
    assert!(!page(404, "").succeeded());
    assert!(!page(500, "").succeeded());
    assert!(!page(0, "").succeeded());
    assert!(!Fetched::Failed.succeeded());
}

#[test]
fn title_is_read_from_a_page_that_came() {
    assert_eq!(
        fetched_title(&page(200, "<title>Example</title>")),
        Some("Example".to_string())
    );
    assert_eq!(fetched_title(&page(200, "<p>none</p>")), None);
}

#[test]
fn failed_fetch_has_no_title() {
    assert_eq!(fetched_title(&Fetched::Failed), None);
    assert_eq!(fetched_title(&page(404, "<title>Not Found</title>")), None);
    assert_eq!(fetched_title(&page(301, "<title>Moved</title>")), None);
}
