use bauhaus_wiki::router::{handle_get, handle_post, process_request, save_article, view_article};
use bauhaus_wiki::store::{seeded, WikiStore};

#[test]
fn root_aliases_to_main() {
    let store = seeded(1);
    let response = handle_get("/", &store);
    assert!(response.starts_with("HTTP/1.1 200 OK"));
    assert!(response.contains("<h2>Main Page</h2>"));
    assert_eq!(response, handle_get("/wiki/main", &store));
}

#[test]
fn wiki_route_renders_article() {
    let store = seeded(1);
    let response = handle_get("/wiki/bauhaus", &store);
    assert!(response.starts_with("HTTP/1.1 200 OK"));
    assert!(response.contains("<h2>Bauhaus</h2>"));
    assert!(response.contains("<ul><li>Form follows function</li></ul>"));
    assert!(response.contains("<a href=\"/wiki/architecture\" class=\"wiki-link\">Architecture</a>"));
}

#[test]
fn wiki_route_absent_key_renders_not_found_page() {
    let store = WikiStore::new();
    let response = view_article("ghost", &store);
    assert!(response.starts_with("HTTP/1.1 200 OK"));
    assert!(response.contains("Article Not Found: ghost"));
}

#[test]
fn history_route_absent_key_redirects() {
    let store = WikiStore::new();
    let response = handle_get("/history/ghost", &store);
    assert!(response.starts_with("HTTP/1.1 303 See Other\r\nLocation: /wiki/ghost"));
}

#[test]
fn history_route_lists_versions_newest_first() {
    let mut store = WikiStore::new();
    store.save("page", "first version text", 0);
    store.save("page", "second version text", 86400 * 400);
    let response = handle_get("/history/page", &store);
    assert!(response.contains("Version 2"));
    assert!(response.contains("Version 1"));
    let v2 = response.find("Version 2").unwrap();
    let v1 = response.find("Version 1").unwrap();
    assert!(v2 < v1);
    assert!(response.contains("1971-02-06"));
    assert!(response.contains("first version text"));
}

#[test]
fn history_preview_is_truncated_and_escaped() {
    let mut store = WikiStore::new();
    let long = format!("<{}>", "x".repeat(200));
    store.save("page", &long, 1);
    let response = handle_get("/history/page", &store);
    assert!(!response.contains(&long));
    assert!(response.contains(&format!("&lt;{}", "x".repeat(99))));
}

#[test]
fn edit_route_prefills_escaped_content() {
    let mut store = WikiStore::new();
    store.save("page", "a \"quoted\" <tag>", 1);
    let response = handle_get("/edit/page", &store);
    assert!(response.contains("class=\"edit-textarea\">a &quot;quoted&quot; &lt;tag&gt;</textarea>"));
}

#[test]
fn edit_route_absent_key_gives_empty_form() {
    let store = WikiStore::new();
    let response = handle_get("/edit/ghost", &store);
    assert!(response.starts_with("HTTP/1.1 200 OK"));
    assert!(response.contains("class=\"edit-textarea\"></textarea>"));
}

#[test]
fn search_route_decodes_query_and_lists_hits() {
    let store = seeded(1);
    let response = handle_get("/search?q=art+school", &store);
    assert!(response.contains("Search Results for: art school"));
    assert!(response.contains("<a href=\"/wiki/bauhaus\">Bauhaus</a>"));
    assert!(!response.contains("<a href=\"/wiki/main\">"));
}

#[test]
fn search_route_without_hits_says_so() {
    let store = seeded(1);
    let response = handle_get("/search?q=zzzz", &store);
    assert!(response.contains("<p>No articles found.</p>"));
}

#[test]
fn search_heading_escapes_query() {
    let store = seeded(1);
    let response = handle_get("/search?q=%3Cb%3E", &store);
    assert!(response.contains("Search Results for: &lt;b&gt;</h2>"));
}

#[test]
fn styles_route_serves_css() {
    let store = WikiStore::new();
    let response = handle_get("/styles.css", &store);
    assert!(response.starts_with("HTTP/1.1 200 OK\r\nContent-Type: text/css\r\n\r\n"));
}

#[test]
fn unknown_route_is_not_found() {
    let store = WikiStore::new();
    let response = handle_get("/nothing/here", &store);
    assert_eq!(response, "HTTP/1.1 404 Not Found\r\n\r\nNot Found");
}

#[test]
fn post_save_appends_and_redirects() {
    let mut store = WikiStore::new();
    let request = "POST /save/new_page HTTP/1.1\r\nHost: h\r\n\r\ncontent=Hello+World%21";
    let response = process_request(request, &mut store);
    assert!(response.starts_with("HTTP/1.1 303 See Other\r\nLocation: /wiki/new_page"));
    let article = store.get_latest("new_page").unwrap();
    assert_eq!(article.content, "Hello World!");
    assert_eq!(article.title, "New Page");
}

#[test]
fn post_elsewhere_is_not_found_and_changes_nothing() {
    let mut store = WikiStore::new();
    let response = handle_post("/other", "POST /other HTTP/1.1\r\n\r\nx=1", &mut store);
    assert_eq!(response, "HTTP/1.1 404 Not Found\r\n\r\nNot Found");
    assert!(store.get_latest("other").is_none());
}

#[test]
fn malformed_request_line_is_bad_request() {
    let mut store = WikiStore::new();
    assert_eq!(process_request("", &mut store), "HTTP/1.1 400 Bad Request\r\n\r\nBad Request");
    assert_eq!(process_request("GET\r\n\r\n", &mut store), "HTTP/1.1 400 Bad Request\r\n\r\nBad Request");
}

#[test]
fn unsupported_method_is_not_allowed() {
    let mut store = WikiStore::new();
    let response = process_request("PUT /wiki/main HTTP/1.1\r\n\r\n", &mut store);
    assert_eq!(response, "HTTP/1.1 405 Method Not Allowed\r\n\r\nMethod Not Allowed");
}

#[test]
fn save_article_stamps_a_time() {
    let mut store = WikiStore::new();
    save_article("stamped", "text", &mut store);
    let article = store.get_latest("stamped").unwrap();
    assert_eq!(article.content, "text");
    assert_eq!(article.title, "Stamped");
}

#[test]
fn get_does_not_change_the_store() {
    let mut store = seeded(1);
    let _ = process_request("GET /wiki/main HTTP/1.1\r\n\r\n", &mut store);
    assert_eq!(store.get_history("main").unwrap().len(), 1);
    assert_eq!(store.get_history("bauhaus").unwrap().len(), 1);
}

#[test]
fn search_title_escapes_query() {
    let store = seeded(1);
    let response = handle_get("/search?q=%3Cb%3E", &store);
    assert!(response.contains("<title>Search: &lt;b&gt; - BauhausWiki</title>"));
    assert!(!response.contains("<b>"));
}

#[test]
fn page_interpolations_escape_the_name() {
    let store = WikiStore::new();
    let response = view_article("<x>", &store);
    assert!(response.contains("Article Not Found: &lt;x&gt;"));
    assert!(!response.contains("<x>"));
    let response = handle_get("/edit/%22", &store);
    assert!(response.contains("Editing: %22"));
}

#[test]
fn wrong_method_on_known_family_is_not_allowed() {
    let mut store = seeded(1);
    let response = process_request("POST /wiki/main HTTP/1.1\r\n\r\n", &mut store);
    assert_eq!(response, "HTTP/1.1 405 Method Not Allowed\r\n\r\nMethod Not Allowed");
    assert_eq!(store.get_history("main").unwrap().len(), 1);
    let response = process_request("POST /search HTTP/1.1\r\n\r\n", &mut store);
    assert_eq!(response, "HTTP/1.1 405 Method Not Allowed\r\n\r\nMethod Not Allowed");
    let response = handle_get("/save/main", &store);
    assert_eq!(response, "HTTP/1.1 405 Method Not Allowed\r\n\r\nMethod Not Allowed");
    assert_eq!(store.get_history("main").unwrap().len(), 1);
}
