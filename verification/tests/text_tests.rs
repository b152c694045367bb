use bauhaus_wiki::codec::{escape_html, extract_body, extract_form_param, extract_query_param, urldecode};
use bauhaus_wiki::http::{format_timestamp, http_response, html_response, redirect_response};
use bauhaus_wiki::render::{markdown_to_html, process_links};

#[test]
fn escape_round_trip_literal() {
    assert_eq!(escape_html("A&B<C>\"D'E"), "A&amp;B&lt;C&gt;&quot;D&#39;E");
}

#[test]
fn escape_leaves_plain_text_alone() {
    assert_eq!(escape_html(""), "");
    assert_eq!(escape_html("plain text 123"), "plain text 123");
}

#[test]
fn escaped_heading_shows_literal_entities() {
    let html = markdown_to_html("# A&B<C>\"D'E");
    assert_eq!(html, "<h2>A&amp;B&lt;C&gt;&quot;D&#39;E</h2>\n");
    assert!(!html.contains("<C>"));
}

#[test]
fn urldecode_plus_and_percent() {
    // "%2" is truncated: the missing digit defaults to 0, so it decodes to 0x20.
    assert_eq!(urldecode("a+b%20c%2"), "a b c ");
}

#[test]
fn urldecode_malformed_hex_drops_silently() {
    assert_eq!(urldecode("x%zyq"), "xq");
    assert_eq!(urldecode("%"), "\u{0}");
    assert_eq!(urldecode("100%25"), "100%");
    assert_eq!(urldecode("%41%42"), "AB");
}

#[test]
fn urldecode_passthrough() {
    assert_eq!(urldecode("hello-world_1.2"), "hello-world_1.2");
}

#[test]
fn markdown_four_rules_in_order() {
    let html = markdown_to_html("# Title\n\nplain line\n- item\n[[Bauhaus]]");
    assert_eq!(
        html,
        "<h2>Title</h2>\n<p>plain line</p>\n<ul><li>item</li></ul>\n<p><a href=\"/wiki/bauhaus\" class=\"wiki-link\">Bauhaus</a></p>\n"
    );
}

#[test]
fn markdown_paragraph_buffering() {
    assert_eq!(markdown_to_html("one\ntwo\n\nthree"), "<p>one two</p>\n<p>three</p>\n");
    assert_eq!(markdown_to_html(""), "");
    assert_eq!(markdown_to_html("\n\n"), "");
}

#[test]
fn markdown_adjacent_list_lines_stay_separate() {
    assert_eq!(
        markdown_to_html("- a\n- b"),
        "<ul><li>a</li></ul>\n<ul><li>b</li></ul>\n"
    );
}

#[test]
fn links_resolve_to_lowercased_underscored_keys() {
    assert_eq!(
        process_links("see [[Hello World]] now"),
        "see <a href=\"/wiki/hello_world\" class=\"wiki-link\">Hello World</a> now"
    );
}

#[test]
fn link_text_is_escaped() {
    assert_eq!(
        process_links("[[A&B]]"),
        "<a href=\"/wiki/a&b\" class=\"wiki-link\">A&amp;B</a>"
    );
}

#[test]
fn unterminated_link_consumes_to_end() {
    assert_eq!(process_links("ab[[cd ef"), "ab");
    assert_eq!(process_links("x[y"), "x[y");
    assert_eq!(process_links("a]]b"), "a]]b");
}

#[test]
fn extract_query_param_basics() {
    assert_eq!(extract_query_param("/search?q=hello+world&x=1", "q"), "hello world");
    assert_eq!(extract_query_param("/search?x=1", "q"), "");
    assert_eq!(extract_query_param("/search", "q"), "");
}

#[test]
fn extract_query_param_skips_pairs_that_do_not_split_in_two() {
    assert_eq!(extract_query_param("/search?q=a=b&q=c", "q"), "c");
    assert_eq!(extract_query_param("/search?q&q=d", "q"), "d");
}

#[test]
fn extract_body_after_blank_line() {
    assert_eq!(extract_body("POST /x HTTP/1.1\r\nHost: h\r\n\r\nthe body"), "the body");
    assert_eq!(extract_body("no separator here"), "");
}

#[test]
fn extract_form_param_decodes() {
    assert_eq!(extract_form_param("a=1&content=x%26y+z", "content"), "x&y z");
    assert_eq!(extract_form_param("a=1", "content"), "");
}

#[test]
fn format_timestamp_simplified_calendar() {
    assert_eq!(format_timestamp(0), "1970-01-01");
    // 400 days: year 1971, remaining 35 days fall in month 2, day 6.
    assert_eq!(format_timestamp(86400 * 400), "1971-02-06");
    // Last second of day 364: still 1970, month 13 in the 30-day calendar.
    assert_eq!(format_timestamp(86400 * 365 - 1), "1970-13-05");
}

#[test]
fn response_framing() {
    assert_eq!(http_response(404, "Not Found"), "HTTP/1.1 404 Not Found\r\n\r\nNot Found");
    assert_eq!(
        html_response("<p>x</p>"),
        "HTTP/1.1 200 OK\r\nContent-Type: text/html; charset=UTF-8\r\n\r\n<p>x</p>"
    );
    assert_eq!(
        redirect_response("/wiki/x"),
        "HTTP/1.1 303 See Other\r\nLocation: /wiki/x\r\n\r\n"
    );
}

#[test]
fn paragraph_and_list_text_is_escaped() {
    assert_eq!(process_links("&"), "&amp;");
    assert_eq!(markdown_to_html("a & b"), "<p>a &amp; b</p>\n");
    assert_eq!(
        markdown_to_html("- 1 < 2"),
        "<ul><li>1 &lt; 2</li></ul>\n"
    );
}

#[test]
fn headings_resolve_cross_references() {
    assert_eq!(
        markdown_to_html("# see [[B]]"),
        "<h2>see <a href=\"/wiki/b\" class=\"wiki-link\">B</a></h2>\n"
    );
}

#[test]
fn rendered_output_never_holds_raw_markup_from_text() {
    let html = markdown_to_html("x < y\n- a > b\n# \"q\"");
    assert!(!html.contains("x < y"));
    assert!(!html.contains("a > b"));
    assert!(!html.contains("\"q\""));
    assert!(html.contains("x &lt; y"));
    assert!(html.contains("a &gt; b"));
    assert!(html.contains("&quot;q&quot;"));
}
