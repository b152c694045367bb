//! The request router: parses one raw request, dispatches on method and path,
//! reads or mutates the store, and frames the page the handler renders.
use vstd::prelude::*;
use vstd::string::StrSliceExecFns;

use crate::codec::body_of;
use crate::codec::escape_html;
use crate::codec::escape_seq;
use crate::codec::extract_body;
use crate::codec::extract_form_param;
use crate::codec::extract_query_param;
use crate::codec::form_param;
use crate::codec::query_param;
use crate::http::css_response;
use crate::http::css_response_spec;
use crate::http::dec_digits;
use crate::http::format_timestamp;
use crate::http::format_ts;
use crate::http::html_response;
use crate::http::html_response_spec;
use crate::http::http_response;
use crate::http::http_response_spec;
use crate::http::push_dec;
use crate::http::redirect_response;
use crate::http::redirect_response_spec;
use crate::render::markdown_spec;
use crate::render::markdown_to_html;
use crate::store::has_key;
use crate::store::history_of;
use crate::store::save_model;
use crate::store::search_model;
use crate::store::timestamp;
use crate::store::ArticleModel;
use crate::store::StoreModel;
use crate::store::WikiStore;
use crate::text::append_str;
use crate::text::chars_to_string;
use crate::text::is_prefix;
use crate::text::join_char;
use crate::text::split_lines;
use crate::text::split_whitespace_vec;
use crate::text::split_ws;
use crate::text::str_eq;
use crate::text::str_starts_with;

verus! {

/// The page shown for an existing article.
pub open spec fn view_page(title: Seq<char>, name: Seq<char>, body: Seq<char>) -> Seq<char> {
    "<!DOCTYPE html>\n<html>\n<head><meta charset=\"UTF-8\"><title>"@ + escape_seq(title)
        + " - BauhausWiki</title><link rel=\"stylesheet\" href=\"/styles.css\"></head>\n<body>\n<header><h1><a href=\"/\">BauhausWiki</a></h1><form action=\"/search\" method=\"get\"><input type=\"text\" name=\"q\" placeholder=\"Search...\"><button type=\"submit\" class=\"primary-btn\">Search</button></form></header>\n<main><article>\n<div class=\"article-header\"><h2>"@
        + escape_seq(title) + "</h2><a href=\"/edit/"@ + escape_seq(name)
        + "\" class=\"btn\">Edit</a> <a href=\"/history/"@ + escape_seq(name)
        + "\" class=\"btn\">History</a></div>\n<div class=\"article-content\">\n"@ + body
        + "\n</div>\n</article></main>\n</body>\n</html>"@
}

/// The page shown for a key that was never saved.
pub open spec fn not_found_page(name: Seq<char>) -> Seq<char> {
    "<!DOCTYPE html>\n<html>\n<head><meta charset=\"UTF-8\"><title>Article Not Found - BauhausWiki</title><link rel=\"stylesheet\" href=\"/styles.css\"></head>\n<body>\n<header><h1><a href=\"/\">BauhausWiki</a></h1></header>\n<main><div class=\"not-found\"><h2>Article Not Found: "@
        + escape_seq(name) + "</h2><p>This article does not exist yet.</p><a href=\"/edit/"@
        + escape_seq(name)
        + "\" class=\"primary-btn\">Create Article</a> <a href=\"/\" class=\"btn\">Back to Main Page</a></div></main>\n</body>\n</html>"@
}

/// What `GET /wiki/{name}` returns: the rendered current version, or the
/// not-found page.
pub open spec fn view_spec(es: StoreModel, name: Seq<char>) -> Seq<char> {
    if has_key(es, name) {
        let a = history_of(es, name).last();
        html_response_spec(view_page(a.title, name, markdown_spec(a.content)))
    } else {
        html_response_spec(not_found_page(name))
    }
}

/// Renders the current version of `name`, or the not-found page.
pub fn view_article(name: &str, store: &WikiStore) -> (r: String)
    requires
        store.wf(),
    ensures
        r@ == view_spec(store.entries_view(), name@),
{
    match store.get_latest(name) {
        Some(article) => {
            let body = markdown_to_html(article.content.as_str());
            let esc_title = escape_html(article.title.as_str());
            let esc_name = escape_html(name);
            let mut page: Vec<char> = Vec::new();
            append_str(&mut page, "<!DOCTYPE html>\n<html>\n<head><meta charset=\"UTF-8\"><title>");
            append_str(&mut page, esc_title.as_str());
            append_str(
                &mut page,
                " - BauhausWiki</title><link rel=\"stylesheet\" href=\"/styles.css\"></head>\n<body>\n<header><h1><a href=\"/\">BauhausWiki</a></h1><form action=\"/search\" method=\"get\"><input type=\"text\" name=\"q\" placeholder=\"Search...\"><button type=\"submit\" class=\"primary-btn\">Search</button></form></header>\n<main><article>\n<div class=\"article-header\"><h2>",
            );
            append_str(&mut page, esc_title.as_str());
            append_str(&mut page, "</h2><a href=\"/edit/");
            append_str(&mut page, esc_name.as_str());
            append_str(&mut page, "\" class=\"btn\">Edit</a> <a href=\"/history/");
            append_str(&mut page, esc_name.as_str());
            append_str(&mut page, "\" class=\"btn\">History</a></div>\n<div class=\"article-content\">\n");
            append_str(&mut page, body.as_str());
            append_str(&mut page, "\n</div>\n</article></main>\n</body>\n</html>");
            proof {
                let a = history_of(store.entries_view(), name@).last();
                assert(page@ =~= view_page(a.title, name@, markdown_spec(a.content)));
            }
            let page_str = chars_to_string(&page);
            html_response(page_str.as_str())
        },
        None => {
            let esc_name = escape_html(name);
            let mut page: Vec<char> = Vec::new();
            append_str(
                &mut page,
                "<!DOCTYPE html>\n<html>\n<head><meta charset=\"UTF-8\"><title>Article Not Found - BauhausWiki</title><link rel=\"stylesheet\" href=\"/styles.css\"></head>\n<body>\n<header><h1><a href=\"/\">BauhausWiki</a></h1></header>\n<main><div class=\"not-found\"><h2>Article Not Found: ",
            );
            append_str(&mut page, esc_name.as_str());
            append_str(&mut page, "</h2><p>This article does not exist yet.</p><a href=\"/edit/");
            append_str(&mut page, esc_name.as_str());
            append_str(
                &mut page,
                "\" class=\"primary-btn\">Create Article</a> <a href=\"/\" class=\"btn\">Back to Main Page</a></div></main>\n</body>\n</html>",
            );
            proof {
                assert(page@ =~= not_found_page(name@));
            }
            let page_str = chars_to_string(&page);
            html_response(page_str.as_str())
        },
    }
}

/// The edit form, pre-filled with the escaped current content (empty where
/// the key is absent).
pub open spec fn edit_page_html(name: Seq<char>, content: Seq<char>) -> Seq<char> {
    "<!DOCTYPE html>\n<html>\n<head><meta charset=\"UTF-8\"><title>Edit "@ + escape_seq(name)
        + " - BauhausWiki</title><link rel=\"stylesheet\" href=\"/styles.css\"></head>\n<body>\n<header><h1><a href=\"/\">BauhausWiki</a></h1></header>\n<main><article>\n<h2>Editing: "@
        + escape_seq(name) + "</h2><form action=\"/save/"@ + escape_seq(name)
        + "\" method=\"post\" class=\"edit-form\"><textarea name=\"content\" rows=\"20\" class=\"edit-textarea\">"@
        + escape_seq(content) + "</textarea><div class=\"form-actions\"><button type=\"submit\" class=\"primary-btn\">Save Article</button> <a href=\"/wiki/"@
        + escape_seq(name)
        + "\" class=\"btn\">Cancel</a></div></form>\n</article></main>\n</body>\n</html>"@
}

/// What `GET /edit/{name}` returns.
pub open spec fn edit_spec(es: StoreModel, name: Seq<char>) -> Seq<char> {
    let content = if has_key(es, name) {
        history_of(es, name).last().content
    } else {
        Seq::<char>::empty()
    };
    html_response_spec(edit_page_html(name, content))
}

/// Renders the edit form for `name`.
pub fn edit_page(name: &str, store: &WikiStore) -> (r: String)
    requires
        store.wf(),
    ensures
        r@ == edit_spec(store.entries_view(), name@),
{
    let escaped = match store.get_latest(name) {
        Some(article) => escape_html(article.content.as_str()),
        None => String::new(),
    };
    proof {
        assert(escape_seq(Seq::<char>::empty()) =~= Seq::<char>::empty());
    }
    let esc_name = escape_html(name);
    let mut page: Vec<char> = Vec::new();
    append_str(&mut page, "<!DOCTYPE html>\n<html>\n<head><meta charset=\"UTF-8\"><title>Edit ");
    append_str(&mut page, esc_name.as_str());
    append_str(
        &mut page,
        " - BauhausWiki</title><link rel=\"stylesheet\" href=\"/styles.css\"></head>\n<body>\n<header><h1><a href=\"/\">BauhausWiki</a></h1></header>\n<main><article>\n<h2>Editing: ",
    );
    append_str(&mut page, esc_name.as_str());
    append_str(&mut page, "</h2><form action=\"/save/");
    append_str(&mut page, esc_name.as_str());
    append_str(
        &mut page,
        "\" method=\"post\" class=\"edit-form\"><textarea name=\"content\" rows=\"20\" class=\"edit-textarea\">",
    );
    append_str(&mut page, escaped.as_str());
    append_str(
        &mut page,
        "</textarea><div class=\"form-actions\"><button type=\"submit\" class=\"primary-btn\">Save Article</button> <a href=\"/wiki/",
    );
    append_str(&mut page, esc_name.as_str());
    append_str(&mut page, "\" class=\"btn\">Cancel</a></div></form>\n</article></main>\n</body>\n</html>");
    proof {
        let es = store.entries_view();
        let content = if has_key(es, name@) {
            history_of(es, name@).last().content
        } else {
            Seq::<char>::empty()
        };
        assert(page@ =~= edit_page_html(name@, content));
    }
    let page_str = chars_to_string(&page);
    html_response(page_str.as_str())
}

/// The first hundred characters of a version's content.
pub open spec fn preview(content: Seq<char>) -> Seq<char> {
    if content.len() <= 100 {
        content
    } else {
        content.take(100)
    }
}

/// One history entry: 1-based version number, simplified date, escaped
/// preview.
pub open spec fn item_html(idx: int, a: ArticleModel) -> Seq<char> {
    "<div class=\"history-item\"><div class=\"history-number\">Version "@ + dec_digits(idx as nat)
        + "</div><div class=\"history-date\">"@ + format_ts(a.timestamp)
        + "</div><div class=\"history-preview\">"@ + escape_seq(preview(a.content))
        + "</div></div>\n"@
}

/// The first `i` versions of `h`, newest first.
pub open spec fn history_items(h: Seq<ArticleModel>, i: int) -> Seq<char>
    decreases i,
{
    if i <= 0 {
        Seq::<char>::empty()
    } else {
        item_html(i, h[i - 1]) + history_items(h, i - 1)
    }
}

/// The history page for `name` around its rendered entries.
pub open spec fn history_page_html(name: Seq<char>, items: Seq<char>) -> Seq<char> {
    "<!DOCTYPE html>\n<html>\n<head><meta charset=\"UTF-8\"><title>History: "@ + escape_seq(name)
        + " - BauhausWiki</title><link rel=\"stylesheet\" href=\"/styles.css\"></head>\n<body>\n<header><h1><a href=\"/\">BauhausWiki</a></h1></header>\n<main><article>\n<h2>Revision History: "@
        + escape_seq(name) + "</h2>\n<div class=\"history-list\">\n"@ + items
        + "</div>\n<a href=\"/wiki/"@ + escape_seq(name)
        + "\" class=\"btn\">Back to Article</a>\n</article></main>\n</body>\n</html>"@
}

/// What `GET /history/{name}` returns: all versions newest first, or a
/// redirect to the article page where the key is absent.
pub open spec fn history_spec(es: StoreModel, name: Seq<char>) -> Seq<char> {
    if has_key(es, name) {
        let h = history_of(es, name);
        html_response_spec(history_page_html(name, history_items(h, h.len() as int)))
    } else {
        redirect_response_spec("/wiki/"@ + name)
    }
}

/// Renders the revision history of `name`, newest first.
pub fn history_page(name: &str, store: &WikiStore) -> (r: String)
    requires
        store.wf(),
    ensures
        r@ == history_spec(store.entries_view(), name@),
{
    match store.get_history(name) {
        Some(versions) => {
            let ghost h = history_of(store.entries_view(), name@);
            proof {
                assert(versions@.map_values(|a: crate::store::Article| a@) == h);
            }
            let n = versions.len();
            let mut items: Vec<char> = Vec::new();
            let mut i: usize = n;
            while i > 0
                invariant
                    n == versions@.len(),
                    n == h.len(),
                    h == versions@.map_values(|a: crate::store::Article| a@),
                    i <= n,
                    items@ + history_items(h, i as int) == history_items(h, n as int),
                decreases i,
            {
                let ghost prev = items@;
                let version = &versions[i - 1];
                proof {
                    assert(version@ == h[i - 1]);
                }
                append_str(
                    &mut items,
                    "<div class=\"history-item\"><div class=\"history-number\">Version ",
                );
                push_dec(i as u64, &mut items);
                append_str(&mut items, "</div><div class=\"history-date\">");
                let date = format_timestamp(version.timestamp);
                append_str(&mut items, date.as_str());
                append_str(&mut items, "</div><div class=\"history-preview\">");
                let cl = version.content.as_str().unicode_len();
                let pl = if cl > 100 {
                    100
                } else {
                    cl
                };
                let preview_str = version.content.as_str().substring_char(0, pl);
                proof {
                    assert(preview_str@ =~= preview(h[i - 1].content));
                }
                let escaped = escape_html(preview_str);
                append_str(&mut items, escaped.as_str());
                append_str(&mut items, "</div></div>\n");
                proof {
                    assert(items@ =~= prev + item_html(i as int, h[i - 1]));
                    assert(items@ + history_items(h, i - 1) =~= prev + history_items(h, i as int));
                }
                i -= 1;
            }
            proof {
                assert(items@ =~= history_items(h, n as int));
            }
            let esc_name = escape_html(name);
            let mut page: Vec<char> = Vec::new();
            append_str(&mut page, "<!DOCTYPE html>\n<html>\n<head><meta charset=\"UTF-8\"><title>History: ");
            append_str(&mut page, esc_name.as_str());
            append_str(
                &mut page,
                " - BauhausWiki</title><link rel=\"stylesheet\" href=\"/styles.css\"></head>\n<body>\n<header><h1><a href=\"/\">BauhausWiki</a></h1></header>\n<main><article>\n<h2>Revision History: ",
            );
            append_str(&mut page, esc_name.as_str());
            append_str(&mut page, "</h2>\n<div class=\"history-list\">\n");
            let items_str = chars_to_string(&items);
            append_str(&mut page, items_str.as_str());
            append_str(&mut page, "</div>\n<a href=\"/wiki/");
            append_str(&mut page, esc_name.as_str());
            append_str(&mut page, "\" class=\"btn\">Back to Article</a>\n</article></main>\n</body>\n</html>");
            proof {
                assert(page@ =~= history_page_html(name@, history_items(h, h.len() as int)));
            }
            let page_str = chars_to_string(&page);
            html_response(page_str.as_str())
        },
        None => {
            let mut loc: Vec<char> = Vec::new();
            append_str(&mut loc, "/wiki/");
            append_str(&mut loc, name);
            proof {
                assert(loc@ =~= "/wiki/"@ + name@);
            }
            let loc_str = chars_to_string(&loc);
            redirect_response(loc_str.as_str())
        },
    }
}

/// One search hit as a link to its article.
pub open spec fn result_div(p: (Seq<char>, Seq<char>)) -> Seq<char> {
    "<div class=\"search-result\"><a href=\"/wiki/"@ + escape_seq(p.0) + "\">"@ + escape_seq(p.1)
        + "</a></div>"@
}

/// The hits joined with line feeds, or a fixed notice where there are none.
pub open spec fn results_html(rs: Seq<(Seq<char>, Seq<char>)>) -> Seq<char> {
    if rs.len() == 0 {
        "<p>No articles found.</p>"@
    } else {
        join_char(rs.map_values(|p: (Seq<char>, Seq<char>)| result_div(p)), '\n')
    }
}

/// The search page for `q` around its rendered hits.
pub open spec fn search_page_html(q: Seq<char>, rs: Seq<(Seq<char>, Seq<char>)>) -> Seq<char> {
    "<!DOCTYPE html>\n<html>\n<head><meta charset=\"UTF-8\"><title>Search: "@ + escape_seq(q)
        + " - BauhausWiki</title><link rel=\"stylesheet\" href=\"/styles.css\"></head>\n<body>\n<header><h1><a href=\"/\">BauhausWiki</a></h1></header>\n<main><article>\n<h2>Search Results for: "@
        + escape_seq(q) + "</h2>\n<div class=\"search-results\">\n"@ + results_html(rs)
        + "\n</div>\n<a href=\"/\" class=\"btn\">Back to Main Page</a>\n</article></main>\n</body>\n</html>"@
}

/// What `GET /search?q=...` returns.
pub open spec fn search_spec(es: StoreModel, q: Seq<char>) -> Seq<char> {
    html_response_spec(search_page_html(q, search_model(es, q)))
}

/// Renders the search results for an already-decoded query.
pub fn search_page(query: &str, store: &WikiStore) -> (r: String)
    requires
        store.wf(),
    ensures
        r@ == search_spec(store.entries_view(), query@),
{
    let results = store.search(query);
    let ghost rv = results@.map_values(|p: (String, String)| (p.0@, p.1@));
    let ghost divs = rv.map_values(|p: (Seq<char>, Seq<char>)| result_div(p));
    let mut hits: Vec<char> = Vec::new();
    if results.len() == 0 {
        append_str(&mut hits, "<p>No articles found.</p>");
        proof {
            assert(hits@ =~= results_html(rv));
        }
    } else {
        let mut k: usize = 0;
        proof {
            assert(divs.take(0) =~~= Seq::<Seq<char>>::empty());
        }
        while k < results.len()
            invariant
                rv == results@.map_values(|p: (String, String)| (p.0@, p.1@)),
                divs == rv.map_values(|p: (Seq<char>, Seq<char>)| result_div(p)),
                k <= results@.len(),
                hits@ == join_char(divs.take(k as int), '\n'),
            decreases results@.len() - k,
        {
            let ghost prev = hits@;
            if k > 0 {
                hits.push('\n');
            }
            let hit = &results[k];
            let esc_key = escape_html(hit.0.as_str());
            let esc_hit_title = escape_html(hit.1.as_str());
            append_str(&mut hits, "<div class=\"search-result\"><a href=\"/wiki/");
            append_str(&mut hits, esc_key.as_str());
            append_str(&mut hits, "\">");
            append_str(&mut hits, esc_hit_title.as_str());
            append_str(&mut hits, "</a></div>");
            proof {
                assert(rv[k as int] == (hit.0@, hit.1@));
                assert(divs[k as int] == result_div(rv[k as int]));
                assert(divs.take(k + 1).drop_last() =~~= divs.take(k as int));
                assert(divs.take(k + 1).last() == divs[k as int]);
                if k == 0 {
                    assert(hits@ =~= result_div(rv[0]));
                    assert(hits@ =~= join_char(divs.take(k + 1), '\n'));
                } else {
                    assert(hits@ =~= join_char(divs.take(k as int), '\n') + seq!['\n'] + divs[
                        k as int]);
                    assert(hits@ =~= join_char(divs.take(k + 1), '\n'));
                }
            }
            k += 1;
        }
        proof {
            assert(divs.take(results@.len() as int) =~~= divs);
            assert(rv.len() > 0);
            assert(hits@ =~= results_html(rv));
        }
    }
    let escaped = escape_html(query);
    let mut page: Vec<char> = Vec::new();
    append_str(&mut page, "<!DOCTYPE html>\n<html>\n<head><meta charset=\"UTF-8\"><title>Search: ");
    append_str(&mut page, escaped.as_str());
    append_str(
        &mut page,
        " - BauhausWiki</title><link rel=\"stylesheet\" href=\"/styles.css\"></head>\n<body>\n<header><h1><a href=\"/\">BauhausWiki</a></h1></header>\n<main><article>\n<h2>Search Results for: ",
    );
    append_str(&mut page, escaped.as_str());
    append_str(&mut page, "</h2>\n<div class=\"search-results\">\n");
    let hits_str = chars_to_string(&hits);
    append_str(&mut page, hits_str.as_str());
    append_str(&mut page, "\n</div>\n<a href=\"/\" class=\"btn\">Back to Main Page</a>\n</article></main>\n</body>\n</html>");
    proof {
        assert(page@ =~= search_page_html(query@, search_model(store.entries_view(), query@)));
    }
    let page_str = chars_to_string(&page);
    html_response(page_str.as_str())
}

/// Appends one version under `name`, stamped with the current time.
pub fn save_article(name: &str, content: &str, store: &mut WikiStore)
    requires
        old(store).wf(),
    ensures
        final(store).wf(),
        exists|t: u64|
            final(store).entries_view() == save_model(
                old(store).entries_view(),
                name@,
                content@,
                t,
            ),
{
    let now = timestamp();
    store.save(name, content, now);
    proof {
        assert(store.entries_view() == save_model(old(store).entries_view(), name@, content@, now));
    }
}

/// What `GET` on a path returns, given the store's value: the route table of
/// the wiki, most specific prefix first; the save family takes no `GET`, and
/// an unrouted path is not found.
pub open spec fn get_spec(path: Seq<char>, es: StoreModel) -> Seq<char> {
    if path == "/"@ {
        view_spec(es, "main"@)
    } else if is_prefix("/wiki/"@, path) {
        view_spec(es, path.skip("/wiki/"@.len() as int))
    } else if is_prefix("/edit/"@, path) {
        edit_spec(es, path.skip("/edit/"@.len() as int))
    } else if is_prefix("/history/"@, path) {
        history_spec(es, path.skip("/history/"@.len() as int))
    } else if is_prefix("/search"@, path) {
        search_spec(es, query_param(path, "q"@))
    } else if path == "/styles.css"@ {
        css_response_spec()
    } else if is_prefix("/save/"@, path) {
        http_response_spec(405, "Method Not Allowed"@)
    } else {
        http_response_spec(404, "Not Found"@)
    }
}

/// Routes one `GET` request.
pub fn handle_get(path: &str, store: &WikiStore) -> (r: String)
    requires
        store.wf(),
    ensures
        r@ == get_spec(path@, store.entries_view()),
{
    let len = path.unicode_len();
    if str_eq(path, "/") {
        return view_article("main", store);
    }
    if str_starts_with(path, "/wiki/") {
        proof {
            reveal_strlit("/wiki/");
        }
        let name = path.substring_char(6, len);
        proof {
            assert(name@ =~= path@.skip(6));
        }
        return view_article(name, store);
    }
    if str_starts_with(path, "/edit/") {
        proof {
            reveal_strlit("/edit/");
        }
        let name = path.substring_char(6, len);
        proof {
            assert(name@ =~= path@.skip(6));
        }
        return edit_page(name, store);
    }
    if str_starts_with(path, "/history/") {
        proof {
            reveal_strlit("/history/");
        }
        let name = path.substring_char(9, len);
        proof {
            assert(name@ =~= path@.skip(9));
        }
        return history_page(name, store);
    }
    if str_starts_with(path, "/search") {
        let query = extract_query_param(path, "q");
        return search_page(query.as_str(), store);
    }
    if str_eq(path, "/styles.css") {
        return css_response();
    }
    if str_starts_with(path, "/save/") {
        return http_response(405, "Method Not Allowed");
    }
    http_response(404, "Not Found")
}

/// The path families that answer a `GET`.
pub open spec fn is_get_route(path: Seq<char>) -> bool {
    path == "/"@ || is_prefix("/wiki/"@, path) || is_prefix("/edit/"@, path) || is_prefix(
        "/history/"@,
        path,
    ) || is_prefix("/search"@, path) || path == "/styles.css"@
}

/// What a `POST` on a path does: `/save/{name}` appends a version at some
/// time and redirects; a known read-only family takes no `POST`; an unknown
/// path is not found. Only the save family changes the store.
pub open spec fn post_spec(
    es_old: StoreModel,
    es_new: StoreModel,
    path: Seq<char>,
    request: Seq<char>,
    r: Seq<char>,
) -> bool {
    if is_prefix("/save/"@, path) {
        let name = path.skip("/save/"@.len() as int);
        (exists|t: u64|
            es_new == save_model(es_old, name, form_param(body_of(request), "content"@), t)) && r
            == redirect_response_spec("/wiki/"@ + name)
    } else if is_get_route(path) {
        es_new == es_old && r == http_response_spec(405, "Method Not Allowed"@)
    } else {
        es_new == es_old && r == http_response_spec(404, "Not Found"@)
    }
}

/// Routes one `POST` request.
pub fn handle_post(path: &str, request: &str, store: &mut WikiStore) -> (r: String)
    requires
        old(store).wf(),
    ensures
        final(store).wf(),
        post_spec(
            old(store).entries_view(),
            final(store).entries_view(),
            path@,
            request@,
            r@,
        ),
{
    let len = path.unicode_len();
    if str_starts_with(path, "/save/") {
        proof {
            reveal_strlit("/save/");
        }
        let name = path.substring_char(6, len);
        proof {
            assert(name@ =~= path@.skip(6));
        }
        let body = extract_body(request);
        let content = extract_form_param(body.as_str(), "content");
        save_article(name, content.as_str(), store);
        let mut loc: Vec<char> = Vec::new();
        append_str(&mut loc, "/wiki/");
        append_str(&mut loc, name);
        proof {
            assert(loc@ =~= "/wiki/"@ + name@);
        }
        let loc_str = chars_to_string(&loc);
        return redirect_response(loc_str.as_str());
    }
    if str_eq(path, "/") || str_starts_with(path, "/wiki/") || str_starts_with(path, "/edit/")
        || str_starts_with(path, "/history/") || str_starts_with(path, "/search") || str_eq(
        path,
        "/styles.css",
    ) {
        return http_response(405, "Method Not Allowed");
    }
    http_response(404, "Not Found")
}

/// The white-space-separated tokens of a request's first line.
pub open spec fn request_tokens(request: Seq<char>) -> Seq<Seq<char>> {
    let lines = split_lines(request);
    if lines.len() == 0 {
        Seq::<Seq<char>>::empty()
    } else {
        split_ws(lines[0])
    }
}

/// Parses one raw request and produces its response: a malformed request
/// line is a bad request, `GET` and `POST` are routed, anything else is not
/// allowed. Only a `POST` can change the store.
pub fn process_request(request: &str, store: &mut WikiStore) -> (r: String)
    requires
        old(store).wf(),
    ensures
        final(store).wf(),
        ({
            let toks = request_tokens(request@);
            if toks.len() < 2 {
                final(store).entries_view() == old(store).entries_view() && r@
                    == http_response_spec(400, "Bad Request"@)
            } else if toks[0] == "GET"@ {
                final(store).entries_view() == old(store).entries_view() && r@ == get_spec(
                    toks[1],
                    old(store).entries_view(),
                )
            } else if toks[0] == "POST"@ {
                post_spec(
                    old(store).entries_view(),
                    final(store).entries_view(),
                    toks[1],
                    request@,
                    r@,
                )
            } else {
                final(store).entries_view() == old(store).entries_view() && r@
                    == http_response_spec(405, "Method Not Allowed"@)
            }
        }),
{
    let lines = crate::text::lines_vec(request);
    if lines.len() == 0 {
        return http_response(400, "Bad Request");
    }
    let parts = split_whitespace_vec(lines[0].as_str());
    proof {
        assert(lines@[0]@ == split_lines(request@)[0]);
        assert(parts.deep_view() == request_tokens(request@));
    }
    if parts.len() < 2 {
        return http_response(400, "Bad Request");
    }
    proof {
        assert(parts@[0]@ == request_tokens(request@)[0]);
        assert(parts@[1]@ == request_tokens(request@)[1]);
    }
    let method = &parts[0];
    let path = &parts[1];
    if str_eq(method.as_str(), "GET") {
        handle_get(path.as_str(), store)
    } else if str_eq(method.as_str(), "POST") {
        handle_post(path.as_str(), request, store)
    } else {
        http_response(405, "Method Not Allowed")
    }
}

} // verus!
