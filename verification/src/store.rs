//! The article store: a mapping from article key to an append-only version
//! history, kept in insertion order so that search results are deterministic.
use vstd::prelude::*;
use vstd::string::StrSliceExecFns;

use crate::text::capitalize_word;
use crate::text::char_upper;
use crate::text::chars_to_string;
use crate::text::contains_seq;
use crate::text::contains_str;
use crate::text::join_spaces;
use crate::text::lower_of;
use crate::text::lowercase;
use crate::text::split_whitespace_vec;
use crate::text::str_eq;
use crate::text::title_of;

verus! {

/// One saved version of an article. Immutable once created.
pub struct Article {
    pub title: String,
    pub content: String,
    pub timestamp: u64,
}

/// The mathematical value of an [`Article`].
pub ghost struct ArticleModel {
    pub title: Seq<char>,
    pub content: Seq<char>,
    pub timestamp: u64,
}

impl View for Article {
    type V = ArticleModel;

    open spec fn view(&self) -> ArticleModel {
        ArticleModel { title: self.title@, content: self.content@, timestamp: self.timestamp }
    }
}

struct Entry {
    key: String,
    versions: Vec<Article>,
}

/// The store's mathematical value: keys with their version histories, oldest
/// version first, in the order the keys were first saved.
pub type StoreModel = Seq<(Seq<char>, Seq<ArticleModel>)>;

/// The index of `k` in `es`, or `-1` where `k` is absent.
pub open spec fn find_key(es: StoreModel, k: Seq<char>) -> int
    decreases es.len(),
{
    if es.len() == 0 {
        -1
    } else if es[0].0 == k {
        0
    } else {
        let r = find_key(es.skip(1), k);
        if r < 0 {
            -1
        } else {
            r + 1
        }
    }
}

/// `k` has a history in `es`.
pub open spec fn has_key(es: StoreModel, k: Seq<char>) -> bool {
    find_key(es, k) >= 0
}

/// The history of `k` in `es`, oldest first; empty where `k` is absent.
pub open spec fn history_of(es: StoreModel, k: Seq<char>) -> Seq<ArticleModel> {
    if has_key(es, k) {
        es[find_key(es, k)].1
    } else {
        Seq::<ArticleModel>::empty()
    }
}

pub proof fn lemma_find_key(es: StoreModel, k: Seq<char>)
    ensures
        -1 <= find_key(es, k) < es.len(),
        find_key(es, k) >= 0 ==> es[find_key(es, k)].0 == k,
        forall|m: int| 0 <= m < find_key(es, k) ==> (#[trigger] es[m]).0 != k,
        find_key(es, k) == -1 ==> forall|m: int| 0 <= m < es.len() ==> (#[trigger] es[m]).0 != k,
    decreases es.len(),
{
    if es.len() == 0 {
    } else if es[0].0 == k {
    } else {
        lemma_find_key(es.skip(1), k);
        assert(forall|m: int|
            1 <= m < es.len() ==> (#[trigger] es[m]).0 == es.skip(1)[m - 1].0);
    }
}

/// Keys are unique and every history is non-empty.
pub open spec fn store_wf(es: StoreModel) -> bool {
    (forall|i: int, j: int|
        0 <= i < j < es.len() ==> (#[trigger] es[i]).0 != (#[trigger] es[j]).0) && (forall|i: int|
        0 <= i < es.len() ==> (#[trigger] es[i]).1.len() > 0)
}

/// The version that saving `content` under `key` at time `now` appends.
pub open spec fn article_model(key: Seq<char>, content: Seq<char>, now: u64) -> ArticleModel {
    ArticleModel { title: title_of(key), content: content, timestamp: now }
}

/// What a save does to the store's value: append to the key's history, or
/// open a new history at the end.
pub open spec fn save_model(es: StoreModel, k: Seq<char>, c: Seq<char>, now: u64) -> StoreModel {
    let i = find_key(es, k);
    if i >= 0 {
        es.update(i, (k, es[i].1.push(article_model(k, c, now))))
    } else {
        es.push((k, seq![article_model(k, c, now)]))
    }
}

/// What the store's search returns: every key whose current version's title
/// or content contains the lowercased query case-insensitively, paired with
/// that title, in store order.
pub open spec fn article_matches(a: ArticleModel, ql: Seq<char>) -> bool {
    contains_seq(lower_of(a.title), ql) || contains_seq(lower_of(a.content), ql)
}

pub open spec fn search_model(es: StoreModel, q: Seq<char>) -> Seq<(Seq<char>, Seq<char>)> {
    es.filter(|e: (Seq<char>, Seq<ArticleModel>)| article_matches(e.1.last(), lower_of(q)))
        .map_values(|e: (Seq<char>, Seq<ArticleModel>)| (e.0, e.1.last().title))
}

/// The display title derived from an article key: underscores become spaces
/// and each word is capitalized.
pub fn derive_title(key: &str) -> (r: String)
    ensures
        r@ == title_of(key@),
{
    let len = key.unicode_len();
    let mut replaced: Vec<char> = Vec::new();
    let mut i: usize = 0;
    while i < len
        invariant
            len == key@.len(),
            i <= len,
            replaced@ =~= key@.take(i as int).map_values(
                |c: char|
                    if c == '_' {
                        ' '
                    } else {
                        c
                    },
            ),
        decreases len - i,
    {
        let c = key.get_char(i);
        if c == '_' {
            replaced.push(' ');
        } else {
            replaced.push(c);
        }
        proof {
            assert(replaced@ =~= key@.take(i + 1).map_values(
                |c: char|
                    if c == '_' {
                        ' '
                    } else {
                        c
                    },
            ));
        }
        i += 1;
    }
    proof {
        assert(key@.take(len as int) =~= key@);
    }
    let replaced_str = chars_to_string(&replaced);
    let words = split_whitespace_vec(replaced_str.as_str());
    let ghost ws = words.deep_view();
    let ghost caps = ws.map_values(|w: Seq<char>| capitalize_word(w));
    let mut out: Vec<char> = Vec::new();
    let mut k: usize = 0;
    proof {
        assert(ws.take(0) =~~= Seq::<Seq<char>>::empty());
        assert(caps.take(0) =~~= Seq::<Seq<char>>::empty());
    }
    while k < words.len()
        invariant
            ws == words.deep_view(),
            caps == ws.map_values(|w: Seq<char>| capitalize_word(w)),
            k <= words.len(),
            out@ == join_spaces(caps.take(k as int)),
        decreases words.len() - k,
    {
        if k > 0 {
            out.push(' ');
        }
        let word = &words[k];
        let wl = word.as_str().unicode_len();
        if wl > 0 {
            let upper = char_upper(word.as_str().get_char(0));
            crate::text::append_str(&mut out, upper.as_str());
            let rest = word.as_str().substring_char(1, wl);
            proof {
                assert(rest@ =~= word@.skip(1));
            }
            crate::text::append_str(&mut out, rest);
        }
        proof {
            assert(ws[k as int] == word@);
            assert(caps[k as int] == capitalize_word(word@));
            assert(caps.take(k + 1).drop_last() =~~= caps.take(k as int));
            assert(caps.take(k + 1).last() == caps[k as int]);
            if k == 0 {
                assert(out@ =~= capitalize_word(word@));
                assert(out@ =~= join_spaces(caps.take(k + 1)));
            } else {
                assert(out@ =~= join_spaces(caps.take(k as int)) + seq![' '] + capitalize_word(
                    word@,
                ));
                assert(out@ =~= join_spaces(caps.take(k + 1)));
            }
        }
        k += 1;
    }
    proof {
        assert(caps.take(words.len() as int) =~~= caps);
        assert(key@.take(len as int) =~= key@);
        assert(out@ == title_of(key@));
    }
    chars_to_string(&out)
}

/// Relies on `std::time::SystemTime::now` and `duration_since` against the
/// epoch: the current time in whole seconds (zero where the clock stands
/// before the epoch). Nothing is promised of the value: it depends on the
/// clock.
#[verifier::external_body]
pub fn timestamp() -> u64 {
    match std::time::SystemTime::now().duration_since(std::time::SystemTime::UNIX_EPOCH) {
        Ok(d) => d.as_secs(),
        Err(_) => 0,
    }
}

/// The thread-unaware article store; callers serialize access to it.
pub struct WikiStore {
    entries: Vec<Entry>,
}

impl WikiStore {
    /// The store's value: keys and histories in first-save order.
    pub closed spec fn entries_view(&self) -> StoreModel {
        self.entries@.map_values(
            |e: Entry| (e.key@, e.versions@.map_values(|a: Article| a@)),
        )
    }

    pub open spec fn wf(&self) -> bool {
        store_wf(self.entries_view())
    }

    /// An empty store.
    pub fn new() -> (s: WikiStore)
        ensures
            s.entries_view() == Seq::<(Seq<char>, Seq<ArticleModel>)>::empty(),
            s.wf(),
    {
        let s = WikiStore { entries: Vec::new() };
        proof {
            assert(s.entries_view() =~= Seq::<(Seq<char>, Seq<ArticleModel>)>::empty());
        }
        s
    }

    /// The position of `key`'s history, or `None` where the key is absent.
    fn find_index(&self, key: &str) -> (r: Option<usize>)
        ensures
            match r {
                Some(i) => i == find_key(self.entries_view(), key@),
                None => find_key(self.entries_view(), key@) == -1,
            },
    {
        let ghost es = self.entries_view();
        let mut j: usize = 0;
        while j < self.entries.len()
            invariant
                es == self.entries_view(),
                es.len() == self.entries@.len(),
                j <= self.entries@.len(),
                forall|m: int| 0 <= m < j ==> (#[trigger] es[m]).0 != key@,
            decreases self.entries@.len() - j,
        {
            proof {
                assert(es[j as int].0 == self.entries@[j as int].key@);
            }
            if str_eq(self.entries[j].key.as_str(), key) {
                proof {
                    lemma_find_key(es, key@);
                    if find_key(es, key@) != j {
                        assert(false);
                    }
                }
                return Some(j);
            }
            j += 1;
        }
        proof {
            lemma_find_key(es, key@);
            if find_key(es, key@) >= 0 {
                assert(false);
            }
        }
        None
    }

    /// The current (last) version for `key`, or `None` where the key was
    /// never saved.
    pub fn get_latest(&self, key: &str) -> (r: Option<&Article>)
        requires
            self.wf(),
        ensures
            match r {
                Some(a) => has_key(self.entries_view(), key@) && a@ == history_of(
                    self.entries_view(),
                    key@,
                ).last(),
                None => !has_key(self.entries_view(), key@),
            },
    {
        match self.find_index(key) {
            Some(i) => {
                proof {
                    lemma_find_key(self.entries_view(), key@);
                    assert(self.entries_view()[i as int].1 == self.entries@[i as int].versions@
                        .map_values(|a: Article| a@));
                }
                let n = self.entries[i].versions.len();
                Some(&self.entries[i].versions[n - 1])
            },
            None => None,
        }
    }

    /// All versions for `key`, oldest first, or `None` where the key was
    /// never saved.
    pub fn get_history(&self, key: &str) -> (r: Option<&Vec<Article>>)
        requires
            self.wf(),
        ensures
            match r {
                Some(v) => has_key(self.entries_view(), key@) && v@.map_values(|a: Article| a@)
                    == history_of(self.entries_view(), key@),
                None => !has_key(self.entries_view(), key@),
            },
    {
        match self.find_index(key) {
            Some(i) => {
                proof {
                    lemma_find_key(self.entries_view(), key@);
                }
                Some(&self.entries[i].versions)
            },
            None => None,
        }
    }

    /// Appends one version under `key`: the title is derived from the key,
    /// the content and time are stored as given; no existing version changes.
    pub fn save(&mut self, key: &str, content: &str, now: u64)
        requires
            old(self).wf(),
        ensures
            final(self).entries_view() == save_model(old(self).entries_view(), key@, content@, now),
            final(self).wf(),
    {
        let ghost es = self.entries_view();
        let title = derive_title(key);
        let article = Article { title, content: String::from_str(content), timestamp: now };
        proof {
            assert(article@ == article_model(key@, content@, now));
            lemma_find_key(es, key@);
        }
        match self.find_index(key) {
            Some(i) => {
                self.entries[i].versions.push(article);
                proof {
                    assert(self.entries@[i as int].key@ == es[i as int].0);
                    assert(self.entries@[i as int].versions@ =~= old(
                        self,
                    ).entries@[i as int].versions@.push(article));
                    assert(self.entries@[i as int].versions@.map_values(|a: Article| a@) =~= es[
                        i as int].1.push(article_model(key@, content@, now)));
                    assert(self.entries_view() =~~= save_model(es, key@, content@, now));
                    lemma_save_model_wf(es, key@, content@, now);
                }
            },
            None => {
                let entry = Entry { key: String::from_str(key), versions: vec![article] };
                self.entries.push(entry);
                proof {
                    let n = self.entries@.len() - 1;
                    assert(self.entries@[n].versions@.map_values(|a: Article| a@) =~= seq![
                        article_model(key@, content@, now)]);
                    assert(self.entries_view() =~~= save_model(es, key@, content@, now));
                    lemma_save_model_wf(es, key@, content@, now);
                }
            },
        }
    }

    /// Every key whose current title or content contains `query`
    /// case-insensitively, with its title, in first-save order.
    pub fn search(&self, query: &str) -> (r: Vec<(String, String)>)
        requires
            self.wf(),
        ensures
            r@.map_values(|p: (String, String)| (p.0@, p.1@)) == search_model(
                self.entries_view(),
                query@,
            ),
    {
        let ghost es = self.entries_view();
        let ghost pred = |e: (Seq<char>, Seq<ArticleModel>)|
            article_matches(e.1.last(), lower_of(query@));
        let query_lower = lowercase(query);
        let mut results: Vec<(String, String)> = Vec::new();
        let mut j: usize = 0;
        proof {
            reveal(Seq::filter);
            assert(es.take(0) =~= Seq::<(Seq<char>, Seq<ArticleModel>)>::empty());
        }
        while j < self.entries.len()
            invariant
                es == self.entries_view(),
                self.wf(),
                es.len() == self.entries@.len(),
                j <= self.entries@.len(),
                query_lower@ == lower_of(query@),
                pred == (|e: (Seq<char>, Seq<ArticleModel>)|
                    article_matches(e.1.last(), lower_of(query@))),
                results@.map_values(|p: (String, String)| (p.0@, p.1@)) =~= es.take(
                    j as int,
                ).filter(pred).map_values(
                    |e: (Seq<char>, Seq<ArticleModel>)| (e.0, e.1.last().title),
                ),
            decreases self.entries@.len() - j,
        {
            proof {
                reveal(Seq::filter);
                assert(es.take(j + 1).drop_last() =~= es.take(j as int));
                assert(es.take(j + 1).last() == es[j as int]);
                assert(es[j as int].0 == self.entries@[j as int].key@);
                assert(es[j as int].1 == self.entries@[j as int].versions@.map_values(
                    |a: Article| a@,
                ));
            }
            let entry = &self.entries[j];
            let n = entry.versions.len();
            let latest = &entry.versions[n - 1];
            let title_lower = lowercase(latest.title.as_str());
            let content_lower = lowercase(latest.content.as_str());
            let is_match = contains_str(title_lower.as_str(), query_lower.as_str())
                || contains_str(content_lower.as_str(), query_lower.as_str());
            proof {
                assert(latest@ == es[j as int].1.last());
                assert(is_match == pred(es[j as int]));
            }
            let ghost prev = results@;
            if is_match {
                let pair = (String::from_str(entry.key.as_str()), String::from_str(
                    latest.title.as_str(),
                ));
                results.push(pair);
                proof {
                    assert(es.take(j + 1).filter(pred) =~= es.take(j as int).filter(pred).push(
                        es[j as int],
                    ));
                    assert(results@.map_values(|p: (String, String)| (p.0@, p.1@)) =~= prev
                        .map_values(|p: (String, String)| (p.0@, p.1@)).push(
                        (es[j as int].0, es[j as int].1.last().title),
                    ));
                    assert(results@.map_values(|p: (String, String)| (p.0@, p.1@)) =~= es.take(
                        j + 1,
                    ).filter(pred).map_values(
                        |e: (Seq<char>, Seq<ArticleModel>)| (e.0, e.1.last().title),
                    ));
                }
            } else {
                proof {
                    assert(es.take(j + 1).filter(pred) =~= es.take(j as int).filter(pred));
                    assert(results@.map_values(|p: (String, String)| (p.0@, p.1@)) =~= es.take(
                        j + 1,
                    ).filter(pred).map_values(
                        |e: (Seq<char>, Seq<ArticleModel>)| (e.0, e.1.last().title),
                    ));
                }
            }
            j += 1;
        }
        proof {
            assert(es.take(self.entries@.len() as int) =~= es);
        }
        results
    }
}

/// The two seed articles the wiki starts with, both stamped `now`.
pub open spec fn seed_model(now: u64) -> StoreModel {
    seq![
        (
            "main"@,
            seq![
                ArticleModel {
                    title: "Main Page"@,
                    content: "Welcome to BauhausWiki\n\nA minimalist encyclopedia inspired by Bauhaus design principles.\n\nFeatured Articles:\n- [[Bauhaus]]\n- [[Design]]\n- [[Architecture]]\n\nStart exploring or create a new article."@,
                    timestamp: now,
                },
            ],
        ),
        (
            "bauhaus"@,
            seq![
                ArticleModel {
                    title: "Bauhaus"@,
                    content: "The Bauhaus\n\nThe Bauhaus was a German art school operational from 1919 to 1933 that combined crafts and the fine arts.\n\nKey Principles:\n- Form follows function\n- Unity of art and technology\n- Geometric abstraction\n- Primary colors and shapes\n\nThe Bauhaus style is characterized by geometric forms, clean lines, and a focus on functionality. It influenced [[Architecture]] and [[Design]] worldwide."@,
                    timestamp: now,
                },
            ],
        ),
    ]
}

/// A store holding the two seed articles, both stamped `now`.
pub fn seeded(now: u64) -> (s: WikiStore)
    ensures
        s.entries_view() == seed_model(now),
        s.wf(),
{
    let main_article = Article {
        title: String::from_str("Main Page"),
        content: String::from_str(
            "Welcome to BauhausWiki\n\nA minimalist encyclopedia inspired by Bauhaus design principles.\n\nFeatured Articles:\n- [[Bauhaus]]\n- [[Design]]\n- [[Architecture]]\n\nStart exploring or create a new article.",
        ),
        timestamp: now,
    };
    let bauhaus_article = Article {
        title: String::from_str("Bauhaus"),
        content: String::from_str(
            "The Bauhaus\n\nThe Bauhaus was a German art school operational from 1919 to 1933 that combined crafts and the fine arts.\n\nKey Principles:\n- Form follows function\n- Unity of art and technology\n- Geometric abstraction\n- Primary colors and shapes\n\nThe Bauhaus style is characterized by geometric forms, clean lines, and a focus on functionality. It influenced [[Architecture]] and [[Design]] worldwide.",
        ),
        timestamp: now,
    };
    let mut entries: Vec<Entry> = Vec::new();
    entries.push(Entry { key: String::from_str("main"), versions: vec![main_article] });
    entries.push(Entry { key: String::from_str("bauhaus"), versions: vec![bauhaus_article] });
    let s = WikiStore { entries };
    proof {
        assert(s.entries_view() =~~= seed_model(now));
        reveal_strlit("main");
        reveal_strlit("bauhaus");
        assert("main"@.len() != "bauhaus"@.len());
        assert(s.wf());
    }
    s
}

pub proof fn lemma_save_model_wf(es: StoreModel, k: Seq<char>, c: Seq<char>, now: u64)
    requires
        store_wf(es),
    ensures
        store_wf(save_model(es, k, c, now)),
{
    lemma_find_key(es, k);
}

} // verus!
