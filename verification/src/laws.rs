//! The store's laws: what a run of saves does to a history, that titles
//! depend on the key alone, that absent keys stay absent under other keys'
//! saves, what the router returns for absent keys, and that escaping leaves
//! no raw markup character behind.
use vstd::prelude::*;

use crate::codec::escape_char;
use crate::codec::escape_seq;
use crate::http::html_response_spec;
use crate::http::redirect_response_spec;
use crate::router::history_spec;
use crate::router::not_found_page;
use crate::router::view_spec;
use crate::store::article_model;
use crate::store::find_key;
use crate::store::has_key;
use crate::store::history_of;
use crate::store::lemma_find_key;
use crate::store::save_model;
use crate::store::StoreModel;
use crate::text::title_of;

verus! {

proof fn lemma_find_key_update(
    es: StoreModel,
    i: int,
    v: (Seq<char>, Seq<crate::store::ArticleModel>),
    k2: Seq<char>,
)
    requires
        0 <= i < es.len(),
        v.0 == es[i].0,
    ensures
        find_key(es.update(i, v), k2) == find_key(es, k2),
    decreases es.len(),
{
    let es2 = es.update(i, v);
    if i == 0 {
        assert(es2[0].0 == es[0].0);
        if es[0].0 != k2 {
            assert(es2.skip(1) =~= es.skip(1));
        }
    } else {
        assert(es2[0] == es[0]);
        if es[0].0 != k2 {
            assert(es2.skip(1) =~= es.skip(1).update(i - 1, v));
            lemma_find_key_update(es.skip(1), i - 1, v, k2);
        }
    }
}

proof fn lemma_find_key_push(
    es: StoreModel,
    v: (Seq<char>, Seq<crate::store::ArticleModel>),
    k2: Seq<char>,
)
    ensures
        find_key(es.push(v), k2) == if find_key(es, k2) >= 0 {
            find_key(es, k2)
        } else if v.0 == k2 {
            es.len() as int
        } else {
            -1
        },
    decreases es.len(),
{
    let es2 = es.push(v);
    if es.len() == 0 {
        assert(es2[0] == v);
        assert(es2.skip(1) =~= Seq::<(Seq<char>, Seq<crate::store::ArticleModel>)>::empty());
        assert(find_key(es, k2) == -1);
        if v.0 == k2 {
            assert(find_key(es2, k2) == 0);
        } else {
            assert(find_key(es2.skip(1), k2) == -1);
            assert(find_key(es2, k2) == -1);
        }
    } else {
        assert(es2[0] == es[0]);
        if es[0].0 == k2 {
            assert(find_key(es2, k2) == 0);
            assert(find_key(es, k2) == 0);
        } else {
            assert(es2.skip(1) =~= es.skip(1).push(v));
            lemma_find_key_push(es.skip(1), v, k2);
            assert(find_key(es2.skip(1), k2) == find_key(es.skip(1).push(v), k2));
            let r = find_key(es2.skip(1), k2);
            let r0 = find_key(es.skip(1), k2);
            assert(es.skip(1).len() == es.len() - 1);
            if r0 >= 0 {
                assert(r == r0);
                assert(find_key(es2, k2) == r0 + 1);
                assert(find_key(es, k2) == r0 + 1);
            } else if v.0 == k2 {
                assert(r == es.len() - 1);
                assert(find_key(es2, k2) == es.len() as int);
                assert(find_key(es, k2) == -1);
            } else {
                assert(r == -1);
                assert(find_key(es2, k2) == -1);
                assert(find_key(es, k2) == -1);
            }
        }
    }
}

/// A save appends exactly one version, derived from the key, the content and
/// the time, to the saved key's history, and leaves every other history as it
/// was: nothing shrinks, nothing reorders.
pub proof fn lemma_save_extends_history(
    es: StoreModel,
    k: Seq<char>,
    c: Seq<char>,
    t: u64,
    k2: Seq<char>,
)
    ensures
        k2 == k ==> history_of(save_model(es, k, c, t), k2) == history_of(es, k2).push(
            article_model(k, c, t),
        ),
        k2 != k ==> history_of(save_model(es, k, c, t), k2) == history_of(es, k2),
{
    lemma_find_key(es, k);
    lemma_find_key(es, k2);
    let i = find_key(es, k);
    if i >= 0 {
        let v = (k, es[i].1.push(article_model(k, c, t)));
        lemma_find_key_update(es, i, v, k2);
        lemma_find_key(es.update(i, v), k2);
        if k2 == k {
            assert(find_key(es, k2) == i);
        } else {
            if find_key(es, k2) >= 0 {
                assert(find_key(es, k2) != i);
            }
        }
    } else {
        let v = (k, seq![article_model(k, c, t)]);
        lemma_find_key_push(es, v, k2);
        if k2 == k {
            assert(history_of(es.push(v), k2) =~= history_of(es, k2).push(article_model(k, c, t)));
        }
    }
}

/// A key that was never saved stays absent: the empty store has no key, and
/// saving one key never creates another.
pub proof fn lemma_absent_keys(
    es: StoreModel,
    k: Seq<char>,
    c: Seq<char>,
    t: u64,
    k2: Seq<char>,
)
    ensures
        !has_key(Seq::<(Seq<char>, Seq<crate::store::ArticleModel>)>::empty(), k2),
        (k2 != k && !has_key(es, k2)) ==> !has_key(save_model(es, k, c, t), k2),
{
    lemma_find_key(es, k);
    let i = find_key(es, k);
    if k2 != k && !has_key(es, k2) {
        if i >= 0 {
            let v = (k, es[i].1.push(article_model(k, c, t)));
            lemma_find_key_update(es, i, v, k2);
        } else {
            let v = (k, seq![article_model(k, c, t)]);
            lemma_find_key_push(es, v, k2);
        }
    }
}

/// An absent key renders the not-found page on the article route and a
/// redirect to the article route on the history route.
pub proof fn lemma_absent_key_responses(es: StoreModel, k: Seq<char>)
    requires
        !has_key(es, k),
    ensures
        view_spec(es, k) == html_response_spec(not_found_page(k)),
        history_spec(es, k) == redirect_response_spec("/wiki/"@ + k),
{
}

/// Two saves on a fresh key leave exactly the two contents, in order, with
/// the second as the current version.
pub proof fn lemma_two_saves(
    es: StoreModel,
    k: Seq<char>,
    c1: Seq<char>,
    c2: Seq<char>,
    t1: u64,
    t2: u64,
)
    requires
        !has_key(es, k),
    ensures
        ({
            let es2 = save_model(save_model(es, k, c1, t1), k, c2, t2);
            history_of(es2, k).len() == 2 && history_of(es2, k)[0].content == c1 && history_of(
                es2,
                k,
            )[1].content == c2 && history_of(es2, k).last().content == c2
        }),
{
    lemma_find_key(es, k);
    assert(history_of(es, k) =~= Seq::<crate::store::ArticleModel>::empty());
    lemma_save_extends_history(es, k, c1, t1, k);
    lemma_save_extends_history(save_model(es, k, c1, t1), k, c2, t2, k);
}

/// The title of every saved version is derived from the key alone: two saves
/// under one key, whatever their contents, times or starting stores, store
/// versions with one and the same title.
pub proof fn lemma_title_depends_on_key_alone(
    es1: StoreModel,
    es2: StoreModel,
    k: Seq<char>,
    c1: Seq<char>,
    c2: Seq<char>,
    t1: u64,
    t2: u64,
)
    ensures
        history_of(save_model(es1, k, c1, t1), k).last().title == title_of(k),
        history_of(save_model(es1, k, c1, t1), k).last().title == history_of(
            save_model(es2, k, c2, t2),
            k,
        ).last().title,
{
    lemma_save_extends_history(es1, k, c1, t1, k);
    lemma_save_extends_history(es2, k, c2, t2, k);
}

/// A run of saves under one key, applied in order.
pub open spec fn apply_saves(es: StoreModel, k: Seq<char>, cs: Seq<(Seq<char>, u64)>) -> StoreModel
    decreases cs.len(),
{
    if cs.len() == 0 {
        es
    } else {
        apply_saves(save_model(es, k, cs[0].0, cs[0].1), k, cs.skip(1))
    }
}

/// A run of saves loses nothing: every version already present keeps its
/// place, and the run's contents follow it in order, one version per save.
pub proof fn lemma_saves_accumulate(es: StoreModel, k: Seq<char>, cs: Seq<(Seq<char>, u64)>)
    ensures
        ({
            let h0 = history_of(es, k);
            let h = history_of(apply_saves(es, k, cs), k);
            h.len() == h0.len() + cs.len() && (forall|i: int|
                0 <= i < h0.len() ==> h[i] == h0[i]) && (forall|i: int|
                0 <= i < cs.len() ==> h[h0.len() + i].content == (#[trigger] cs[i]).0)
        }),
    decreases cs.len(),
{
    if cs.len() == 0 {
    } else {
        let es1 = save_model(es, k, cs[0].0, cs[0].1);
        lemma_save_extends_history(es, k, cs[0].0, cs[0].1, k);
        lemma_saves_accumulate(es1, k, cs.skip(1));
        let h0 = history_of(es, k);
        let h1 = history_of(es1, k);
        let h = history_of(apply_saves(es, k, cs), k);
        assert(h1 == h0.push(article_model(k, cs[0].0, cs[0].1)));
        assert forall|i: int| 0 <= i < cs.len() implies h[h0.len() + i].content == (
        #[trigger] cs[i]).0 by {
            if i == 0 {
                assert(h[h0.len() as int] == h1[h0.len() as int]);
            } else {
                assert(cs.skip(1)[i - 1] == cs[i]);
                assert(h[h1.len() + (i - 1)].content == cs.skip(1)[i - 1].0);
            }
        }
    }
}

/// Search is deterministic: two searches with one query on one store value
/// return the same hits in the same order, since each result is exactly
/// `search_model` of the store's value and the query.
pub proof fn lemma_search_deterministic(
    es: StoreModel,
    q: Seq<char>,
    r1: Seq<(Seq<char>, Seq<char>)>,
    r2: Seq<(Seq<char>, Seq<char>)>,
)
    requires
        r1 == crate::store::search_model(es, q),
        r2 == crate::store::search_model(es, q),
    ensures
        r1 == r2,
{
}

/// Escaped text never holds a raw `<`, `>`, `"` or `'`: whatever is stored,
/// rendering it cannot open a tag or leave an attribute.
pub proof fn lemma_escape_no_raw(s: Seq<char>, i: int)
    requires
        0 <= i < escape_seq(s).len(),
    ensures
        escape_seq(s)[i] != '<' && escape_seq(s)[i] != '>' && escape_seq(s)[i] != '"' && escape_seq(
            s,
        )[i] != '\'',
    decreases s.len(),
{
    if s.len() > 0 {
        let head = escape_char(s[0]);
        if i < head.len() {
            assert(escape_seq(s)[i] == head[i]);
        } else {
            lemma_escape_no_raw(s.skip(1), i - head.len());
        }
    }
}

} // verus!
