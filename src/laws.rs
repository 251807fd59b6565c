use vstd::prelude::*;
use crate::assets::{assets, lemma_assets_free_of_at, WIDGET_HEAD};
use crate::blocks::{
    closes_at, first_block, has_block, lemma_rewrite_block, opens_at, rendered, rewrite, widget,
};

verus! {

/// `s` holds the sentinel token `@@@` at position `i`.
pub open spec fn token_at(s: Seq<char>, i: int) -> bool {
    &&& 0 <= i
    &&& i + 3 <= s.len()
    &&& s[i] == '@'
    &&& s[i + 1] == '@'
    &&& s[i + 2] == '@'
}

/// `s` holds no sentinel token anywhere.
pub open spec fn free_of_token(s: Seq<char>) -> bool {
    forall|i: int| !token_at(s, i)
}

/// A line of `s` that is exactly the sentinel token starts at position `i`.
pub open spec fn sentinel_line_at(s: Seq<char>, i: int) -> bool {
    &&& token_at(s, i)
    &&& i == 0 || s[i - 1] == '\n'
    &&& i + 3 == s.len() || s[i + 3] == '\n'
}

/// `s` holds a line that is exactly the sentinel token.
pub open spec fn has_sentinel_line(s: Seq<char>) -> bool {
    exists|i: int| sentinel_line_at(s, i)
}

/// The sentinel line with the newlines on both sides, as it opens a body.
pub open spec fn open_marker() -> Seq<char> {
    seq!['\n', '@', '@', '@', '\n']
}

/// The sentinel line with the newline before it, as it closes a body.
pub open spec fn close_marker() -> Seq<char> {
    seq!['\n', '@', '@', '@']
}

/// A text without a block is left as it is.
proof fn lemma_rewrite_no_block(t: Seq<char>)
    requires
        !has_block(t),
    ensures
        rewrite(t) == t,
{
    reveal(rewrite);
}

/// Content that holds no sentinel token comes out as the assets followed by
/// the content, unchanged.
pub proof fn lemma_no_token_only_assets(c: Seq<char>)
    requires
        free_of_token(c),
    ensures
        rendered(c) == assets() + c,
{
    lemma_assets_free_of_at();
    let a = assets();
    let t = a + c;
    assert forall|p: int, q: int| !first_block(t, p, q) by {
        if first_block(t, p, q) {
            if q + 1 < a.len() {
                assert(t[q + 1] == a[q + 1]);
            } else {
                assert(token_at(c, q + 1 - a.len()));
            }
        }
    }
    lemma_rewrite_no_block(t);
}

/// Content with at most one line that is exactly the sentinel token (so a
/// block that is opened and never closed) comes out as the assets followed
/// by the content, unchanged.
pub proof fn lemma_unterminated_only_assets(c: Seq<char>)
    requires
        forall|i: int, j: int| sentinel_line_at(c, i) && sentinel_line_at(c, j) ==> i == j,
    ensures
        rendered(c) == assets() + c,
{
    lemma_assets_free_of_at();
    let a = assets();
    let t = a + c;
    assert forall|p: int, q: int| !first_block(t, p, q) by {
        if first_block(t, p, q) {
            assert(t[p + 1] == c[p + 1 - a.len()]);
            assert(t[q + 1] == c[q + 1 - a.len()]);
            assert(sentinel_line_at(c, p + 1 - a.len()));
            assert(sentinel_line_at(c, q + 1 - a.len()));
        }
    }
    lemma_rewrite_no_block(t);
}

/// A block whose title and body hold no sentinel line becomes its title, then
/// a widget around its body; the text after it is processed on its own.
pub proof fn lemma_block_round_trip(title: Seq<char>, body: Seq<char>, rest: Seq<char>)
    requires
        !has_sentinel_line(title),
        !has_sentinel_line(body),
        rest.len() == 0 || rest[0] == '\n',
    ensures
        rewrite(title + open_marker() + body + close_marker() + rest) == if rest.len() == 0 {
            title + widget(body)
        } else {
            title + widget(body) + seq!['\n'] + rewrite(rest.drop_first())
        },
{
    let t = title + open_marker() + body + close_marker() + rest;
    let p = title.len() as int;
    let q = p + 5 + body.len();
    assert(opens_at(t, p));
    assert forall|i: int| 0 <= i < p implies !opens_at(t, i) by {
        if opens_at(t, i) {
            if i + 4 < p {
                assert(token_at(title, i + 1) && title[i] == '\n' && title[i + 4] == '\n');
                assert(sentinel_line_at(title, i + 1));
            } else if i + 4 == p {
                assert(token_at(title, i + 1) && title[i] == '\n');
                assert(sentinel_line_at(title, i + 1));
            } else {
                assert(t[p] == '\n');
            }
        }
    }
    assert(closes_at(t, q));
    assert forall|j: int| p + 5 <= j < q implies !closes_at(t, j) by {
        if closes_at(t, j) {
            let k = j - p - 5;
            if j + 3 < q {
                assert(token_at(body, k + 1) && body[k] == '\n');
                if k + 4 < body.len() {
                    assert(body[k + 4] == t[j + 4]);
                }
                assert(sentinel_line_at(body, k + 1));
            } else {
                assert(t[q] == '\n');
            }
        }
    }
    assert(first_block(t, p, q));
    lemma_rewrite_block(t, p, q);
    assert(t.subrange(0, p) =~= title);
    assert(t.subrange(p + 5, q) =~= body);
    if rest.len() > 0 {
        assert(t.subrange(q + 5, t.len() as int) =~= rest.drop_first());
    }
}

/// Of three sentinel lines in a row after a title, the first two enclose the
/// first body; the third is left to the text that follows.
pub proof fn lemma_leftmost_pairing(
    title: Seq<char>,
    x: Seq<char>,
    y: Seq<char>,
    rest: Seq<char>,
)
    requires
        !has_sentinel_line(title),
        !has_sentinel_line(x),
    ensures
        rewrite(title + open_marker() + x + open_marker() + y + close_marker() + rest) == title
            + widget(x) + seq!['\n'] + rewrite(y + close_marker() + rest),
{
    let tail = seq!['\n'] + y + close_marker() + rest;
    lemma_block_round_trip(title, x, tail);
    assert(title + open_marker() + x + open_marker() + y + close_marker() + rest =~= title
        + open_marker() + x + close_marker() + tail);
    assert(tail.drop_first() =~= y + close_marker() + rest);
}

/// The text from `k` on is kept at the end of the output when no closing
/// sentinel ends after `k`.
proof fn lemma_tail_kept(t: Seq<char>, k: int)
    requires
        0 <= k <= t.len(),
        forall|j: int| k < j + 4 ==> !closes_at(t, j),
    ensures
        rewrite(t).len() >= t.len() - k,
        rewrite(t).subrange(rewrite(t).len() - (t.len() - k), rewrite(t).len() as int)
            == t.subrange(k, t.len() as int),
    decreases t.len(),
{
    if has_block(t) {
        let (p, q) = choose|p: int, q: int| first_block(t, p, q);
        lemma_rewrite_block(t, p, q);
        let done = t.subrange(0, p) + widget(t.subrange(p + 5, q));
        if q + 4 < t.len() {
            let r = t.subrange(q + 5, t.len() as int);
            assert forall|j: int| closes_at(r, j) implies j >= 0 && closes_at(t, j + q + 5) by {
                assert(r[j] == t[j + q + 5]);
                assert(r[j + 1] == t[j + q + 6]);
                assert(r[j + 2] == t[j + q + 7]);
                assert(r[j + 3] == t[j + q + 8]);
                if j + 4 < r.len() {
                    assert(r[j + 4] == t[j + q + 9]);
                }
            }
            if k >= q + 5 {
                lemma_tail_kept(r, k - q - 5);
                let out = rewrite(t);
                assert(out =~= done + seq!['\n'] + rewrite(r));
                assert(out.subrange(out.len() - (t.len() - k), out.len() as int) =~= rewrite(
                    r,
                ).subrange(rewrite(r).len() - (r.len() - (k - q - 5)), rewrite(r).len() as int));
                assert(r.subrange(k - q - 5, r.len() as int) =~= t.subrange(k, t.len() as int));
            } else {
                assert(!has_block(r)) by {
                    if has_block(r) {
                        let (p2, q2) = choose|p2: int, q2: int| first_block(r, p2, q2);
                        assert(closes_at(t, q2 + q + 5));
                    }
                }
                lemma_rewrite_no_block(r);
                let out = rewrite(t);
                assert(out.subrange(out.len() - (t.len() - k), out.len() as int) =~= seq!['\n']
                    + r);
                assert(t.subrange(k, t.len() as int) =~= seq!['\n'] + r);
            }
        } else {
            assert(closes_at(t, q));
        }
    } else {
        lemma_rewrite_no_block(t);
    }
}

/// Text before the first opening sentinel, and text after the last closing
/// sentinel, come out unchanged at the start and at the end of the output.
pub proof fn lemma_outside_blocks_kept(t: Seq<char>, p: int, k: int)
    requires
        0 <= p <= t.len(),
        forall|i: int| 0 <= i < p ==> !opens_at(t, i),
        0 <= k <= t.len(),
        forall|j: int| k < j + 4 ==> !closes_at(t, j),
    ensures
        rewrite(t).len() >= p,
        rewrite(t).subrange(0, p) == t.subrange(0, p),
        rewrite(t).len() >= t.len() - k,
        rewrite(t).subrange(rewrite(t).len() - (t.len() - k), rewrite(t).len() as int)
            == t.subrange(k, t.len() as int),
{
    if has_block(t) {
        let (p2, q2) = choose|p2: int, q2: int| first_block(t, p2, q2);
        lemma_rewrite_block(t, p2, q2);
        assert(rewrite(t).subrange(0, p) =~= t.subrange(0, p));
    } else {
        lemma_rewrite_no_block(t);
    }
    lemma_tail_kept(t, k);
}

/// A title without a sentinel line has none either once the assets stand in
/// front of it.
pub proof fn lemma_assets_keep_title_free(title: Seq<char>)
    requires
        !has_sentinel_line(title),
    ensures
        !has_sentinel_line(assets() + title),
{
    lemma_assets_free_of_at();
    let a = assets();
    let t = a + title;
    assert forall|i: int| !sentinel_line_at(t, i) by {
        if sentinel_line_at(t, i) {
            assert(t[i] == title[i - a.len()]);
            assert(sentinel_line_at(title, i - a.len()));
        }
    }
}

/// Whatever the content, the output starts with the whole of the assets.
pub proof fn lemma_rendered_starts_with_assets(c: Seq<char>)
    ensures
        rendered(c).len() >= assets().len(),
        rendered(c).subrange(0, assets().len() as int) == assets(),
{
    lemma_assets_free_of_at();
    let a = assets();
    let t = a + c;
    let n = a.len() as int;
    if has_block(t) {
        let (p, q) = choose|p: int, q: int| first_block(t, p, q);
        lemma_rewrite_block(t, p, q);
        if p + 1 < n {
            assert(t[p + 1] == a[p + 1]);
        }
        if p + 1 == n {
            reveal_strlit("\n<div class=\"qa-container\">\n<button class=\"answer-toggle\" aria-label=\"Toggle answer\">\n    <span class=\"toggle-icon\">\n        <svg xmlns=\"http://www.w3.org/2000/svg\" viewBox=\"0 0 24 24\" width=\"16\" height=\"16\">\n            <path class=\"icon-eye\" d=\"M1 12s4-8 11-8 11 8 11 8-4 8-11 8-11-8-11-8z\"></path>\n            <path class=\"icon-eye\" d=\"M12 12m-3 0a3 3 0 1 0 6 0a3 3 0 1 0 -6 0\"></path>\n        </svg>\n    </span>\n    <span class=\"toggle-text\">显示答案</span>\n</button>\n<div class=\"hidden-content\">\n\n");
            assert(WIDGET_HEAD@[0] == '\n');
            assert(a[n - 1] == '\n');
            assert(rewrite(t).subrange(0, n) =~= a);
        } else {
            assert(rewrite(t).subrange(0, n) =~= a);
        }
    } else {
        lemma_rewrite_no_block(t);
        assert(rewrite(t).subrange(0, n) =~= a);
    }
}

/// In a chapter, a block whose title and body hold no sentinel line becomes
/// its title, then a widget around its body, after the assets; the text after
/// it is processed on its own.
pub proof fn lemma_rendered_round_trip(title: Seq<char>, body: Seq<char>, rest: Seq<char>)
    requires
        !has_sentinel_line(title),
        !has_sentinel_line(body),
        rest.len() == 0 || rest[0] == '\n',
    ensures
        rendered(title + open_marker() + body + close_marker() + rest) == if rest.len() == 0 {
            assets() + title + widget(body)
        } else {
            assets() + title + widget(body) + seq!['\n'] + rewrite(rest.drop_first())
        },
{
    lemma_assets_keep_title_free(title);
    lemma_block_round_trip(assets() + title, body, rest);
    assert(assets() + (title + open_marker() + body + close_marker() + rest) =~= (assets()
        + title) + open_marker() + body + close_marker() + rest);
}

/// In a chapter, of three sentinel lines in a row after a title, the first
/// two enclose the first body; the third is left to the text that follows.
pub proof fn lemma_rendered_leftmost_pairing(
    title: Seq<char>,
    x: Seq<char>,
    y: Seq<char>,
    rest: Seq<char>,
)
    requires
        !has_sentinel_line(title),
        !has_sentinel_line(x),
    ensures
        rendered(title + open_marker() + x + open_marker() + y + close_marker() + rest)
            == assets() + title + widget(x) + seq!['\n'] + rewrite(y + close_marker() + rest),
{
    lemma_assets_keep_title_free(title);
    lemma_leftmost_pairing(assets() + title, x, y, rest);
    assert(assets() + (title + open_marker() + x + open_marker() + y + close_marker() + rest)
        =~= (assets() + title) + open_marker() + x + open_marker() + y + close_marker() + rest);
}

/// In a chapter, the content before its first opening sentinel line and the
/// content after its last closing one come out unchanged, right after the
/// assets and at the end of the output. A content that starts with the
/// sentinel line opens a block at its first character.
pub proof fn lemma_rendered_outside_kept(c: Seq<char>, p: int, k: int)
    requires
        0 <= p <= c.len(),
        forall|i: int| 0 <= i < p ==> !opens_at(c, i),
        p > 0 ==> !opens_at(seq!['\n'] + c, 0),
        0 <= k <= c.len(),
        forall|j: int| k < j + 4 ==> !closes_at(c, j),
        k < 3 ==> !closes_at(seq!['\n'] + c, 0),
    ensures
        rendered(c).len() >= assets().len() + p,
        rendered(c).subrange(0, assets().len() + p) == assets() + c.subrange(0, p),
        rendered(c).len() >= c.len() - k,
        rendered(c).subrange(rendered(c).len() - (c.len() - k), rendered(c).len() as int)
            == c.subrange(k, c.len() as int),
{
    lemma_assets_free_of_at();
    let a = assets();
    let n = a.len() as int;
    let t = a + c;
    let lc = seq!['\n'] + c;
    let head = if p > 0 { n + p } else { 0 };
    assert(a[n - 1] == '\n');
    assert forall|i: int| 0 <= i < head implies !opens_at(t, i) by {
        if opens_at(t, i) {
            if i + 1 < n {
                assert(t[i + 1] == a[i + 1]);
            } else if i + 1 == n {
                assert(opens_at(lc, 0));
            } else {
                assert(opens_at(c, i - n));
            }
        }
    }
    assert forall|j: int| n + k < j + 4 implies !closes_at(t, j) by {
        if closes_at(t, j) {
            if j + 1 < n {
                assert(t[j + 1] == a[j + 1]);
            } else if j + 1 == n {
                assert(closes_at(lc, 0));
            } else {
                assert(closes_at(c, j - n));
            }
        }
    }
    lemma_outside_blocks_kept(t, head, n + k);
    if p > 0 {
        assert(t.subrange(0, n + p) =~= a + c.subrange(0, p));
    } else {
        lemma_rendered_starts_with_assets(c);
        assert(a + c.subrange(0, p) =~= a);
    }
    assert(t.subrange(n + k, t.len() as int) =~= c.subrange(k, c.len() as int));
}

} // verus!
