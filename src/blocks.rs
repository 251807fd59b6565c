use vstd::prelude::*;
use crate::assets::{assets, SCRIPT_BLOCK, STYLE_BLOCK, WIDGET_HEAD, WIDGET_TAIL};
use crate::text::chars_of;

verus! {

/// `t` holds the opening sentinel `"\n@@@\n"` at position `p`.
pub open spec fn opens_at(t: Seq<char>, p: int) -> bool {
    &&& 0 <= p
    &&& p + 5 <= t.len()
    &&& t[p] == '\n'
    &&& t[p + 1] == '@'
    &&& t[p + 2] == '@'
    &&& t[p + 3] == '@'
    &&& t[p + 4] == '\n'
}

/// `t` holds the closing sentinel `"\n@@@"` at position `q`, and it ends a
/// line: the text ends there or goes on with a newline.
pub open spec fn closes_at(t: Seq<char>, q: int) -> bool {
    &&& 0 <= q
    &&& q + 4 <= t.len()
    &&& t[q] == '\n'
    &&& t[q + 1] == '@'
    &&& t[q + 2] == '@'
    &&& t[q + 3] == '@'
    &&& (q + 4 == t.len() || t[q + 4] == '\n')
}

/// The leftmost block of `t`: the title is `t[0..p]`, up to the first opening
/// sentinel, and the body is `t[p + 5..q]`, up to the first closing sentinel
/// after it.
pub open spec fn first_block(t: Seq<char>, p: int, q: int) -> bool {
    &&& opens_at(t, p)
    &&& forall|i: int| 0 <= i < p ==> !opens_at(t, i)
    &&& p + 5 <= q
    &&& closes_at(t, q)
    &&& forall|j: int| p + 5 <= j < q ==> !closes_at(t, j)
}

pub open spec fn has_block(t: Seq<char>) -> bool {
    exists|p: int, q: int| first_block(t, p, q)
}

/// The collapsible widget that holds `body` as its hidden answer.
pub open spec fn widget(body: Seq<char>) -> Seq<char> {
    WIDGET_HEAD@ + body + WIDGET_TAIL@
}

/// `t`, read from a line start, with every block replaced, leftmost first:
/// the title is kept, the sentinels and the body become a widget, and the
/// scan resumes after the newline that ends the closing sentinel.
#[verifier::opaque]
pub open spec fn rewrite(t: Seq<char>) -> Seq<char>
    decreases t.len(),
{
    if has_block(t) {
        let (p, q) = choose|p: int, q: int| first_block(t, p, q);
        let done = t.subrange(0, p) + widget(t.subrange(p + 5, q));
        if q + 4 < t.len() {
            done + seq!['\n'] + rewrite(t.subrange(q + 5, t.len() as int))
        } else {
            done
        }
    } else {
        t
    }
}

/// A chapter's content after processing: the shared assets in front, then
/// every block replaced.
pub open spec fn rendered(content: Seq<char>) -> Seq<char> {
    rewrite(assets() + content)
}

/// A text has at most one leftmost block.
pub proof fn lemma_first_block_unique(t: Seq<char>, p: int, q: int, p2: int, q2: int)
    requires
        first_block(t, p, q),
        first_block(t, p2, q2),
    ensures
        p == p2,
        q == q2,
{
    if p < p2 {
        assert(!opens_at(t, p));
    } else if p2 < p {
        assert(!opens_at(t, p2));
    }
    if q < q2 {
        assert(!closes_at(t, q));
    } else if q2 < q {
        assert(!closes_at(t, q2));
    }
}

/// One step of `rewrite`, for the leftmost block at `p`, `q`.
pub proof fn lemma_rewrite_block(t: Seq<char>, p: int, q: int)
    requires
        first_block(t, p, q),
    ensures
        rewrite(t) == if q + 4 < t.len() {
            t.subrange(0, p) + widget(t.subrange(p + 5, q)) + seq!['\n'] + rewrite(
                t.subrange(q + 5, t.len() as int),
            )
        } else {
            t.subrange(0, p) + widget(t.subrange(p + 5, q))
        },
{
    reveal(rewrite);
    let (p2, q2) = choose|p2: int, q2: int| first_block(t, p2, q2);
    lemma_first_block_unique(t, p, q, p2, q2);
}

/// The sentinels of a suffix of `t` are those of `t`, shifted.
proof fn lemma_suffix_sentinels(t: Seq<char>, k: int)
    requires
        0 <= k <= t.len(),
    ensures
        forall|i: int| #[trigger] opens_at(t.subrange(k, t.len() as int), i) <==> i >= 0 && opens_at(t, i + k),
        forall|i: int| #[trigger] closes_at(t.subrange(k, t.len() as int), i) <==> i >= 0 && closes_at(t, i + k),
{
}

fn opening_at(cs: &Vec<char>, p: usize) -> (r: bool)
    ensures
        r == opens_at(cs@, p as int),
{
    p < cs.len() && cs.len() - p >= 5 && cs[p] == '\n' && cs[p + 1] == '@' && cs[p + 2] == '@'
        && cs[p + 3] == '@' && cs[p + 4] == '\n'
}

fn closing_at(cs: &Vec<char>, q: usize) -> (r: bool)
    ensures
        r == closes_at(cs@, q as int),
{
    q < cs.len() && cs.len() - q >= 4 && cs[q] == '\n' && cs[q + 1] == '@' && cs[q + 2] == '@'
        && cs[q + 3] == '@' && (cs.len() - q == 4 || cs[q + 4] == '\n')
}

/// The first opening sentinel at or after `from`.
fn find_opening(cs: &Vec<char>, from: usize) -> (r: Option<usize>)
    requires
        from <= cs@.len(),
    ensures
        match r {
            Some(p) => {
                &&& from <= p
                &&& opens_at(cs@, p as int)
                &&& forall|i: int| from <= i < p ==> !opens_at(cs@, i)
            },
            None => forall|i: int| from <= i ==> !opens_at(cs@, i),
        },
{
    let mut p: usize = from;
    while p < cs.len()
        invariant
            from <= p <= cs@.len(),
            forall|i: int| from <= i < p ==> !opens_at(cs@, i),
        decreases cs@.len() - p,
    {
        if opening_at(cs, p) {
            return Some(p);
        }
        p = p + 1;
    }
    None
}

/// The first closing sentinel at or after `from`.
fn find_closing(cs: &Vec<char>, from: usize) -> (r: Option<usize>)
    requires
        from <= cs@.len(),
    ensures
        match r {
            Some(q) => {
                &&& from <= q
                &&& closes_at(cs@, q as int)
                &&& forall|j: int| from <= j < q ==> !closes_at(cs@, j)
            },
            None => forall|j: int| from <= j ==> !closes_at(cs@, j),
        },
{
    let mut q: usize = from;
    while q < cs.len()
        invariant
            from <= q <= cs@.len(),
            forall|j: int| from <= j < q ==> !closes_at(cs@, j),
        decreases cs@.len() - q,
    {
        if closing_at(cs, q) {
            return Some(q);
        }
        q = q + 1;
    }
    None
}

/// The leftmost block of the text from `start` on, at absolute positions.
fn find_block(cs: &Vec<char>, start: usize) -> (r: Option<(usize, usize)>)
    requires
        start <= cs@.len(),
    ensures
        match r {
            Some((p, q)) => {
                &&& start <= p
                &&& q + 4 <= cs@.len()
                &&& first_block(cs@.subrange(start as int, cs@.len() as int), p - start, q - start)
            },
            None => !has_block(cs@.subrange(start as int, cs@.len() as int)),
        },
{
    let ghost s = cs@.subrange(start as int, cs@.len() as int);
    let n = cs.len();
    proof {
        lemma_suffix_sentinels(cs@, start as int);
    }
    match find_opening(cs, start) {
        Some(p) => {
            assert(p + 5 <= n);
            assert(forall|i: int| 0 <= i < p - start ==> !opens_at(s, i));
            match find_closing(cs, p + 5) {
                Some(q) => {
                    assert(forall|j: int| p - start + 5 <= j < q - start ==> !closes_at(s, j));
                    Some((p, q))
                },
                None => {
                    assert forall|p2: int, q2: int| !first_block(s, p2, q2) by {
                        if first_block(s, p2, q2) {
                            assert(opens_at(s, p - start));
                            if p2 > p - start {
                                assert(!opens_at(s, p - start));
                            }
                            assert(closes_at(cs@, q2 + start));
                        }
                    }
                    None
                },
            }
        },
        None => {
            assert forall|p2: int, q2: int| !first_block(s, p2, q2) by {
                if first_block(s, p2, q2) {
                    assert(opens_at(cs@, p2 + start));
                }
            }
            None
        },
    }
}

/// Replaces every block of `text`, leftmost first, with its title followed by
/// a collapsible widget around its body. Text outside the blocks is kept.
pub fn replace_blocks(text: &str) -> (r: String)
    ensures
        r@ == rewrite(text@),
{
    let cs = chars_of(text);
    let n = cs.len();
    let mut out = String::new();
    let mut start: usize = 0;
    proof {
        assert(cs@.subrange(0, n as int) =~= cs@);
    }
    loop
        invariant
            start <= n,
            n == cs@.len(),
            cs@ == text@,
            out@ + rewrite(cs@.subrange(start as int, n as int)) == rewrite(text@),
        decreases n - start,
    {
        let ghost s = cs@.subrange(start as int, n as int);
        let ghost before = out@;
        match find_block(&cs, start) {
            Some((p, q)) => {
                proof {
                    lemma_rewrite_block(s, p - start, q - start);
                    assert(s.subrange(0, p - start) =~= cs@.subrange(start as int, p as int));
                    assert(s.subrange(p - start + 5, q - start) =~= cs@.subrange(p + 5, q as int));
                }
                out.append(text.substring_char(start, p));
                out.append(WIDGET_HEAD);
                out.append(text.substring_char(p + 5, q));
                out.append(WIDGET_TAIL);
                if q + 4 < n {
                    proof {
                        assert(s.subrange(q - start + 5, s.len() as int) =~= cs@.subrange(
                            q + 5,
                            n as int,
                        ));
                    }
                    out.append("\n");
                    proof {
                        reveal_strlit("\n");
                        assert(out@ =~= before + cs@.subrange(start as int, p as int) + widget(
                            cs@.subrange(p + 5, q as int),
                        ) + seq!['\n']);
                        assert(out@ + rewrite(cs@.subrange(q + 5, n as int)) =~= before + rewrite(
                            s,
                        ));
                    }
                    start = q + 5;
                } else {
                    return out;
                }
            },
            None => {
                proof {
                    reveal(rewrite);
                }
                out.append(text.substring_char(start, n));
                return out;
            },
        }
    }
}

/// A chapter's content after processing: the stylesheet and the script in
/// front, then every block replaced by its widget.
pub fn process_chapter(content: &str) -> (r: String)
    ensures
        r@ == rendered(content@),
{
    let mut full = String::from_str(STYLE_BLOCK);
    full.append("\n");
    full.append(SCRIPT_BLOCK);
    full.append("\n");
    full.append(content);
    proof {
        reveal_strlit("\n");
        assert(full@ =~= assets() + content@);
    }
    replace_blocks(full.as_str())
}

} // verus!
