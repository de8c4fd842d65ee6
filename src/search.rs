//! Turning free text into a full-text prefix query.
use vstd::prelude::*;
use vstd::string::StringExecFns;
use crate::text::push_char;

verus! {

/// Whether a character is alphanumeric, as std defines it.
pub uninterp spec fn alnum(c: char) -> bool;

/// Whether a character is white space, as std defines it.
pub uninterp spec fn white(c: char) -> bool;

/// Relies on `char::is_alphanumeric`: the answer depends on the character alone.
#[verifier::external_body]
fn is_alnum(c: char) -> (r: bool)
    ensures
        r == alnum(c),
{
    c.is_alphanumeric()
}

/// Relies on `char::is_whitespace`: the answer depends on the character alone.
#[verifier::external_body]
fn is_white(c: char) -> (r: bool)
    ensures
        r == white(c),
{
    c.is_whitespace()
}

/// The characters of `s` that are alphanumeric or white space, in order.
pub open spec fn kept(s: Seq<char>) -> Seq<char>
    decreases s.len(),
{
    if s.len() == 0 {
        Seq::empty()
    } else if alnum(s.last()) || white(s.last()) {
        kept(s.drop_last()).push(s.last())
    } else {
        kept(s.drop_last())
    }
}

/// Splitting at white space: the finished words, and the word still being read.
pub open spec fn split(t: Seq<char>) -> (Seq<Seq<char>>, Seq<char>)
    decreases t.len(),
{
    if t.len() == 0 {
        (Seq::empty(), Seq::empty())
    } else {
        let (done, cur) = split(t.drop_last());
        if white(t.last()) {
            if cur.len() > 0 {
                (done.push(cur), Seq::empty())
            } else {
                (done, Seq::empty())
            }
        } else {
            (done, cur.push(t.last()))
        }
    }
}

/// The maximal runs of characters that are not white space.
pub open spec fn words(t: Seq<char>) -> Seq<Seq<char>> {
    let (done, cur) = split(t);
    if cur.len() > 0 {
        done.push(cur)
    } else {
        done
    }
}

/// Each word followed by `*`, separated by single spaces.
pub open spec fn join_prefixes(ws: Seq<Seq<char>>) -> Seq<char>
    decreases ws.len(),
{
    if ws.len() == 0 {
        Seq::empty()
    } else if ws.len() == 1 {
        ws[0].push('*')
    } else {
        join_prefixes(ws.drop_last()).push(' ') + ws.last().push('*')
    }
}

/// The prefix query for a text: characters other than letters, digits and white space
/// are dropped, and each remaining word becomes a prefix term.
pub open spec fn fts_query(s: Seq<char>) -> Seq<char> {
    join_prefixes(words(kept(s)))
}

fn keep_searchable(s: &str) -> (r: String)
    ensures
        r@ == kept(s@),
{
    let n = s.unicode_len();
    let mut out = String::new();
    let mut i: usize = 0;
    while i < n
        invariant
            n == s@.len(),
            i <= n,
            out@ == kept(s@.subrange(0, i as int)),
        decreases n - i,
    {
        let c = s.get_char(i);
        assert(s@.subrange(0, i + 1).drop_last() =~= s@.subrange(0, i as int));
        if is_alnum(c) || is_white(c) {
            push_char(&mut out, c);
        }
        i = i + 1;
    }
    assert(s@.subrange(0, n as int) =~= s@);
    out
}

/// Views of a list of strings.
pub open spec fn views(v: Seq<String>) -> Seq<Seq<char>> {
    Seq::new(v.len(), |i: int| v[i]@)
}

fn split_words(t: &str) -> (r: Vec<String>)
    ensures
        views(r@) == words(t@),
{
    let n = t.unicode_len();
    let mut done: Vec<String> = Vec::new();
    let mut cur = String::new();
    let mut i: usize = 0;
    while i < n
        invariant
            n == t@.len(),
            i <= n,
            split(t@.subrange(0, i as int)) == (views(done@), cur@),
        decreases n - i,
    {
        let c = t.get_char(i);
        assert(t@.subrange(0, i + 1).drop_last() =~= t@.subrange(0, i as int));
        if is_white(c) {
            if cur.as_str().unicode_len() > 0 {
                let ghost before = views(done@);
                done.push(cur);
                assert(views(done@) =~= before.push(views(done@).last()));
                cur = String::new();
            }
        } else {
            push_char(&mut cur, c);
        }
        i = i + 1;
    }
    assert(t@.subrange(0, n as int) =~= t@);
    if cur.as_str().unicode_len() > 0 {
        let ghost before = views(done@);
        done.push(cur);
        assert(views(done@) =~= before.push(views(done@).last()));
    }
    done
}

/// Turns a text into a prefix query: drops characters other than letters, digits and
/// white space, then writes each word followed by `*`, separated by single spaces.
pub fn escape_fts_query(query: &str) -> (r: String)
    ensures
        r@ == fts_query(query@),
{
    let cleaned = keep_searchable(query);
    let ws = split_words(cleaned.as_str());
    let mut out = String::new();
    let mut i: usize = 0;
    while i < ws.len()
        invariant
            i <= ws@.len(),
            out@ == join_prefixes(views(ws@).subrange(0, i as int)),
        decreases ws@.len() - i,
    {
        let ghost pre = views(ws@).subrange(0, i + 1);
        assert(pre.drop_last() =~= views(ws@).subrange(0, i as int));
        if i > 0 {
            push_char(&mut out, ' ');
        }
        out.append(ws[i].as_str());
        push_char(&mut out, '*');
        proof {
            if i == 0 {
                assert(out@ =~= pre[0].push('*'));
            } else {
                assert(out@ =~= join_prefixes(pre.drop_last()).push(' ') + pre.last().push('*'));
            }
        }
        i = i + 1;
    }
    assert(views(ws@).subrange(0, i as int) =~= views(ws@));
    out
}

} // verus!
