//! Queries to the transcript database.
use vstd::prelude::*;


verus! {

/// A character inside a quoted phrase: a double quote is written twice.
pub open spec fn quoted_char(c: char) -> Seq<char> {
    if c == '"' {
        seq!['"', '"']
    } else {
        seq![c]
    }
}

/// `s` with every double quote written twice.
pub open spec fn doubled(s: Seq<char>) -> Seq<char>
    decreases s.len(),
{
    if s.len() == 0 {
        Seq::empty()
    } else {
        doubled(s.drop_last()) + quoted_char(s.last())
    }
}

/// The query as a quoted phrase.
pub open spec fn phrase_of(query: Seq<char>) -> Seq<char> {
    seq!['"'] + doubled(query) + seq!['"']
}

/// Sanitize a user query for FTS5 MATCH: wrap in double quotes to treat as literal phrase.
pub fn sanitize_fts_query(query: &str) -> (r: String)
    ensures
        r@ == phrase_of(query@),
{
    let mut out: String = String::new();
    out.push('"');
    assert(out@ == seq!['"'] + doubled(query@.take(0)));
    for c in it: query.chars()
        invariant
            it.seq() == query@,
            out@ == seq!['"'] + doubled(query@.take(it.index())),
    {
        let ghost i = it.index();
        let ghost before = out@;
        assert(query@.take(i + 1).drop_last() == query@.take(i));
        assert(query@.take(i + 1).last() == c);
        out.push(c);
        if c == '"' {
            out.push('"');
        }
        assert(out@ == before + quoted_char(c));
    }
    assert(query@.take(query@.len() as int) == query@);
    let ghost before = out@;
    out.push('"');
    assert(out@ == before + seq!['"']);
    out
}

/// How a quoted phrase is read from `i` on, behind its opening quote: what it stands for and
/// where it ends, behind its closing quote. A quote written twice stands for one.
pub open spec fn read_phrase(s: Seq<char>, i: int) -> Option<(Seq<char>, int)>
    decreases s.len() - i,
{
    if i < 0 || i >= s.len() {
        None
    } else if s[i] != '"' {
        match read_phrase(s, i + 1) {
            Some((rest, end)) => Some((seq![s[i]] + rest, end)),
            None => None,
        }
    } else if i + 1 < s.len() && s[i + 1] == '"' {
        match read_phrase(s, i + 2) {
            Some((rest, end)) => Some((seq!['"'] + rest, end)),
            None => None,
        }
    } else {
        Some((Seq::empty(), i + 1))
    }
}

proof fn lemma_doubled_front(s: Seq<char>)
    requires
        s.len() > 0,
    ensures
        doubled(s) == quoted_char(s[0]) + doubled(s.drop_first()),
    decreases s.len(),
{
    if s.len() == 1 {
        assert(s.drop_last() == Seq::<char>::empty());
        assert(s.drop_first() == Seq::<char>::empty());
        assert(doubled(s.drop_last()) == Seq::<char>::empty());
        assert(doubled(s) == quoted_char(s[0]) + doubled(s.drop_first()));
    } else {
        let t = s.drop_last();
        lemma_doubled_front(t);
        assert(t.drop_first() == s.drop_first().drop_last());
        assert(s.drop_first().last() == s.last());
        assert(doubled(s) == quoted_char(s[0]) + doubled(s.drop_first()));
    }
}

proof fn lemma_read(a: Seq<char>, q: Seq<char>)
    ensures
        ({
            let s = a + doubled(q) + seq!['"'];
            read_phrase(s, a.len() as int) == Some((q, s.len() as int))
        }),
    decreases q.len(),
{
    let s = a + doubled(q) + seq!['"'];
    let i = a.len() as int;
    if q.len() == 0 {
        assert(s[i] == '"');
        assert(q == Seq::<char>::empty());
    } else {
        lemma_doubled_front(q);
        let b = a + quoted_char(q[0]);
        let rest = q.drop_first();
        lemma_read(b, rest);
        assert(b + doubled(rest) + seq!['"'] == s);
        assert(seq![q[0]] + rest == q);
        assert(s[i] == b[i]);
        if q[0] == '"' {
            assert(s[i + 1] == b[i + 1]);
        }
    }
}

/// Whatever the user types, the sanitized query is one quoted phrase, from its first character to
/// its last, and stands for exactly what was typed.
pub proof fn law_phrase_is_literal(query: Seq<char>)
    ensures
        phrase_of(query)[0] == '"',
        read_phrase(phrase_of(query), 1) == Some((query, phrase_of(query).len() as int)),
{
    lemma_read(seq!['"'], query);
}

} // verus!
