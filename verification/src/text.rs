//! Text as sequences of characters: whitespace, words, joining, searching.
use vstd::prelude::*;

verus! {

/// `String::push` appends one character.
pub assume_specification[ String::push ](s: &mut String, c: char)
    ensures
        final(s)@ == old(s)@.push(c),
;

/// `String::pop` removes and returns the last character, if there is one.
pub assume_specification[ String::pop ](s: &mut String) -> (r: Option<char>)
    ensures
        old(s)@.len() == 0 ==> r is None && final(s)@ == old(s)@,
        old(s)@.len() > 0 ==> r == Some(old(s)@.last()) && final(s)@ == old(s)@.drop_last(),
;

/// The characters with the Unicode property `White_Space`.
pub open spec fn white(c: char) -> bool {
    let n = c as u32;
    ||| 0x09 <= n <= 0x0d
    ||| n == 0x20
    ||| n == 0x85
    ||| n == 0xa0
    ||| n == 0x1680
    ||| 0x2000 <= n <= 0x200a
    ||| n == 0x2028
    ||| n == 0x2029
    ||| n == 0x202f
    ||| n == 0x205f
    ||| n == 0x3000
}

/// Whether `c` is white space.
pub fn is_white(c: char) -> (r: bool)
    ensures
        r == white(c),
{
    let n: u32 = c as u32;
    (0x09 <= n && n <= 0x0d) || n == 0x20 || n == 0x85 || n == 0xa0 || n == 0x1680 || (0x2000 <= n
        && n <= 0x200a) || n == 0x2028 || n == 0x2029 || n == 0x202f || n == 0x205f || n == 0x3000
}

/// What `str::to_lowercase` makes of a text.
pub uninterp spec fn lowercase(s: Seq<char>) -> Seq<char>;

/// `c` with an ASCII capital turned small.
pub open spec fn ascii_small(c: char) -> char {
    if 'A' <= c <= 'Z' {
        (c as u8 + 32) as char
    } else {
        c
    }
}

/// `s` in lower case, by `str::to_lowercase`. The result is a function of the text; on ASCII text
/// it is the text with `A` to `Z` turned into `a` to `z`.
#[verifier::external_body]
pub(crate) fn to_lowercase(s: &str) -> (r: String)
    ensures
        r@ == lowercase(s@),
        vstd::utf8::is_ascii_chars(s@) ==> r@ == s@.map_values(|c: char| ascii_small(c)),
{
    s.to_lowercase()
}

/// Whether `char::is_alphanumeric` holds of a character.
pub uninterp spec fn alphanumeric(c: char) -> bool;

/// Whether `c` is a letter or a number, by `char::is_alphanumeric`: a function of `c` alone. In
/// ASCII these are the digits and the letters from `A` to `Z` and from `a` to `z`.
#[verifier::external_body]
pub(crate) fn is_alphanumeric(c: char) -> (r: bool)
    ensures
        r == alphanumeric(c),
        (c as u32) < 0x80 ==> r == ('0' <= c <= '9' || 'A' <= c <= 'Z' || 'a' <= c <= 'z'),
{
    c.is_alphanumeric()
}

/// The words of `s`: its maximal runs of characters that are not white space, in order.
pub open spec fn words(s: Seq<char>) -> Seq<Seq<char>>
    decreases s.len(),
{
    if s.len() == 0 {
        Seq::empty()
    } else {
        let before = words(s.drop_last());
        let c = s.last();
        if white(c) {
            before
        } else if s.len() == 1 || white(s[s.len() - 2]) {
            before.push(seq![c])
        } else {
            before.drop_last().push(before.last().push(c))
        }
    }
}

/// `parts` one after the other, with `sep` between neighbours.
pub open spec fn join(parts: Seq<Seq<char>>, sep: Seq<char>) -> Seq<char>
    decreases parts.len(),
{
    if parts.len() == 0 {
        Seq::empty()
    } else if parts.len() == 1 {
        parts[0]
    } else {
        join(parts.drop_last(), sep) + sep + parts.last()
    }
}

/// `s` without the white space at its end.
pub open spec fn trim_end(s: Seq<char>) -> Seq<char>
    decreases s.len(),
{
    if s.len() > 0 && white(s.last()) {
        trim_end(s.drop_last())
    } else {
        s
    }
}

/// `s` without the white space at its start.
pub open spec fn trim_start(s: Seq<char>) -> Seq<char>
    decreases s.len(),
{
    if s.len() > 0 && white(s[0]) {
        trim_start(s.drop_first())
    } else {
        s
    }
}

/// `s` without the white space around it.
pub open spec fn trim(s: Seq<char>) -> Seq<char> {
    trim_end(trim_start(s))
}

/// The characters of `s` that are not white space, in order.
pub open spec fn ink(s: Seq<char>) -> Seq<char> {
    s.filter(|c: char| !white(c))
}

/// The first `n` characters of `s`, or all of them.
pub open spec fn at_most(s: Seq<char>, n: int) -> Seq<char> {
    if s.len() <= n {
        s
    } else if n <= 0 {
        Seq::empty()
    } else {
        s.take(n)
    }
}

/// What stays is the start of `s`, as much of it as `n` characters allow.
pub proof fn law_at_most(s: Seq<char>, n: int)
    requires
        n >= 0,
    ensures
        at_most(s, n).len() <= n,
        at_most(s, n).len() == n || at_most(s, n) == s,
        at_most(s, n) == s.take(at_most(s, n).len() as int),
{
    assert(s.take(s.len() as int) == s);
}

/// The characters of `s`.
pub fn chars_of(s: &str) -> (r: Vec<char>)
    ensures
        r@ == s@,
{
    let mut out: Vec<char> = Vec::new();
    for c in it: s.chars()
        invariant
            out@ == s@.take(it.index()),
            it.seq() == s@,
    {
        out.push(c);
        assert(s@.take(it.index() + 1) == s@.take(it.index()).push(c));
    }
    assert(s@.take(s@.len() as int) == s@);
    out
}

/// Whether two strings hold the same characters.
pub fn same_str(a: &str, b: &str) -> (r: bool)
    ensures
        r == (a@ == b@),
{
    let mut x = a.chars();
    let mut y = b.chars();
    let ghost mut i: int = 0;
    assert(a@.skip(0) == a@ && b@.skip(0) == b@);
    loop
        invariant
            0 <= i <= a@.len(),
            i <= b@.len(),
            a@.take(i) == b@.take(i),
            vstd::std_specs::iter::IteratorSpec::remaining(&x) == a@.skip(i),
            vstd::std_specs::iter::IteratorSpec::remaining(&y) == b@.skip(i),
        decreases a@.len() - i,
    {
        match (x.next(), y.next()) {
            (Some(p), Some(q)) => {
                assert(p == a@[i] && q == b@[i]);
                if p != q {
                    return false;
                }
                assert(a@.take(i + 1) == a@.take(i).push(p));
                assert(b@.take(i + 1) == b@.take(i).push(q));
                assert(a@.skip(i).drop_first() == a@.skip(i + 1));
                assert(b@.skip(i).drop_first() == b@.skip(i + 1));
                proof {
                    i = i + 1;
                }
            },
            (None, None) => {
                assert(a@.take(i) == a@ && b@.take(i) == b@);
                return true;
            },
            _ => {
                return false;
            },
        }
    }
}

/// The words of `s`.
pub fn split_words(s: &str) -> (r: Vec<String>)
    ensures
        r.deep_view() == words(s@),
{
    let mut out: Vec<String> = Vec::new();
    let mut current: String = String::new();
    let mut inside: bool = false;
    for c in it: s.chars()
        invariant
            it.seq() == s@,
            inside ==> it.index() > 0 && !white(s@[it.index() - 1]),
            !inside ==> it.index() == 0 || white(s@[it.index() - 1]),
            words(s@.take(it.index())) == if inside {
                out.deep_view().push(current@)
            } else {
                out.deep_view()
            },
            !inside ==> current@.len() == 0,
    {
        let ghost i = it.index();
        let ghost before = out.deep_view();
        assert(s@.take(i + 1).drop_last() == s@.take(i));
        assert(s@.take(i + 1).last() == c);
        if is_white(c) {
            if inside {
                out.push(current);
                assert(out.deep_view() == before.push(current@));
                current = String::new();
                inside = false;
            }
        } else {
            let ghost had = current@;
            current.push(c);
            proof {
                if inside {
                    assert(before.push(had).drop_last() == before);
                    assert(words(s@.take(i + 1)) == before.push(had.push(c)));
                } else {
                    assert(had.push(c) == seq![c]);
                    assert(words(s@.take(i + 1)) == before.push(seq![c]));
                }
            }
            inside = true;
        }
    }
    assert(s@.take(s@.len() as int) == s@);
    if inside {
        let ghost before = out.deep_view();
        let ghost last = current@;
        out.push(current);
        assert(out.deep_view() == before.push(last));
    }
    out
}

/// `s` without the white space around it.
pub fn trimmed(s: &str) -> (r: String)
    ensures
        r@ == trim(s@),
{
    let chars = chars_of(s);
    let mut from: usize = 0;
    assert(chars@.skip(0) == chars@);
    while from < chars.len() && is_white(chars[from])
        invariant
            from <= chars.len(),
            trim_start(chars@.skip(from as int)) == trim_start(chars@),
        decreases chars.len() - from,
    {
        assert(chars@.skip(from as int).drop_first() == chars@.skip(from + 1));
        from = from + 1;
    }
    let ghost rest = chars@.skip(from as int);
    assert(trim_start(chars@) == rest);
    let mut to: usize = chars.len();
    assert(rest.take(to - from) == rest);
    while from < to && is_white(chars[to - 1])
        invariant
            from <= to <= chars.len(),
            rest == chars@.skip(from as int),
            trim_end(rest.take(to - from)) == trim_end(rest),
        decreases to,
    {
        assert(rest.take(to - from).last() == chars@[to - 1]);
        assert(rest.take(to - from).drop_last() == rest.take(to - from - 1));
        to = to - 1;
    }
    proof {
        if from < to {
            assert(rest.take(to - from).last() == chars@[to - 1]);
        }
    }
    let r = string_from(&chars, from, to);
    assert(r@ == rest.take(to - from));
    r
}

/// The string of `chars[from..to]`.
pub fn string_from(chars: &Vec<char>, from: usize, to: usize) -> (r: String)
    requires
        from <= to <= chars.len(),
    ensures
        r@ == chars@.subrange(from as int, to as int),
{
    let mut out: String = String::new();
    let mut i: usize = from;
    while i < to
        invariant
            from <= i <= to <= chars.len(),
            out@ == chars@.subrange(from as int, i as int),
        decreases to - i,
    {
        out.push(chars[i]);
        assert(chars@.subrange(from as int, i + 1) == chars@.subrange(from as int, i as int).push(
            chars@[i as int],
        ));
        i = i + 1;
    }
    out
}

/// The strings of `parts[from..to]` joined with `sep`.
pub fn join_range(parts: &Vec<String>, from: usize, to: usize, sep: &str) -> (r: String)
    requires
        from <= to <= parts.len(),
    ensures
        r@ == join(parts.deep_view().subrange(from as int, to as int), sep@),
{
    let mut out: String = String::new();
    let mut i: usize = from;
    let ghost all = parts.deep_view();
    while i < to
        invariant
            from <= i <= to <= parts.len(),
            all == parts.deep_view(),
            out@ == join(all.subrange(from as int, i as int), sep@),
        decreases to - i,
    {
        let ghost now = all.subrange(from as int, i + 1);
        assert(now.drop_last() == all.subrange(from as int, i as int));
        assert(now.last() == parts[i as int]@);
        if i > from {
            out.append(sep);
        }
        out.append(parts[i].as_str());
        proof {
            if i == from {
                assert(out@ == parts[i as int]@);
                assert(now[0] == parts[i as int]@);
            }
        }
        i = i + 1;
    }
    out
}

/// The strings of `parts` joined with `sep`.
pub fn joined(parts: &Vec<String>, sep: &str) -> (r: String)
    ensures
        r@ == join(parts.deep_view(), sep@),
{
    assert(parts.deep_view().subrange(0, parts.len() as int) == parts.deep_view());
    join_range(parts, 0, parts.len(), sep)
}

/// The strings of `list`, owned.
pub fn owned(list: &[&str]) -> (r: Vec<String>)
    ensures
        r.deep_view() == list.deep_view(),
{
    let mut out: Vec<String> = Vec::new();
    let mut i: usize = 0;
    while i < list.len()
        invariant
            i <= list.len(),
            out.deep_view() == list.deep_view().take(i as int),
        decreases list.len() - i,
    {
        let ghost before = out.deep_view();
        out.push(list[i].to_owned());
        assert(out.deep_view() == before.push(list@[i as int]@));
        assert(list.deep_view().take(i + 1) == list.deep_view().take(i as int).push(
            list.deep_view()[i as int],
        ));
        i = i + 1;
    }
    assert(list.deep_view().take(list.len() as int) == list.deep_view());
    out
}

/// Copies of `parts`.
pub fn copies(parts: &Vec<String>) -> (r: Vec<String>)
    ensures
        r.deep_view() == parts.deep_view(),
{
    let mut out: Vec<String> = Vec::new();
    let mut i: usize = 0;
    while i < parts.len()
        invariant
            i <= parts.len(),
            out.deep_view() == parts.deep_view().take(i as int),
        decreases parts.len() - i,
    {
        let ghost before = out.deep_view();
        out.push(parts[i].clone());
        assert(out.deep_view() == before.push(parts[i as int]@));
        assert(parts.deep_view().take(i + 1) == parts.deep_view().take(i as int).push(
            parts.deep_view()[i as int],
        ));
        i = i + 1;
    }
    assert(parts.deep_view().take(parts.len() as int) == parts.deep_view());
    out
}

/// Puts a copy of `s` behind `out`.
pub fn push_copy(out: &mut Vec<String>, s: &str)
    ensures
        final(out).deep_view() == old(out).deep_view().push(s@),
{
    let ghost before = out.deep_view();
    out.push(s.to_owned());
    assert(out.deep_view() == before.push(s@));
}

/// A copy of a text that may be missing.
pub fn copy_option(s: &Option<String>) -> (r: Option<String>)
    ensures
        r.deep_view() == s.deep_view(),
{
    match s {
        Some(t) => Some(t.clone()),
        None => None,
    }
}

/// `s` without its last character, if it has one.
pub open spec fn popped(s: Seq<char>) -> Seq<char> {
    if s.len() > 0 {
        s.drop_last()
    } else {
        s
    }
}

/// An optional text without its last character.
pub open spec fn popped_option(s: Option<Seq<char>>) -> Option<Seq<char>> {
    match s {
        Some(t) => Some(popped(t)),
        None => None,
    }
}

/// An optional text with `c` behind it; a missing text is empty.
pub open spec fn pushed_option(s: Option<Seq<char>>, c: char) -> Option<Seq<char>> {
    match s {
        Some(t) => Some(t.push(c)),
        None => Some(seq![c]),
    }
}

/// Takes the last character off an optional text.
pub fn pop_option(s: &mut Option<String>)
    ensures
        final(s).deep_view() == popped_option(old(s).deep_view()),
{
    match s.take() {
        Some(t) => {
            let mut out = t;
            out.pop();
            *s = Some(out);
        },
        None => {},
    }
}

/// Puts `c` behind an optional text.
pub fn push_option(s: &mut Option<String>, c: char)
    ensures
        final(s).deep_view() == pushed_option(old(s).deep_view(), c),
{
    let mut out = match s.take() {
        Some(t) => t,
        None => String::new(),
    };
    let ghost had = out@;
    out.push(c);
    assert(had.len() == 0 ==> out@ == seq![c]);
    *s = Some(out);
}

/// Whether `all` holds `s`.
pub fn holds(all: &Vec<String>, s: &str) -> (r: bool)
    ensures
        r == all.deep_view().contains(s@),
{
    let mut i: usize = 0;
    let ghost list = all.deep_view();
    while i < all.len()
        invariant
            i <= all.len(),
            list == all.deep_view(),
            forall|j: int| 0 <= j < i ==> #[trigger] list[j] != s@,
        decreases all.len() - i,
    {
        assert(list[i as int] == all[i as int]@);
        if same_str(all[i].as_str(), s) {
            assert(list[i as int] == s@);
            return true;
        }
        i = i + 1;
    }
    false
}

/// `a`, then `b`.
pub fn cat(a: &str, b: &str) -> (r: String)
    ensures
        r@ == a@ + b@,
{
    let mut out = a.to_owned();
    out.append(b);
    out
}

/// `a`, then `b`, then `c`.
pub fn cat3(a: &str, b: &str, c: &str) -> (r: String)
    ensures
        r@ == a@ + b@ + c@,
{
    let mut out = a.to_owned();
    out.append(b);
    out.append(c);
    out
}

/// The first `n` characters of `s`, or all of them.
pub fn first_chars(s: &str, n: usize) -> (r: String)
    ensures
        r@ == at_most(s@, n as int),
{
    let chars = chars_of(s);
    let to: usize = if chars.len() < n {
        chars.len()
    } else {
        n
    };
    let r = string_from(&chars, 0, to);
    assert(r@ == at_most(s@, n as int));
    r
}

// ---------------------------------------------------------------------------
// Bytes
// ---------------------------------------------------------------------------

/// How many bytes a character takes in UTF-8.
pub open spec fn char_bytes(c: char) -> nat {
    let n = c as u32;
    if n < 0x80 {
        1
    } else if n < 0x800 {
        2
    } else if n < 0x10000 {
        3
    } else {
        4
    }
}

/// How many bytes a text takes in UTF-8.
pub open spec fn bytes_of(s: Seq<char>) -> nat
    decreases s.len(),
{
    if s.len() == 0 {
        0
    } else {
        char_bytes(s[0]) + bytes_of(s.drop_first())
    }
}

/// The first `n` bytes of a text, or all of it; `None` if that would end inside a character.
pub open spec fn first_bytes_of(s: Seq<char>, n: nat) -> Option<Seq<char>>
    decreases s.len(),
{
    if s.len() == 0 || n == 0 {
        Some(Seq::empty())
    } else if char_bytes(s[0]) > n {
        None
    } else {
        match first_bytes_of(s.drop_first(), (n - char_bytes(s[0])) as nat) {
            Some(rest) => Some(seq![s[0]] + rest),
            None => None,
        }
    }
}

/// How many bytes a character takes in UTF-8.
pub fn byte_width(c: char) -> (r: usize)
    ensures
        r == char_bytes(c),
{
    let n: u32 = c as u32;
    if n < 0x80 {
        1
    } else if n < 0x800 {
        2
    } else if n < 0x10000 {
        3
    } else {
        4
    }
}

/// How many bytes a text takes in UTF-8.
pub fn byte_len(s: &str) -> (r: u128)
    ensures
        r == bytes_of(s@),
{
    let chars = chars_of(s);
    let mut n: u128 = 0;
    let mut i: usize = chars.len();
    assert(chars@.skip(i as int) == Seq::<char>::empty());
    while i > 0
        invariant
            i <= chars.len(),
            n == bytes_of(chars@.skip(i as int)),
            n <= 4 * (chars.len() - i),
        decreases i,
    {
        i = i - 1;
        assert(chars@.skip(i as int).drop_first() == chars@.skip(i + 1));
        n = n + byte_width(chars[i]) as u128;
    }
    assert(chars@.skip(0) == chars@);
    n
}

/// The first `n` bytes of `chars[from..to]`, or all of it; `None` if that would end inside a
/// character.
pub fn first_bytes(chars: &Vec<char>, from: usize, to: usize, n: usize) -> (r: Option<String>)
    requires
        from <= to <= chars.len(),
    ensures
        r.deep_view() == first_bytes_of(chars@.subrange(from as int, to as int), n as nat),
        r matches Some(t) ==> bytes_of(t@) <= n,
{
    let ghost all = chars@.subrange(from as int, to as int);
    let mut out: String = String::new();
    let mut left: usize = n;
    let mut i: usize = from;
    assert(all.skip(0) == all);
    while i < to && left > 0
        invariant
            from <= i <= to <= chars.len(),
            left <= n,
            all == chars@.subrange(from as int, to as int),
            bytes_of(out@) + left == n,
            first_bytes_of(all, n as nat) == match first_bytes_of(
                all.skip(i - from),
                left as nat,
            ) {
                Some(rest) => Some(out@ + rest),
                None => None,
            },
        decreases to - i,
    {
        let ghost rest = all.skip(i - from);
        assert(rest[0] == chars@[i as int]);
        assert(rest.drop_first() == all.skip(i - from + 1));
        let w = byte_width(chars[i]);
        if w > left {
            return None;
        }
        let ghost had = out@;
        out.push(chars[i]);
        proof {
            lemma_bytes_push(had, chars@[i as int]);
            let more = first_bytes_of(all.skip(i - from + 1), (left - w) as nat);
            if more is Some {
                assert(had + (seq![chars@[i as int]] + more->0) == out@ + more->0);
            }
        }
        left = left - w;
        i = i + 1;
    }
    assert(out@ + Seq::<char>::empty() == out@);
    Some(out)
}

pub proof fn lemma_bytes_push(s: Seq<char>, c: char)
    ensures
        bytes_of(s.push(c)) == bytes_of(s) + char_bytes(c),
    decreases s.len(),
{
    if s.len() == 0 {
        assert(s.push(c).drop_first() == Seq::<char>::empty());
        assert(bytes_of(Seq::<char>::empty()) == 0);
    } else {
        lemma_bytes_push(s.drop_first(), c);
        assert(s.push(c).drop_first() == s.drop_first().push(c));
    }
}

/// `n` spaces.
pub open spec fn spaces_of(n: nat) -> Seq<char> {
    Seq::new(n, |i: int| ' ')
}

/// `n` spaces.
pub fn spaces(n: usize) -> (r: String)
    ensures
        r@ == spaces_of(n as nat),
{
    let mut out: String = String::new();
    let mut i: usize = 0;
    while i < n
        invariant
            i <= n,
            out@ == spaces_of(i as nat),
        decreases n - i,
    {
        out.push(' ');
        assert(out@ == spaces_of((i + 1) as nat));
        i = i + 1;
    }
    out
}

// ---------------------------------------------------------------------------
// Searching
// ---------------------------------------------------------------------------

/// Whether `p` stands at `i` in `s`.
pub open spec fn stands_at(s: Seq<char>, p: Seq<char>, i: int) -> bool {
    0 <= i && i + p.len() <= s.len() && s.subrange(i, i + p.len()) == p
}

/// Where `p` first stands in `s` at `i` or behind it.
pub open spec fn find_from(s: Seq<char>, p: Seq<char>, i: int) -> Option<int>
    decreases s.len() + 1 - i,
{
    if i + p.len() > s.len() {
        None
    } else if stands_at(s, p, i) {
        Some(i)
    } else {
        find_from(s, p, i + 1)
    }
}

/// Whether `p` stands anywhere in `s`.
pub open spec fn occurs(s: Seq<char>, p: Seq<char>) -> bool {
    exists|i: int| stands_at(s, p, i)
}

/// What is left of `s` behind the prefix `p`.
pub open spec fn behind_prefix(s: Seq<char>, p: Seq<char>) -> Option<Seq<char>> {
    if stands_at(s, p, 0) {
        Some(s.skip(p.len() as int))
    } else {
        None
    }
}

/// What is left of `s` before the suffix `p`.
pub open spec fn before_suffix(s: Seq<char>, p: Seq<char>) -> Option<Seq<char>> {
    if stands_at(s, p, s.len() - p.len()) {
        Some(s.take(s.len() - p.len()))
    } else {
        None
    }
}

/// Whether `p` stands at `i` in `s`.
pub fn is_at(s: &Vec<char>, p: &Vec<char>, i: usize) -> (r: bool)
    ensures
        r == stands_at(s@, p@, i as int),
{
    if i > s.len() || p.len() > s.len() - i {
        return false;
    }
    let ghost here = s@.subrange(i as int, i + p@.len());
    let mut k: usize = 0;
    while k < p.len()
        invariant
            k <= p.len(),
            i + p.len() <= s.len(),
            here == s@.subrange(i as int, i + p@.len()),
            forall|j: int| 0 <= j < k ==> here[j] == p@[j],
        decreases p.len() - k,
    {
        assert(here[k as int] == s@[i + k]);
        if s[i + k] != p[k] {
            return false;
        }
        k = k + 1;
    }
    assert(here == p@);
    true
}

/// Where `p` first stands in `s` at `from` or behind it.
pub fn find(s: &Vec<char>, p: &Vec<char>, from: usize) -> (r: Option<usize>)
    requires
        from <= s.len(),
    ensures
        match r {
            Some(i) => find_from(s@, p@, from as int) == Some(i as int),
            None => find_from(s@, p@, from as int) is None,
        },
{
    let mut i: usize = from;
    while i <= s.len() && p.len() <= s.len() - i
        invariant
            from <= i <= s.len() + 1,
            find_from(s@, p@, from as int) == find_from(s@, p@, i as int),
        decreases s.len() + 1 - i,
    {
        if is_at(s, p, i) {
            return Some(i);
        }
        if i == s.len() {
            assert(s@.subrange(i as int, i + p@.len()) == p@);
            return None;
        }
        i = i + 1;
    }
    None
}

/// Whether `p` stands anywhere in `s`.
pub fn contains_text(s: &str, p: &str) -> (r: bool)
    ensures
        r == occurs(s@, p@),
{
    let a = chars_of(s);
    let b = chars_of(p);
    proof {
        lemma_find(a@, b@, 0);
    }
    find(&a, &b, 0).is_some()
}

pub proof fn lemma_find(s: Seq<char>, p: Seq<char>, i: int)
    requires
        0 <= i,
    ensures
        match find_from(s, p, i) {
            Some(k) => i <= k && stands_at(s, p, k) && forall|j: int|
                i <= j < k ==> !stands_at(s, p, j),
            None => forall|j: int| i <= j ==> !stands_at(s, p, j),
        },
    decreases s.len() + 1 - i,
{
    if i + p.len() > s.len() {
    } else if stands_at(s, p, i) {
    } else {
        lemma_find(s, p, i + 1);
    }
}

/// What is left of `s` behind the prefix `p`.
pub fn strip_prefix(s: &str, p: &str) -> (r: Option<String>)
    ensures
        r.deep_view() == behind_prefix(s@, p@),
{
    let a = chars_of(s);
    let b = chars_of(p);
    if is_at(&a, &b, 0) {
        let rest = string_from(&a, b.len(), a.len());
        assert(rest@ == s@.skip(p@.len() as int));
        Some(rest)
    } else {
        None
    }
}

/// What is left of `s` before the suffix `p`.
pub fn strip_suffix(s: &str, p: &str) -> (r: Option<String>)
    ensures
        r.deep_view() == before_suffix(s@, p@),
{
    let a = chars_of(s);
    let b = chars_of(p);
    if b.len() <= a.len() && is_at(&a, &b, a.len() - b.len()) {
        let rest = string_from(&a, 0, a.len() - b.len());
        assert(rest@ == s@.take(s@.len() - p@.len()));
        Some(rest)
    } else {
        None
    }
}

/// Whether `value` stands behind `flag` in `args`.
pub open spec fn given(args: Seq<Seq<char>>, flag: Seq<char>, value: Seq<char>) -> bool {
    exists|i: int| 0 <= i < args.len() - 1 && #[trigger] args[i] == flag && args[i + 1] == value
}

/// `s` without the run of `c` at its end.
pub open spec fn without_last(s: Seq<char>, c: char) -> Seq<char>
    decreases s.len(),
{
    if s.len() > 0 && s.last() == c {
        without_last(s.drop_last(), c)
    } else {
        s
    }
}

/// Only the run of `c` at the end goes: what stays is the start of `s` and does not end in `c`, and
/// everything behind it is `c`.
pub proof fn law_without_last(s: Seq<char>, c: char)
    ensures
        without_last(s, c).len() <= s.len(),
        without_last(s, c) == s.take(without_last(s, c).len() as int),
        without_last(s, c).len() > 0 ==> without_last(s, c).last() != c,
        forall|i: int| without_last(s, c).len() <= i < s.len() ==> #[trigger] s[i] == c,
    decreases s.len(),
{
    if s.len() > 0 && s.last() == c {
        let t = s.drop_last();
        law_without_last(t, c);
        let n = without_last(t, c).len() as int;
        assert(t.take(n) == s.take(n));
        assert forall|i: int| n <= i < s.len() implies #[trigger] s[i] == c by {
            if i < t.len() {
                assert(t[i] == c);
            }
        }
    } else {
        assert(s.take(s.len() as int) == s);
    }
}

/// `s` without the run of `c` at its end.
pub fn trim_end_char(s: &str, c: char) -> (r: String)
    ensures
        r@ == without_last(s@, c),
{
    let a = chars_of(s);
    let mut n: usize = a.len();
    assert(a@.take(n as int) == a@);
    while n > 0 && a[n - 1] == c
        invariant
            n <= a.len(),
            without_last(a@.take(n as int), c) == without_last(a@, c),
        decreases n,
    {
        assert(a@.take(n as int).drop_last() == a@.take(n - 1));
        assert(a@.take(n as int).last() == a@[n - 1]);
        n = n - 1;
    }
    proof {
        if n > 0 {
            assert(a@.take(n as int).last() == a@[n - 1]);
        }
    }
    let r = string_from(&a, 0, n);
    assert(r@ == a@.take(n as int));
    r
}

// ---------------------------------------------------------------------------
// White space does not carry text
// ---------------------------------------------------------------------------

/// The characters of `parts` that are not white space, in order.
pub open spec fn ink_of(parts: Seq<Seq<char>>) -> Seq<char>
    decreases parts.len(),
{
    if parts.len() == 0 {
        Seq::empty()
    } else {
        ink_of(parts.drop_last()) + ink(parts.last())
    }
}

pub proof fn lemma_ink_push(s: Seq<char>, c: char)
    ensures
        white(c) ==> ink(s.push(c)) == ink(s),
        !white(c) ==> ink(s.push(c)) == ink(s).push(c),
{
    reveal(Seq::filter);
    assert(s.push(c).drop_last() == s);
}

pub proof fn lemma_ink_empty()
    ensures
        ink(Seq::<char>::empty()) == Seq::<char>::empty(),
{
    reveal(Seq::filter);
}

pub proof fn lemma_ink_add(a: Seq<char>, b: Seq<char>)
    ensures
        ink(a + b) == ink(a) + ink(b),
    decreases b.len(),
{
    if b.len() == 0 {
        lemma_ink_empty();
        assert(b == Seq::<char>::empty());
        assert(a + b == a);
        assert(ink(a) + ink(b) == ink(a));
    } else {
        lemma_ink_add(a, b.drop_last());
        lemma_ink_push(b.drop_last(), b.last());
        lemma_ink_push(a + b.drop_last(), b.last());
        assert(b.drop_last().push(b.last()) == b);
        assert((a + b.drop_last()).push(b.last()) == a + b);
        assert(ink(a + b) == ink(a) + ink(b));
    }
}

pub proof fn lemma_ink_of_push(parts: Seq<Seq<char>>, p: Seq<char>)
    ensures
        ink_of(parts.push(p)) == ink_of(parts) + ink(p),
{
    assert(parts.push(p).drop_last() == parts);
}

pub proof fn lemma_ink_of_add(a: Seq<Seq<char>>, b: Seq<Seq<char>>)
    ensures
        ink_of(a + b) == ink_of(a) + ink_of(b),
    decreases b.len(),
{
    if b.len() == 0 {
        assert(a + b == a);
        assert(ink_of(a) + ink_of(b) == ink_of(a));
    } else {
        lemma_ink_of_add(a, b.drop_last());
        assert((a + b).drop_last() == a + b.drop_last());
        assert(ink_of(a + b) == ink_of(a) + ink_of(b));
    }
}

/// Joining with a space adds no ink.
pub proof fn lemma_ink_join(parts: Seq<Seq<char>>)
    ensures
        ink(join(parts, " "@)) == ink_of(parts),
    decreases parts.len(),
{
    lemma_ink_empty();
    if parts.len() == 0 {
    } else if parts.len() == 1 {
        assert(parts.drop_last() == Seq::<Seq<char>>::empty());
        assert(ink_of(parts.drop_last()) == Seq::<char>::empty());
        assert(ink_of(parts) == ink(parts[0]));
    } else {
        lemma_ink_join(parts.drop_last());
        reveal_strlit(" ");
        assert(" "@ == Seq::<char>::empty().push(' '));
        lemma_ink_push(Seq::<char>::empty(), ' ');
        lemma_ink_add(join(parts.drop_last(), " "@), " "@);
        lemma_ink_add(join(parts.drop_last(), " "@) + " "@, parts.last());
        assert(ink(join(parts, " "@)) == ink_of(parts));
    }
}

pub proof fn lemma_ink_trim(s: Seq<char>)
    ensures
        ink(trim(s)) == ink(s),
{
    lemma_ink_trim_start(s);
    lemma_ink_trim_end(trim_start(s));
}

proof fn lemma_ink_trim_start(s: Seq<char>)
    ensures
        ink(trim_start(s)) == ink(s),
    decreases s.len(),
{
    if s.len() > 0 && white(s[0]) {
        lemma_ink_trim_start(s.drop_first());
        lemma_ink_empty();
        lemma_ink_push(Seq::<char>::empty(), s[0]);
        lemma_ink_add(Seq::<char>::empty().push(s[0]), s.drop_first());
        assert(Seq::<char>::empty().push(s[0]) + s.drop_first() == s);
        assert(ink(s) == ink(s.drop_first()));
    }
}

proof fn lemma_ink_trim_end(s: Seq<char>)
    ensures
        ink(trim_end(s)) == ink(s),
    decreases s.len(),
{
    if s.len() > 0 && white(s.last()) {
        lemma_ink_trim_end(s.drop_last());
        lemma_ink_push(s.drop_last(), s.last());
        assert(s.drop_last().push(s.last()) == s);
    }
}

/// A trimmed text is empty exactly when there was no ink.
pub proof fn lemma_trim_empty(s: Seq<char>)
    ensures
        (trim(s).len() == 0) == (ink(s).len() == 0),
{
    lemma_ink_trim(s);
    lemma_ink_empty();
    let t = trim(s);
    if t.len() > 0 {
        lemma_trim_end_last(trim_start(s));
        lemma_ink_push(t.drop_last(), t.last());
        assert(t.drop_last().push(t.last()) == t);
    } else {
        assert(t == Seq::<char>::empty());
    }
}

proof fn lemma_trim_end_last(s: Seq<char>)
    ensures
        trim_end(s).len() > 0 ==> !white(trim_end(s).last()),
    decreases s.len(),
{
    if s.len() > 0 && white(s.last()) {
        lemma_trim_end_last(s.drop_last());
    }
}

/// Trimming takes away the white space around a text and nothing else: what stays is a part of the
/// text that begins and ends with ink, and all around it is white space. Trimming again changes
/// nothing.
pub proof fn law_trim(s: Seq<char>)
    ensures
        exists|a: int, b: int|
            {
                &&& 0 <= a <= b <= s.len()
                &&& trim(s) == #[trigger] s.subrange(a, b)
                &&& forall|i: int| 0 <= i < a || b <= i < s.len() ==> white(#[trigger] s[i])
            },
        trim(s).len() > 0 ==> !white(trim(s)[0]) && !white(trim(s).last()),
        trim(trim(s)) == trim(s),
{
    lemma_trim_start_part(s);
    let t = trim_start(s);
    lemma_trim_end_part(t);
    lemma_trim_end_last(t);
    let a = s.len() - t.len();
    let b = a + trim(s).len();
    assert(trim(s) == s.subrange(a, b));
    assert forall|i: int| 0 <= i < a || b <= i < s.len() implies white(#[trigger] s[i]) by {
        if b <= i {
            assert(t[i - a] == s[i]);
        }
    }
}

proof fn lemma_trim_start_part(s: Seq<char>)
    ensures
        trim_start(s).len() <= s.len(),
        trim_start(s) == s.skip(s.len() - trim_start(s).len()),
        trim_start(s).len() > 0 ==> !white(trim_start(s)[0]),
        forall|i: int| 0 <= i < s.len() - trim_start(s).len() ==> white(#[trigger] s[i]),
    decreases s.len(),
{
    if s.len() > 0 && white(s[0]) {
        let t = s.drop_first();
        lemma_trim_start_part(t);
        let n = t.len() - trim_start(t).len();
        assert(t.skip(n) == s.skip(n + 1));
        assert forall|i: int| 0 <= i < n + 1 implies white(#[trigger] s[i]) by {
            if i > 0 {
                assert(white(t[i - 1]));
            }
        }
    } else {
        assert(s.skip(0) == s);
    }
}

proof fn lemma_trim_end_part(s: Seq<char>)
    ensures
        trim_end(s).len() <= s.len(),
        trim_end(s) == s.take(trim_end(s).len() as int),
        forall|i: int| trim_end(s).len() <= i < s.len() ==> white(#[trigger] s[i]),
    decreases s.len(),
{
    if s.len() > 0 && white(s.last()) {
        let t = s.drop_last();
        lemma_trim_end_part(t);
        let n = trim_end(t).len() as int;
        assert(t.take(n) == s.take(n));
        assert forall|i: int| n <= i < s.len() implies white(#[trigger] s[i]) by {
            if i < t.len() {
                assert(white(t[i]));
            }
        }
    } else {
        assert(s.take(s.len() as int) == s);
    }
}

/// Ink is never longer than the text.
pub proof fn lemma_ink_len(s: Seq<char>)
    ensures
        ink(s).len() <= s.len(),
    decreases s.len(),
{
    lemma_ink_empty();
    if s.len() == 0 {
        assert(s == Seq::<char>::empty());
    } else {
        lemma_ink_len(s.drop_last());
        lemma_ink_push(s.drop_last(), s.last());
        assert(s.drop_last().push(s.last()) == s);
    }
}

// ---------------------------------------------------------------------------
// Words
// ---------------------------------------------------------------------------

/// A word: not empty, no white space inside.
pub open spec fn is_word(w: Seq<char>) -> bool {
    &&& w.len() > 0
    &&& forall|i: int| 0 <= i < w.len() ==> !white(#[trigger] w[i])
}

pub open spec fn all_words(ws: Seq<Seq<char>>) -> bool {
    forall|i: int| 0 <= i < ws.len() ==> is_word(#[trigger] ws[i])
}

/// The words of a text are words, carry all of its ink, and there is one at least when it ends
/// in ink.
pub proof fn lemma_words(s: Seq<char>)
    ensures
        all_words(words(s)),
        ink_of(words(s)) == ink(s),
        words(s).len() <= ink(s).len(),
        s.len() > 0 && !white(s.last()) ==> words(s).len() > 0,
        2 * words(s).len() <= s.len() + 1,
        s.len() > 0 && white(s.last()) ==> 2 * words(s).len() <= s.len(),
    decreases s.len(),
{
    lemma_ink_empty();
    if s.len() == 0 {
        assert(s == Seq::<char>::empty());
    } else {
        let t = s.drop_last();
        let c = s.last();
        let before = words(t);
        lemma_words(t);
        lemma_ink_push(t, c);
        assert(t.push(c) == s);
        if white(c) {
        } else if s.len() == 1 || white(s[s.len() - 2]) {
            lemma_ink_of_push(before, seq![c]);
            lemma_ink_push(Seq::<char>::empty(), c);
            assert(Seq::<char>::empty().push(c) == seq![c]);
            assert(ink(seq![c]) == seq![c]);
            assert(ink(s) == ink(t) + seq![c]);
        } else {
            assert(t.last() == s[s.len() - 2]);
            let w = before.last();
            assert(is_word(w));
            assert(is_word(w.push(c)));
            lemma_ink_of_push(before.drop_last(), w.push(c));
            lemma_ink_push(w, c);
            assert(ink_of(words(s)) == ink(s));
        }
    }
}

/// Adding a word behind white space adds that word.
proof fn lemma_words_append(a: Seq<char>, w: Seq<char>)
    requires
        is_word(w),
        a.len() == 0 || white(a.last()),
    ensures
        words(a + w) == words(a).push(w),
    decreases w.len(),
{
    let s = a + w;
    let t = w.drop_last();
    assert(s.drop_last() == a + t);
    assert(s.last() == w.last());
    if w.len() == 1 {
        assert(a + t == a);
        assert(w == seq![w.last()]);
        if s.len() > 1 {
            assert(s[s.len() - 2] == a.last());
        }
    } else {
        assert forall|i: int| 0 <= i < t.len() implies !white(#[trigger] t[i]) by {
            assert(t[i] == w[i]);
        }
        lemma_words_append(a, t);
        assert(s[s.len() - 2] == t.last());
        assert(words(a).push(t).drop_last() == words(a));
        assert(t.push(w.last()) == w);
    }
}

/// The words of two texts, the first of which ends in white space or is empty, are those of each.
proof fn lemma_words_add(a: Seq<char>, b: Seq<char>)
    requires
        a.len() == 0 || white(a.last()),
    ensures
        words(a + b) == words(a) + words(b),
    decreases b.len(),
{
    if b.len() == 0 {
        assert(a + b == a);
        assert(words(a) + words(b) == words(a));
    } else {
        let s = a + b;
        let t = b.drop_last();
        lemma_words_add(a, t);
        assert(s.drop_last() == a + t);
        assert(s.last() == b.last());
        if b.len() > 1 {
            assert(s[s.len() - 2] == b[b.len() - 2]);
            assert(t.last() == b[b.len() - 2]);
            lemma_words(t);
        } else if a.len() > 0 {
            assert(s[s.len() - 2] == a.last());
        }
        assert(words(s) == words(a) + words(b));
    }
}

/// The words of two texts with a space between them are those of each.
pub proof fn lemma_words_spaced(a: Seq<char>, b: Seq<char>)
    ensures
        words(a + " "@ + b) == words(a) + words(b),
{
    reveal_strlit(" ");
    let c = a + " "@;
    assert(c.drop_last() == a);
    assert(c.last() == ' ');
    lemma_words_add(c, b);
}

/// Words joined by single spaces are the words of the result.
pub proof fn lemma_words_join(ws: Seq<Seq<char>>)
    requires
        all_words(ws),
    ensures
        words(join(ws, " "@)) == ws,
    decreases ws.len(),
{
    if ws.len() == 0 {
    } else if ws.len() == 1 {
        assert(is_word(ws[0]));
        lemma_words_append(Seq::<char>::empty(), ws[0]);
        assert(Seq::<char>::empty() + ws[0] == ws[0]);
        assert(words(ws[0]) == ws);
    } else {
        let a = join(ws.drop_last(), " "@);
        assert(is_word(ws.last()));
        assert forall|i: int| 0 <= i < ws.drop_last().len() implies is_word(
            #[trigger] ws.drop_last()[i],
        ) by {
            assert(is_word(ws[i]));
        }
        lemma_words_join(ws.drop_last());
        reveal_strlit(" ");
        let b = a + " "@;
        assert(b.drop_last() == a);
        assert(b.last() == ' ');
        assert(words(b) == words(a));
        lemma_words_append(b, ws.last());
        assert(words(join(ws, " "@)) == ws);
    }
}

/// How a text falls into words: white space, whatever it is, parts them; what holds none and is not
/// empty is one word; and what is empty is none.
pub proof fn law_words(a: Seq<char>, c: char, b: Seq<char>, w: Seq<char>)
    ensures
        words(Seq::empty()).len() == 0,
        white(c) ==> words(a.push(c) + b) == words(a) + words(b),
        is_word(w) ==> words(w) == seq![w],
{
    if white(c) {
        assert(a.push(c).drop_last() == a);
        lemma_words_add(a.push(c), b);
    }
    if is_word(w) {
        lemma_words_append(Seq::empty(), w);
        assert(Seq::<char>::empty() + w == w);
        assert(words(Seq::<char>::empty()).push(w) == seq![w]);
    }
}

/// One part more stands behind the others, with the separator between.
pub proof fn law_join(parts: Seq<Seq<char>>, p: Seq<char>, sep: Seq<char>)
    ensures
        join(Seq::empty(), sep).len() == 0,
        join(seq![p], sep) == p,
        parts.len() > 0 ==> join(parts.push(p), sep) == join(parts, sep) + sep + p,
{
    assert(parts.push(p).drop_last() == parts);
}

/// What the first bytes of a text hold is the start of the text. It is the whole text where that
/// fits, and else exactly as many bytes as were asked for.
pub proof fn law_first_bytes(s: Seq<char>, n: nat)
    ensures
        bytes_of(s) <= n ==> first_bytes_of(s, n) == Some(s),
        first_bytes_of(s, n) matches Some(t) ==> {
            &&& t.len() <= s.len()
            &&& t == s.take(t.len() as int)
            &&& t == s || bytes_of(t) == n
        },
    decreases s.len(),
{
    if s.len() == 0 {
        assert(s == Seq::<char>::empty());
        assert(s.take(0) == s);
    } else if n == 0 {
        assert(s.take(0) == Seq::<char>::empty());
    } else if char_bytes(s[0]) <= n {
        let m = (n - char_bytes(s[0])) as nat;
        let r = s.drop_first();
        law_first_bytes(r, m);
        assert(seq![s[0]] + r == s);
        if first_bytes_of(r, m) is Some {
            let u = first_bytes_of(r, m)->0;
            let t = seq![s[0]] + u;
            assert(t.drop_first() == u);
            assert(t == s.take(t.len() as int));
        }
    }
}

/// Spaces, tabs and line ends are white space; no letter, digit or sign of ASCII is, and neither are
/// the characters of other scripts between the wide spaces.
pub proof fn law_white(c: char)
    ensures
        white(' ') && white('\t') && white('\n') && white('\r'),
        white('\u{85}') && white('\u{a0}') && white('\u{3000}'),
        '!' <= c <= '~' ==> !white(c),
        '\u{a1}' <= c <= '\u{167f}' ==> !white(c),
        '\u{2000}' <= c <= '\u{200a}' ==> white(c),
        c > '\u{3000}' ==> !white(c),
{
}

} // verus!
