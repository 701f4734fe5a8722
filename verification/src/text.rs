//! Small helpers on text.

use vstd::prelude::*;

verus! {

/// `str`'s `==`: two string slices are equal exactly when they hold the same
/// characters.
pub assume_specification[ <str as PartialEq>::eq ](a: &str, b: &str) -> (r: bool)
    ensures
        r == (a@ == b@),
;

/// Whether `a` and `b` hold the same characters.
pub fn same_text(a: &str, b: &str) -> (r: bool)
    ensures
        r == (a@ == b@),
{
    a.eq(b)
}

/// The characters of `s`, in order.
pub fn chars_of(s: &str) -> (v: Vec<char>)
    ensures
        v@ == s@,
{
    let mut v: Vec<char> = Vec::new();
    for c in it: s.chars()
        invariant
            it.seq() == s@,
            v@ == s@.take(it.index() as int),
    {
        v.push(c);
        assert(s@.take(it.index() + 1) == s@.take(it.index() as int).push(c));
    }
    v
}

/// Position of the first `c` in `s`, or the length of `s` where there is none.
pub open spec fn index_of(s: Seq<char>, c: char) -> int
    decreases s.len(),
{
    if s.len() == 0 {
        0
    } else if s[0] == c {
        0
    } else {
        1 + index_of(s.skip(1), c)
    }
}

/// Whether `c` occurs nowhere in `s`.
pub open spec fn free_of(s: Seq<char>, c: char) -> bool {
    forall|i: int| 0 <= i < s.len() ==> s[i] != c
}

/// `index_of` is the least position that holds `c`.
pub proof fn lemma_index_of(s: Seq<char>, c: char)
    ensures
        0 <= index_of(s, c) <= s.len(),
        index_of(s, c) < s.len() ==> s[index_of(s, c)] == c,
        forall|i: int| 0 <= i < index_of(s, c) ==> s[i] != c,
    decreases s.len(),
{
    if s.len() > 0 && s[0] != c {
        let rest = s.skip(1);
        lemma_index_of(rest, c);
        assert forall|i: int| 0 <= i < index_of(s, c) implies s[i] != c by {
            if i > 0 {
                assert(s[i] == rest[i - 1]);
            }
        }
    }
}

/// A position that holds `c` with no earlier one doing so is `index_of`.
pub proof fn lemma_index_of_is(s: Seq<char>, c: char, at: int)
    requires
        0 <= at <= s.len(),
        at < s.len() ==> s[at] == c,
        forall|i: int| 0 <= i < at ==> s[i] != c,
    ensures
        index_of(s, c) == at,
{
    lemma_index_of(s, c);
}

/// Position of the first `c` in `chars[from..to]`, or `to` where there is none.
pub(crate) fn find_char(chars: &Vec<char>, from: usize, to: usize, c: char) -> (at: usize)
    requires
        from <= to <= chars.len(),
    ensures
        from <= at <= to,
        at == from + index_of(chars@.subrange(from as int, to as int), c),
{
    let mut at: usize = from;
    while at < to && chars[at] != c
        invariant
            from <= at <= to <= chars.len(),
            forall|i: int| from <= i < at ==> chars@[i] != c,
        decreases to - at,
    {
        at = at + 1;
    }
    proof {
        let part = chars@.subrange(from as int, to as int);
        assert forall|i: int| 0 <= i < at - from implies part[i] != c by {
            assert(part[i] == chars@[from + i]);
        }
        lemma_index_of_is(part, c, at - from);
    }
    at
}

/// `s` in lower case, as Unicode defines it.
pub uninterp spec fn lowercase_of(s: Seq<char>) -> Seq<char>;

/// `str::to_lowercase`: the text in lower case.
#[verifier::external_body]
fn to_lowercase(s: &str) -> (r: String)
    ensures
        r@ == lowercase_of(s@),
{
    s.to_lowercase()
}

/// The two names of a storage type, derived from the name it was declared
/// with: the internal identifier, which is the declared name in lower case,
/// and the schema-facing identifier, which is the declared name itself.
pub fn format_name(input: &str) -> (r: (String, String))
    ensures
        r.0@ == lowercase_of(input@),
        r.1@ == input@,
{
    (to_lowercase(input), input.to_owned())
}

/// Whether `c` is a quote character, double or single.
pub open spec fn is_quote(c: char) -> bool {
    c == '"' || c == '\''
}

/// `s` without its quote characters.
pub open spec fn without_quotes(s: Seq<char>) -> Seq<char>
    decreases s.len(),
{
    if s.len() == 0 {
        Seq::empty()
    } else if is_quote(s.last()) {
        without_quotes(s.drop_last())
    } else {
        without_quotes(s.drop_last()).push(s.last())
    }
}

/// Removes every quote character, double or single, from `s`.
///
/// An identifier may arrive written as a string literal, quotes included;
/// this gives the key to look it up by.
pub fn remove_quotes(s: &str) -> (r: String)
    ensures
        r@ == without_quotes(s@),
{
    let chars = chars_of(s);
    let n = chars.len();
    let mut r = String::new();
    let mut start: usize = 0;
    let mut i: usize = 0;
    assert(s@.take(0) == Seq::<char>::empty());
    assert(r@ + s@.subrange(0, 0) == Seq::<char>::empty());
    while i < n
        invariant
            chars@ == s@,
            n == chars.len(),
            start <= i <= n,
            r@ + s@.subrange(start as int, i as int) == without_quotes(s@.take(i as int)),
        decreases n - i,
    {
        let c = chars[i];
        proof {
            let next = s@.take(i + 1);
            assert(next.drop_last() == s@.take(i as int));
            assert(next.last() == c);
        }
        if c == '"' || c == '\'' {
            r.append(s.substring_char(start, i));
            start = i + 1;
            assert(s@.subrange(start as int, start as int) == Seq::<char>::empty());
            assert(r@ + s@.subrange(start as int, start as int) == r@);
        } else {
            assert(s@.subrange(start as int, i + 1) == s@.subrange(start as int, i as int).push(c));
            assert(r@ + s@.subrange(start as int, i as int).push(c) == (r@ + s@.subrange(
                start as int,
                i as int,
            )).push(c));
        }
        i = i + 1;
    }
    r.append(s.substring_char(start, n));
    assert(s@.take(n as int) == s@);
    r
}

/// Quote characters leave no trace: a text with quotes added anywhere is
/// stripped to what the text without them is stripped to.
pub proof fn lemma_without_quotes_concat(a: Seq<char>, b: Seq<char>)
    ensures
        without_quotes(a + b) == without_quotes(a) + without_quotes(b),
    decreases b.len(),
{
    if b.len() == 0 {
        assert(a + b == a);
        assert(without_quotes(a) + without_quotes(b) == without_quotes(a));
    } else {
        assert((a + b).drop_last() == a + b.drop_last());
        assert((a + b).last() == b.last());
        lemma_without_quotes_concat(a, b.drop_last());
        if !is_quote(b.last()) {
            assert((without_quotes(a) + without_quotes(b.drop_last())).push(b.last())
                == without_quotes(a) + without_quotes(b.drop_last()).push(b.last()));
        }
    }
}

/// An identifier that holds no quote character is its own key.
pub proof fn law_plain_key(s: Seq<char>)
    requires
        forall|i: int| 0 <= i < s.len() ==> !is_quote(#[trigger] s[i]),
    ensures
        without_quotes(s) == s,
    decreases s.len(),
{
    if s.len() > 0 {
        let front = s.drop_last();
        assert forall|i: int| 0 <= i < front.len() implies !is_quote(#[trigger] front[i]) by {
            assert(front[i] == s[i]);
        }
        law_plain_key(front);
        assert(!is_quote(s[s.len() - 1]));
        assert(front.push(s.last()) == s);
    }
}

/// An identifier written with surrounding quotes and the same identifier
/// written without give the same key.
pub proof fn law_quoted_key(id: Seq<char>, quote: char)
    requires
        is_quote(quote),
    ensures
        without_quotes(seq![quote] + id + seq![quote]) == without_quotes(id),
{
    let q = seq![quote];
    lemma_without_quotes_concat(q + id, q);
    lemma_without_quotes_concat(q, id);
    assert(q.drop_last() == Seq::<char>::empty());
    assert(without_quotes(q.drop_last()) == Seq::<char>::empty());
    assert(without_quotes(q) == Seq::<char>::empty());
    assert(Seq::<char>::empty() + without_quotes(id) + Seq::<char>::empty() == without_quotes(id));
}

} // verus!
