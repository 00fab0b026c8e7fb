//! Small helpers on strings.
use vstd::prelude::*;

verus! {

/// Whether `s` begins with the characters of `p`.
pub open spec fn has_prefix(s: Seq<char>, p: Seq<char>) -> bool {
    p.len() <= s.len() && s.subrange(0, p.len() as int) == p
}

/// Whether two strings hold the same characters.
pub fn same_text(a: &str, b: &str) -> (r: bool)
    ensures
        r == (a@ == b@),
{
    let left = a.to_owned();
    let right = b.to_owned();
    left == right
}

/// Whether `s` begins with `prefix`.
pub fn starts_with(s: &str, prefix: &str) -> (r: bool)
    ensures
        r == has_prefix(s@, prefix@),
{
    let n = prefix.unicode_len();
    if s.unicode_len() < n {
        return false;
    }
    let mut i: usize = 0;
    while i < n
        invariant
            i <= n,
            n == prefix@.len(),
            n <= s@.len(),
            s@.subrange(0, i as int) == prefix@.subrange(0, i as int),
        decreases n - i,
    {
        if s.get_char(i) != prefix.get_char(i) {
            proof {
                assert(s@.subrange(0, n as int)[i as int] != prefix@[i as int]);
            }
            return false;
        }
        proof {
            assert(s@.subrange(0, i + 1) =~= s@.subrange(0, i as int).push(s@[i as int]));
            assert(prefix@.subrange(0, i + 1) =~= prefix@.subrange(0, i as int).push(
                prefix@[i as int],
            ));
        }
        i = i + 1;
    }
    proof {
        assert(prefix@.subrange(0, n as int) =~= prefix@);
    }
    true
}

/// How many opening brackets a text may hold to be read as a literal.
pub const NESTING_LIMIT: usize = 64;

/// How many characters an element of a list may have to be read.
pub const ELEMENT_LIMIT: usize = 32;

/// Whether `c` opens a bracket.
pub open spec fn opens(c: char) -> bool {
    c == '(' || c == '[' || c == '{'
}

/// The number of opening brackets in `text`. No nesting of brackets in `text`
/// is deeper than this.
pub open spec fn brackets(text: Seq<char>) -> nat
    decreases text.len(),
{
    if text.len() == 0 {
        0
    } else {
        brackets(text.drop_last()) + if opens(text.last()) {
            1nat
        } else {
            0nat
        }
    }
}

/// Whether `text` holds no more opening brackets than a literal is read with.
pub open spec fn shallow(text: Seq<char>) -> bool {
    brackets(text) <= NESTING_LIMIT
}

/// Whether `text` is one pair of double quotes with no double quote between
/// them: as a whole it is one string literal or none, whatever brackets it holds.
pub open spec fn one_string(text: Seq<char>) -> bool {
    &&& text.len() >= 2
    &&& text[0] == '"'
    &&& text.last() == '"'
    &&& forall|i: int| 0 < i < text.len() - 1 ==> text[i] != '"'
}

/// Whether `c` can stand in a list of integer literals: a digit, a letter, an
/// underscore, a blank, a tab or a line feed.
pub open spec fn list_char(c: char) -> bool {
    ('0' <= c <= '9') || ('a' <= c <= 'z') || ('A' <= c <= 'Z') || c == '_' || c == ' ' || c
        == '\t' || c == '\n'
}

/// The length of the run of characters behind the last comma of `text`.
pub open spec fn tail_run(text: Seq<char>) -> nat
    decreases text.len(),
{
    if text.len() == 0 || text.last() == ',' {
        0
    } else {
        tail_run(text.drop_last()) + 1
    }
}

/// Whether `text` is a flat list: it holds commas and the characters of
/// integer literals only, and no run between two commas is longer than an
/// element may be. Such a text has no brackets, no operators, no quotes and no
/// comments.
pub open spec fn flat(text: Seq<char>) -> bool {
    &&& forall|i: int| 0 <= i < text.len() ==> list_char(#[trigger] text[i]) || text[i] == ','
    &&& forall|n: int| 0 <= n <= text.len() ==> tail_run(#[trigger] text.take(n)) <= ELEMENT_LIMIT
}

/// Whether `text` is a flat list between one pair of square brackets.
pub open spec fn flat_array(text: Seq<char>) -> bool {
    &&& text.len() >= 2
    &&& text[0] == '['
    &&& text.last() == ']'
    &&& flat(text.subrange(1, text.len() - 1))
}

/// A beginning of a text holds no more opening brackets than the text.
pub proof fn lemma_brackets_grow(text: Seq<char>, n: int)
    requires
        0 <= n <= text.len(),
    ensures
        brackets(text.take(n)) <= brackets(text),
    decreases text.len() - n,
{
    if n < text.len() {
        lemma_brackets_grow(text, n + 1);
        assert(text.take(n + 1).drop_last() =~= text.take(n));
    } else {
        assert(text.take(n) =~= text);
    }
}

/// Whether `text` holds no more opening brackets than a literal is read with.
pub fn is_shallow(text: &str) -> (r: bool)
    ensures
        r == shallow(text@),
{
    let mut count: usize = 0;
    let chars = text.chars();
    for c in it: chars
        invariant
            it.seq() == text@,
            count as nat == brackets(text@.take(it.index() as int)),
            count <= NESTING_LIMIT,
    {
        proof {
            let grown = text@.take(it.index() + 1);
            assert(grown.drop_last() =~= text@.take(it.index() as int));
            assert(grown.last() == c);
        }
        if c == '(' || c == '[' || c == '{' {
            if count == NESTING_LIMIT {
                proof {
                    lemma_brackets_grow(text@, it.index() + 1);
                }
                return false;
            }
            count = count + 1;
        }
    }
    proof {
        assert(text@.take(text@.len() as int) =~= text@);
    }
    true
}

/// Whether `text` holds a double quote.
pub fn has_quote(text: &str) -> (r: bool)
    ensures
        r == exists|i: int| 0 <= i < text@.len() && text@[i] == '"',
{
    let chars = text.chars();
    for c in it: chars
        invariant
            it.seq() == text@,
            forall|i: int| 0 <= i < it.index() ==> text@[i] != '"',
    {
        if c == '"' {
            assert(text@[it.index() as int] == '"');
            return true;
        }
    }
    false
}

/// Whether `text` is a flat list.
pub fn is_flat(text: &str) -> (r: bool)
    ensures
        r == flat(text@),
{
    let mut run: usize = 0;
    let chars = text.chars();
    proof {
        assert(text@.take(0) =~= Seq::<char>::empty());
    }
    for c in it: chars
        invariant
            it.seq() == text@,
            run as nat == tail_run(text@.take(it.index() as int)),
            run <= ELEMENT_LIMIT,
            forall|i: int| 0 <= i < it.index() ==> list_char(#[trigger] text@[i]) || text@[i] == ',',
            forall|n: int| 0 <= n <= it.index() ==> tail_run(#[trigger] text@.take(n)) <= ELEMENT_LIMIT,
    {
        proof {
            let grown = text@.take(it.index() + 1);
            assert(grown.drop_last() =~= text@.take(it.index() as int));
            assert(grown.last() == c);
        }
        if c == ',' {
            run = 0;
        } else if ('0' <= c && c <= '9') || ('a' <= c && c <= 'z') || ('A' <= c && c <= 'Z') || c
            == '_' || c == ' ' || c == '\t' || c == '\n' {
            if run == ELEMENT_LIMIT {
                assert(tail_run(text@.take(it.index() + 1)) > ELEMENT_LIMIT);
                return false;
            }
            run = run + 1;
        } else {
            assert(!(list_char(text@[it.index() as int]) || text@[it.index() as int] == ','));
            return false;
        }
    }
    true
}

} // verus!
