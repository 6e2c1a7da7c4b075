//! Text helpers that the domain rules share.
use vstd::prelude::*;

verus! {

/// Whether a character is white space, as Unicode's White_Space property
/// says: the controls from tab to carriage return, space, next line, no-break
/// space, ogham space mark, the spaces from en quad to hair space, the line
/// and paragraph separators, narrow no-break space, medium mathematical space
/// and ideographic space.
pub open spec fn whitespace(c: char) -> bool {
    let v = c as u32;
    ||| 0x09 <= v <= 0x0d
    ||| v == 0x20
    ||| v == 0x85
    ||| v == 0xa0
    ||| v == 0x1680
    ||| 0x2000 <= v <= 0x200a
    ||| v == 0x2028
    ||| v == 0x2029
    ||| v == 0x202f
    ||| v == 0x205f
    ||| v == 0x3000
}

/// Whether a character is white space, as `char::is_whitespace` answers.
pub fn is_whitespace(c: char) -> (r: bool)
    ensures
        r == whitespace(c),
{
    let v = c as u32;
    (0x09 <= v && v <= 0x0d) || v == 0x20 || v == 0x85 || v == 0xa0 || v == 0x1680 || (0x2000 <= v && v
        <= 0x200a) || v == 0x2028 || v == 0x2029 || v == 0x202f || v == 0x205f || v == 0x3000
}

/// A text without the white space at its end.
pub open spec fn trim_end_ws(s: Seq<char>) -> Seq<char>
    decreases s.len(),
{
    if s.len() > 0 && whitespace(s.last()) {
        trim_end_ws(s.drop_last())
    } else {
        s
    }
}

/// A text without the white space at its start.
pub open spec fn trim_start_ws(s: Seq<char>) -> Seq<char>
    decreases s.len(),
{
    if s.len() > 0 && whitespace(s[0]) {
        trim_start_ws(s.drop_first())
    } else {
        s
    }
}

/// A text without its leading and trailing white space.
pub open spec fn trimmed(s: Seq<char>) -> Seq<char> {
    trim_start_ws(trim_end_ws(s))
}

proof fn lemma_trim_end_shape(s: Seq<char>)
    ensures
        trim_end_ws(s).len() <= s.len(),
        trim_end_ws(s).len() == 0 || !whitespace(trim_end_ws(s).last()),
        trim_end_ws(s) == s.subrange(0, trim_end_ws(s).len() as int),
    decreases s.len(),
{
    if s.len() > 0 && whitespace(s.last()) {
        lemma_trim_end_shape(s.drop_last());
        let k = trim_end_ws(s).len() as int;
        assert(trim_end_ws(s) == trim_end_ws(s.drop_last()));
        assert(s.drop_last().subrange(0, k) =~= s.subrange(0, k));
    } else {
        assert(s.subrange(0, s.len() as int) =~= s);
    }
}

proof fn lemma_trim_start_shape(s: Seq<char>)
    ensures
        trim_start_ws(s).len() <= s.len(),
        trim_start_ws(s).len() == 0 || !whitespace(trim_start_ws(s)[0]),
        trim_start_ws(s) == s.subrange(s.len() - trim_start_ws(s).len(), s.len() as int),
    decreases s.len(),
{
    if s.len() > 0 && whitespace(s[0]) {
        lemma_trim_start_shape(s.drop_first());
        let t = trim_start_ws(s);
        assert(t == trim_start_ws(s.drop_first()));
        assert(s.drop_first().subrange(s.drop_first().len() - t.len(), s.drop_first().len() as int) =~= s.subrange(
            s.len() - t.len(),
            s.len() as int,
        ));
    } else {
        assert(s.subrange(0, s.len() as int) =~= s);
    }
}

/// Trimming a trimmed text leaves it as it is.
pub proof fn lemma_trimmed_idempotent(s: Seq<char>)
    ensures
        trimmed(trimmed(s)) == trimmed(s),
{
    let e = trim_end_ws(s);
    lemma_trim_end_shape(s);
    let t = trim_start_ws(e);
    lemma_trim_start_shape(e);
    if t.len() > 0 {
        assert(t.last() == e.last());
        assert(trim_end_ws(t) == t);
    } else {
        assert(trim_end_ws(t) == t);
    }
    assert(trim_start_ws(t) == t);
}

/// The text without its leading and trailing white space, as `str::trim`
/// gives it.
pub fn trim_text(text: &str) -> (r: String)
    ensures
        r@ == trimmed(text@),
{
    let n = text.unicode_len();
    let mut end: usize = n;
    assert(text@.subrange(0, n as int) =~= text@);
    loop
        invariant
            end <= n,
            n == text@.len(),
            trim_end_ws(text@) == trim_end_ws(text@.subrange(0, end as int)),
        ensures
            end <= n,
            trim_end_ws(text@) == text@.subrange(0, end as int),
        decreases end,
    {
        if end == 0 || !is_whitespace(text.get_char(end - 1)) {
            assert(trim_end_ws(text@.subrange(0, end as int)) == text@.subrange(0, end as int));
            break;
        }
        assert(text@.subrange(0, end as int).drop_last() =~= text@.subrange(0, end - 1));
        end = end - 1;
    }
    let mut start: usize = 0;
    assert(text@.subrange(0, end as int) =~= text@.subrange(start as int, end as int));
    loop
        invariant
            start <= end,
            end <= n,
            n == text@.len(),
            trimmed(text@) == trim_start_ws(text@.subrange(start as int, end as int)),
        ensures
            start <= end <= n,
            trimmed(text@) == text@.subrange(start as int, end as int),
        decreases end - start,
    {
        if start == end || !is_whitespace(text.get_char(start)) {
            assert(trim_start_ws(text@.subrange(start as int, end as int)) == text@.subrange(
                start as int,
                end as int,
            ));
            break;
        }
        assert(text@.subrange(start as int, end as int).drop_first() =~= text@.subrange(start + 1, end as int));
        start = start + 1;
    }
    text.substring_char(start, end).to_owned()
}

/// The number of Unicode scalar values in a text.
pub fn char_count(text: &str) -> (r: usize)
    ensures
        r == text@.len(),
{
    text.unicode_len()
}

} // verus!

verus! {

/// Lexicographic order of texts by the code points of their characters,
/// which is also the order of their UTF-8 bytes.
pub open spec fn text_lt(a: Seq<char>, b: Seq<char>) -> bool
    decreases a.len(),
{
    if a.len() == 0 {
        b.len() > 0
    } else if b.len() == 0 {
        false
    } else if a[0] != b[0] {
        (a[0] as int) < (b[0] as int)
    } else {
        text_lt(a.drop_first(), b.drop_first())
    }
}

pub proof fn lemma_text_lt_irreflexive(a: Seq<char>)
    ensures
        !text_lt(a, a),
    decreases a.len(),
{
    if a.len() > 0 {
        lemma_text_lt_irreflexive(a.drop_first());
    }
}

pub proof fn lemma_text_lt_transitive(a: Seq<char>, b: Seq<char>, c: Seq<char>)
    requires
        text_lt(a, b),
        text_lt(b, c),
    ensures
        text_lt(a, c),
    decreases a.len(),
{
    if a.len() > 0 && b.len() > 0 && c.len() > 0 {
        if a[0] == b[0] && b[0] == c[0] {
            lemma_text_lt_transitive(a.drop_first(), b.drop_first(), c.drop_first());
        }
    }
}

pub proof fn lemma_text_lt_total(a: Seq<char>, b: Seq<char>)
    ensures
        a == b || text_lt(a, b) || text_lt(b, a),
    decreases a.len(),
{
    if a.len() > 0 && b.len() > 0 {
        if a[0] == b[0] {
            lemma_text_lt_total(a.drop_first(), b.drop_first());
            if a.drop_first() == b.drop_first() {
                assert(a.drop_first().len() == b.drop_first().len());
                assert(a.len() == b.len());
                assert(a =~= b) by {
                    assert forall|i: int| 0 <= i < a.len() implies a[i] == b[i] by {
                        if i > 0 {
                            assert(a[i] == a.drop_first()[i - 1]);
                            assert(b[i] == b.drop_first()[i - 1]);
                        }
                    }
                }
            }
        } else {
            assert((a[0] as int) != (b[0] as int));
        }
    } else if a.len() == 0 && b.len() == 0 {
        assert(a =~= b);
    }
}

pub proof fn lemma_text_lt_asymmetric(a: Seq<char>, b: Seq<char>)
    requires
        text_lt(a, b),
    ensures
        !text_lt(b, a),
{
    if text_lt(b, a) {
        lemma_text_lt_transitive(a, b, a);
        lemma_text_lt_irreflexive(a);
    }
}

/// Whether `a` comes strictly before `b` in the order of texts.
pub fn text_less(a: &str, b: &str) -> (r: bool)
    ensures
        r == text_lt(a@, b@),
{
    let n = a.unicode_len();
    let m = b.unicode_len();
    let mut i: usize = 0;
    proof {
        assert(a@.skip(0) =~= a@);
        assert(b@.skip(0) =~= b@);
    }
    while i < n && i < m
        invariant
            n == a@.len(),
            m == b@.len(),
            i <= n,
            i <= m,
            text_lt(a@, b@) == text_lt(a@.skip(i as int), b@.skip(i as int)),
        decreases n - i,
    {
        let x = a.get_char(i);
        let y = b.get_char(i);
        proof {
            assert(a@.skip(i as int)[0] == x);
            assert(b@.skip(i as int)[0] == y);
        }
        if x != y {
            return (x as u32) < (y as u32);
        }
        proof {
            assert(a@.skip(i as int).drop_first() =~= a@.skip(i + 1));
            assert(b@.skip(i as int).drop_first() =~= b@.skip(i + 1));
        }
        i = i + 1;
    }
    i < m && i == n
}

} // verus!
