//! Text helpers shared by the rest of the library.

use vstd::prelude::*;
use vstd::string::*;

verus! {

/// Equality of two string slices, as `str`'s `PartialEq` computes it: true
/// exactly when both hold the same characters. Trusted, not proved.
pub assume_specification[ <str as PartialEq>::eq ](a: &str, b: &str) -> (r: bool)
    ensures
        r == (a@ == b@),
;

/// The characters of each string of `v`, in order.
pub open spec fn views(v: Seq<String>) -> Seq<Seq<char>> {
    Seq::new(v.len(), |i: int| v[i]@)
}

/// `parts` laid end to end with `sep` between neighbours.
pub open spec fn join(parts: Seq<Seq<char>>, sep: Seq<char>) -> Seq<char>
    decreases parts.len(),
{
    if parts.len() == 0 {
        Seq::empty()
    } else if parts.len() == 1 {
        parts[0]
    } else {
        join(parts.drop_last(), sep) + sep + parts.last()
    }
}

/// Appending one more part to a joined text.
pub proof fn lemma_join_push(parts: Seq<Seq<char>>, last: Seq<char>, sep: Seq<char>)
    ensures
        join(parts.push(last), sep) == if parts.len() == 0 {
            last
        } else {
            join(parts, sep) + sep + last
        },
{
    assert(parts.push(last).drop_last() =~= parts);
}

/// Joins the strings of `parts` from position `start` on, with `sep` between
/// neighbours.
pub fn join_from(parts: &Vec<String>, start: usize, sep: &str) -> (r: String)
    requires
        start <= parts.len(),
    ensures
        r@ == join(views(parts@).skip(start as int), sep@),
{
    let mut out = String::new();
    let mut i: usize = start;
    while i < parts.len()
        invariant
            start <= i <= parts.len(),
            out@ == join(views(parts@).subrange(start as int, i as int), sep@),
        decreases parts.len() - i,
    {
        if i > start {
            out.append(sep);
        }
        out.append(parts[i].as_str());
        proof {
            let done = views(parts@).subrange(start as int, i as int);
            assert(views(parts@).subrange(start as int, i + 1) =~= done.push(parts@[i as int]@));
            lemma_join_push(done, parts@[i as int]@, sep@);
        }
        i += 1;
    }
    proof {
        assert(views(parts@).subrange(start as int, i as int) =~= views(parts@).skip(start as int));
    }
    out
}

/// What `{:?}` prints for a string: the text in double quotes, with the
/// escapes that `str`'s `Debug` applies.
pub uninterp spec fn debug_text(s: Seq<char>) -> Seq<char>;

/// Formats `s` with `{:?}`, that is through `<str as Debug>::fmt`. The
/// result is a function of the characters of `s` alone; it is given the name
/// [`debug_text`] and nothing more is claimed of it.
#[verifier::external_body]
pub(crate) fn debug_string(s: &str) -> (r: String)
    ensures
        r@ == debug_text(s@),
{
    format!("{:?}", s)
}

/// Whether `c` is whitespace: one of the characters with the Unicode
/// property `White_Space`. These are the tab, the line feed, the vertical
/// tab, the form feed, the carriage return and the space; the next-line
/// control and the no-break space; and the spaces and separators of the
/// general punctuation and its neighbours.
pub open spec fn is_whitespace(c: char) -> bool {
    let n = c as u32;
    ||| 0x09 <= n <= 0x0D
    ||| n == 0x20
    ||| n == 0x85
    ||| n == 0xA0
    ||| n == 0x1680
    ||| 0x2000 <= n <= 0x200A
    ||| n == 0x2028
    ||| n == 0x2029
    ||| n == 0x202F
    ||| n == 0x205F
    ||| n == 0x3000
}

/// Calls `char::is_whitespace`, which is true exactly of the characters
/// with the Unicode property `White_Space`: those that [`is_whitespace`]
/// lists. Trusted, not proved.
#[verifier::external_body]
pub(crate) fn char_is_whitespace(c: char) -> (r: bool)
    ensures
        r == is_whitespace(c),
{
    c.is_whitespace()
}

/// `r` is `s` without its trailing whitespace: a prefix of `s` that is empty
/// or ends in a character that is no whitespace, where everything cut off is
/// whitespace.
pub open spec fn is_trim_end_of(r: Seq<char>, s: Seq<char>) -> bool {
    &&& r.len() <= s.len()
    &&& r == s.take(r.len() as int)
    &&& r.len() > 0 ==> !is_whitespace(r.last())
    &&& forall|i: int| r.len() <= i < s.len() ==> is_whitespace(#[trigger] s[i])
}

/// Only one text is `s` without its trailing whitespace.
pub proof fn lemma_trim_end_unique(a: Seq<char>, b: Seq<char>, s: Seq<char>)
    requires
        is_trim_end_of(a, s),
        is_trim_end_of(b, s),
    ensures
        a == b,
{
    if a.len() < b.len() {
        assert(is_whitespace(s[b.len() - 1]));
        assert(b.last() == s.take(b.len() as int)[b.len() - 1]);
    } else if b.len() < a.len() {
        assert(is_whitespace(s[a.len() - 1]));
        assert(a.last() == s.take(a.len() as int)[a.len() - 1]);
    }
}

/// `s` without its trailing whitespace.
pub open spec fn trimmed(s: Seq<char>) -> Seq<char>
    decreases s.len(),
{
    if s.len() > 0 && is_whitespace(s.last()) {
        trimmed(s.drop_last())
    } else {
        s
    }
}

/// [`trimmed`] cuts off the trailing whitespace and nothing else.
pub proof fn lemma_trimmed(s: Seq<char>)
    ensures
        is_trim_end_of(trimmed(s), s),
    decreases s.len(),
{
    if s.len() > 0 && is_whitespace(s.last()) {
        let rest = s.drop_last();
        lemma_trimmed(rest);
        let r = trimmed(rest);
        assert(r =~= s.take(r.len() as int));
        assert forall|i: int| r.len() <= i < s.len() implies is_whitespace(#[trigger] s[i]) by {
            if i < rest.len() {
                assert(s[i] == rest[i]);
            }
        }
    } else {
        assert(s =~= s.take(s.len() as int));
    }
}

/// A text that does not end in whitespace, with a line feed behind it, is
/// trimmed to the text itself.
pub proof fn lemma_trailing_line_feed(s: Seq<char>)
    requires
        s.len() > 0 ==> !is_whitespace(s.last()),
    ensures
        trimmed(s.push('\n')) == s,
{
    let fed = s.push('\n');
    assert(fed.drop_last() =~= s);
    assert(fed.last() == '\n');
    assert(is_whitespace('\n'));
    assert(trimmed(s) == s);
    assert(trimmed(fed) == trimmed(fed.drop_last()));
}

/// How many characters of a text to keep when its trailing whitespace is
/// cut off, where `blank` says of each character whether it is whitespace:
/// all up to the last one that is none.
pub fn kept_len(blank: &Vec<bool>) -> (r: usize)
    ensures
        r <= blank.len(),
        r > 0 ==> !blank@[r - 1],
        forall|i: int| r <= i < blank.len() ==> blank@[i],
{
    let mut keep: usize = blank.len();
    while keep > 0 && blank[keep - 1]
        invariant
            keep <= blank.len(),
            forall|i: int| keep <= i < blank.len() ==> blank@[i],
        decreases keep,
    {
        keep -= 1;
    }
    keep
}

/// Removes trailing whitespace.
pub fn trim_end(s: &str) -> (r: String)
    ensures
        is_trim_end_of(r@, s@),
        r@ == trimmed(s@),
{
    let mut blank: Vec<bool> = Vec::new();
    for c in it: s.chars()
        invariant
            it.seq() == s@,
            blank.len() == it.index(),
            forall|i: int| 0 <= i < blank.len() ==> blank@[i] == is_whitespace(s@[i]),
    {
        blank.push(char_is_whitespace(c));
    }
    let keep = kept_len(&blank);
    let kept = s.substring_char(0, keep);
    proof {
        assert(keep > 0 ==> blank@[keep - 1] == is_whitespace(s@[keep - 1]));
        assert forall|i: int| keep <= i < s@.len() implies is_whitespace(#[trigger] s@[i]) by {
            assert(blank@[i] == is_whitespace(s@[i]));
        }
        assert(kept@ =~= s@.take(keep as int));
        lemma_trimmed(s@);
        lemma_trim_end_unique(kept@, trimmed(s@), s@);
    }
    String::from_str(kept)
}

/// The characters of `s`, one by one.
pub fn to_chars(s: &str) -> (r: Vec<char>)
    ensures
        r@ == s@,
{
    let mut out: Vec<char> = Vec::new();
    for c in it: s.chars()
        invariant
            out@ == it.seq().take(it.index() as int),
            it.seq() == s@,
    {
        out.push(c);
    }
    out
}

/// Whether `c` may stand in the name of a variable override: an ASCII letter,
/// an ASCII digit or `_`.
pub open spec fn is_name_char(c: char) -> bool {
    ('a' <= c && c <= 'z') || ('A' <= c && c <= 'Z') || ('0' <= c && c <= '9') || c == '_'
}

/// `s` reads `KEY=VALUE` with its only `=` at position `i`: name characters
/// before it, no further `=` after it. The key may be empty.
pub open spec fn assignment_at(s: Seq<char>, i: int) -> bool {
    &&& 0 <= i < s.len()
    &&& s[i] == '='
    &&& forall|j: int| 0 <= j < i ==> is_name_char(#[trigger] s[j])
    &&& forall|j: int| i < j < s.len() ==> #[trigger] s[j] != '='
}

/// `s` reads `KEY=VALUE`.
pub open spec fn is_assignment(s: Seq<char>) -> bool {
    exists|i: int| assignment_at(s, i)
}

/// The key of a text that reads `KEY=VALUE`.
pub open spec fn assignment_key(s: Seq<char>) -> Seq<char> {
    s.take(choose|i: int| assignment_at(s, i))
}

/// The value of a text that reads `KEY=VALUE`.
pub open spec fn assignment_value(s: Seq<char>) -> Seq<char> {
    s.skip((choose|i: int| assignment_at(s, i)) + 1)
}

/// A text reads `KEY=VALUE` in one way at most.
pub proof fn lemma_assignment_unique(s: Seq<char>, i: int, j: int)
    requires
        assignment_at(s, i),
        assignment_at(s, j),
    ensures
        i == j,
{
    if i < j {
        assert(s[j] != '=');
    } else if j < i {
        assert(s[i] != '=');
    }
}

/// Whether `c` may stand in a name: an ASCII letter, an ASCII digit or
/// `_`.
pub fn name_char(c: char) -> (r: bool)
    ensures
        r == is_name_char(c),
{
    ('a' <= c && c <= 'z') || ('A' <= c && c <= 'Z') || ('0' <= c && c <= '9') || c == '_'
}

/// Among the first `n` characters of `s` the only `=` stands at `e`.
spec fn only_equals(s: Seq<char>, n: int, e: int) -> bool {
    &&& 0 <= e < n
    &&& s[e] == '='
    &&& forall|j: int| 0 <= j < n && j != e ==> #[trigger] s[j] != '='
}

/// Among the first `n` characters of `s` there are two `=`, at `e` and `f`.
spec fn two_equals(s: Seq<char>, n: int, e: int, f: int) -> bool {
    0 <= e < f < n && s[e] == '=' && s[f] == '='
}

/// Splits `KEY=VALUE` into key and value; `None` for any other text.
pub fn split_assignment(s: &str) -> (r: Option<(String, String)>)
    ensures
        r is Some <==> is_assignment(s@),
        r matches Some(kv) ==> kv.0@ == assignment_key(s@) && kv.1@ == assignment_value(s@),
{
    let len = s.unicode_len();
    // position of the first character that is no name character
    let mut stop: usize = 0;
    let mut n: usize = 0;
    // the number of `=` seen, counted up to two
    let mut equals: usize = 0;
    for c in it: s.chars()
        invariant
            it.seq() == s@,
            n == it.index(),
            len == s@.len(),
            stop <= n <= len,
            forall|j: int| 0 <= j < stop ==> is_name_char(#[trigger] s@[j]),
            stop < n ==> !is_name_char(s@[stop as int]),
            equals <= 2,
            equals == 0 ==> forall|j: int| 0 <= j < n ==> #[trigger] s@[j] != '=',
            equals == 1 ==> exists|e: int| only_equals(s@, n as int, e),
            equals == 2 ==> exists|e: int, f: int| two_equals(s@, n as int, e, f),
    {
        if stop == n && name_char(c) {
            stop = n + 1;
        }
        if c == '=' {
            proof {
                if equals == 0 {
                    assert(only_equals(s@, n + 1, n as int));
                } else if equals == 1 {
                    let e = choose|e: int| only_equals(s@, n as int, e);
                    assert(two_equals(s@, n + 1, e, n as int));
                } else {
                    let (e, f) = choose|e: int, f: int| two_equals(s@, n as int, e, f);
                    assert(two_equals(s@, n + 1, e, f));
                }
            }
            if equals < 2 {
                equals += 1;
            }
        } else {
            proof {
                if equals == 1 {
                    let e = choose|e: int| only_equals(s@, n as int, e);
                    assert(only_equals(s@, n + 1, e));
                } else if equals == 2 {
                    let (e, f) = choose|e: int, f: int| two_equals(s@, n as int, e, f);
                    assert(two_equals(s@, n + 1, e, f));
                }
            }
        }
        n += 1;
    }
    if equals == 1 && stop < len && s.get_char(stop) == '=' {
        proof {
            let e = choose|e: int| only_equals(s@, n as int, e);
            assert(e == stop);
            assert(assignment_at(s@, stop as int));
            let i = choose|i: int| assignment_at(s@, i);
            lemma_assignment_unique(s@, i, stop as int);
        }
        let key = String::from_str(s.substring_char(0, stop));
        let value = String::from_str(s.substring_char(stop + 1, len));
        Some((key, value))
    } else {
        proof {
            if is_assignment(s@) {
                let i = choose|i: int| assignment_at(s@, i);
                if equals == 0 {
                    assert(s@[i] != '=');
                } else if equals == 1 {
                    let e = choose|e: int| only_equals(s@, n as int, e);
                    assert(e == i);
                    if stop < i {
                        assert(is_name_char(s@[stop as int]));
                    } else if stop > i {
                        assert(is_name_char(s@[i]));
                    }
                } else {
                    let (e, f) = choose|e: int, f: int| two_equals(s@, n as int, e, f);
                    if e < i {
                        assert(is_name_char(s@[e]));
                    } else if e > i {
                        assert(s@[e] != '=');
                    } else {
                        assert(s@[f] != '=');
                    }
                }
            }
        }
        None
    }
}

} // verus!
