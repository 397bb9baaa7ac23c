//! Text helpers: trimming and matching that ignores the case of ASCII letters.
use vstd::prelude::*;

verus! {

/// White space as Unicode defines it.
pub open spec fn is_space(c: char) -> bool {
    ||| ('\u{9}' <= c && c <= '\u{D}')
    ||| c == ' '
    ||| c == '\u{85}'
    ||| c == '\u{A0}'
    ||| c == '\u{1680}'
    ||| ('\u{2000}' <= c && c <= '\u{200A}')
    ||| c == '\u{2028}'
    ||| c == '\u{2029}'
    ||| c == '\u{202F}'
    ||| c == '\u{205F}'
    ||| c == '\u{3000}'
}

/// The lower-case form of an ASCII capital; any other character unchanged.
pub open spec fn lower(c: char) -> char {
    if 'A' <= c && c <= 'Z' {
        ((c as u8) + 32) as char
    } else {
        c
    }
}

/// A text with every ASCII capital replaced by its lower-case form.
pub open spec fn lowered(s: Seq<char>) -> Seq<char> {
    Seq::new(s.len(), |i: int| lower(s[i]))
}

/// A text without its leading white space.
pub open spec fn trim_start(s: Seq<char>) -> Seq<char>
    decreases s.len(),
{
    if s.len() > 0 && is_space(s[0]) {
        trim_start(s.drop_first())
    } else {
        s
    }
}

/// A text without its trailing white space.
pub open spec fn trim_end(s: Seq<char>) -> Seq<char>
    decreases s.len(),
{
    if s.len() > 0 && is_space(s.last()) {
        trim_end(s.drop_last())
    } else {
        s
    }
}

/// A text without leading and trailing white space.
pub open spec fn trimmed(s: Seq<char>) -> Seq<char> {
    trim_end(trim_start(s))
}

/// `needle` occurs in `hay` at position `at`.
pub open spec fn occurs_at(hay: Seq<char>, needle: Seq<char>, at: int) -> bool {
    &&& 0 <= at
    &&& at + needle.len() <= hay.len()
    &&& hay.subrange(at, at + needle.len()) == needle
}

/// `needle` occurs somewhere in `hay`.
pub open spec fn occurs_in(hay: Seq<char>, needle: Seq<char>) -> bool {
    exists|at: int| occurs_at(hay, needle, at)
}

/// Two texts are equal up to the case of ASCII letters.
pub open spec fn same_ignoring_case(a: Seq<char>, b: Seq<char>) -> bool {
    lowered(a) == lowered(b)
}

/// `needle` occurs in `hay` up to the case of ASCII letters.
pub open spec fn occurs_ignoring_case(hay: Seq<char>, needle: Seq<char>) -> bool {
    occurs_in(lowered(hay), lowered(needle))
}

/// Whether a character is white space.
pub fn char_is_space(c: char) -> (r: bool)
    ensures
        r == is_space(c),
{
    ('\u{9}' <= c && c <= '\u{D}') || c == ' ' || c == '\u{85}' || c == '\u{A0}' || c
        == '\u{1680}' || ('\u{2000}' <= c && c <= '\u{200A}') || c == '\u{2028}' || c
        == '\u{2029}' || c == '\u{202F}' || c == '\u{205F}' || c == '\u{3000}'
}

/// The lower-case form of a character, for ASCII capitals.
pub fn char_lower(c: char) -> (r: char)
    ensures
        r == lower(c),
{
    if 'A' <= c && c <= 'Z' {
        ((c as u8) + 32) as char
    } else {
        c
    }
}

/// The characters of a text, in order.
pub fn chars_of(s: &str) -> (v: Vec<char>)
    ensures
        v@ == s@,
{
    let mut v: Vec<char> = Vec::new();
    for c in it: s.chars()
        invariant
            it.seq() == s@,
            v@ == s@.take(it.index() as int),
    {
        v.push(c);
    }
    v
}

/// Dropping leading white space leaves a suffix that starts without any.
pub proof fn lemma_trim_start_skip(s: Seq<char>, from: int)
    requires
        0 <= from <= s.len(),
        forall|k: int| 0 <= k < from ==> is_space(s[k]),
    ensures
        trim_start(s) == trim_start(s.subrange(from, s.len() as int)),
    decreases from,
{
    if from == 0 {
        assert(s.subrange(0, s.len() as int) == s);
    } else {
        lemma_trim_start_skip(s.drop_first(), from - 1);
        assert(s.drop_first().subrange(from - 1, s.len() - 1) == s.subrange(
            from,
            s.len() as int,
        ));
    }
}

/// Dropping trailing white space leaves a prefix that ends without any.
pub proof fn lemma_trim_end_skip(s: Seq<char>, to: int)
    requires
        0 <= to <= s.len(),
        forall|k: int| to <= k < s.len() ==> is_space(s[k]),
    ensures
        trim_end(s) == trim_end(s.subrange(0, to)),
    decreases s.len() - to,
{
    if to == s.len() {
        assert(s.subrange(0, to) == s);
    } else {
        lemma_trim_end_skip(s.drop_last(), to);
        assert(s.drop_last().subrange(0, to) == s.subrange(0, to));
    }
}

/// A text without its leading and trailing white space.
pub fn trim(s: &str) -> (r: String)
    ensures
        r@ == trimmed(s@),
{
    let chars = chars_of(s);
    let n = chars.len();
    let mut from: usize = 0;
    while from < n && char_is_space(chars[from])
        invariant
            from <= n,
            n == chars.len(),
            forall|k: int| 0 <= k < from ==> is_space(chars@[k]),
        decreases n - from,
    {
        from += 1;
    }
    let mut to: usize = n;
    while to > from && char_is_space(chars[to - 1])
        invariant
            from <= to <= n,
            n == chars.len(),
            forall|k: int| to <= k < n ==> is_space(chars@[k]),
        decreases to,
    {
        to -= 1;
    }
    proof {
        let rest = s@.subrange(from as int, n as int);
        lemma_trim_start_skip(s@, from as int);
        assert(trim_start(s@) == rest);
        assert forall|k: int| to - from <= k < rest.len() implies is_space(rest[k]) by {
            assert(rest[k] == chars@[k + from]);
        }
        lemma_trim_end_skip(rest, to - from);
        assert(rest.subrange(0, to - from) == s@.subrange(from as int, to as int));
        let kept = s@.subrange(from as int, to as int);
        if kept.len() > 0 {
            assert(kept.last() == chars@[to - 1]);
        }
        assert(trim_end(kept) == kept);
    }
    String::from_str(s.substring_char(from, to))
}

/// Whether two texts are equal up to the case of ASCII letters.
pub fn eq_ignoring_case(a: &str, b: &str) -> (r: bool)
    ensures
        r == same_ignoring_case(a@, b@),
{
    let x = chars_of(a);
    let y = chars_of(b);
    if x.len() != y.len() {
        assert(lowered(a@).len() != lowered(b@).len());
        return false;
    }
    let n = x.len();
    let mut i: usize = 0;
    while i < n
        invariant
            i <= n,
            n == x.len(),
            n == y.len(),
            x@ == a@,
            y@ == b@,
            forall|k: int| 0 <= k < i ==> lower(x@[k]) == lower(y@[k]),
        decreases n - i,
    {
        if char_lower(x[i]) != char_lower(y[i]) {
            assert(lowered(a@)[i as int] != lowered(b@)[i as int]);
            return false;
        }
        i += 1;
    }
    assert(lowered(a@) =~= lowered(b@));
    true
}

/// Whether `needle` stands in `hay` at `at`, up to the case of ASCII letters.
fn occurs_at_ignoring_case(hay: &Vec<char>, needle: &Vec<char>, at: usize) -> (r: bool)
    requires
        at + needle.len() <= hay.len(),
    ensures
        r == occurs_at(lowered(hay@), lowered(needle@), at as int),
{
    let m = needle.len();
    let ghost window = lowered(hay@).subrange(at as int, at + m);
    let mut j: usize = 0;
    while j < m
        invariant
            j <= m,
            m == needle.len(),
            at + m <= hay.len(),
            window == lowered(hay@).subrange(at as int, at + m),
            forall|k: int| 0 <= k < j ==> lower(hay@[at + k]) == lower(needle@[k]),
        decreases m - j,
    {
        if char_lower(hay[at + j]) != char_lower(needle[j]) {
            assert(window[j as int] != lowered(needle@)[j as int]);
            return false;
        }
        j += 1;
    }
    assert(window =~= lowered(needle@));
    true
}

/// Whether `needle` occurs in `hay`, up to the case of ASCII letters.
pub fn contains_ignoring_case(hay: &str, needle: &str) -> (r: bool)
    ensures
        r == occurs_ignoring_case(hay@, needle@),
{
    let h = chars_of(hay);
    let p = chars_of(needle);
    if p.len() > h.len() {
        return false;
    }
    let last = h.len() - p.len();
    let mut at: usize = 0;
    loop
        invariant
            at <= last,
            last == h.len() - p.len(),
            h@ == hay@,
            p@ == needle@,
            forall|k: int| 0 <= k < at ==> !occurs_at(lowered(h@), lowered(p@), k),
        decreases last - at,
    {
        if occurs_at_ignoring_case(&h, &p, at) {
            return true;
        }
        if at == last {
            return false;
        }
        at += 1;
    }
}

} // verus!
