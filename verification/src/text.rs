//! Character-level text helpers with exact specifications.

use vstd::prelude::*;

verus! {

/// Classes of characters that the parsers strip or cut at.
#[derive(Clone, Copy, PartialEq, Eq, Structural)]
pub enum CharClass {
    /// Unicode `White_Space`, as `char::is_whitespace` defines it.
    Whitespace,
    /// The path separator `/`.
    Slash,
    /// The start of a URL query or fragment: `?` or `#`.
    QueryStart,
}

/// Unicode `White_Space` code points.
pub open spec fn is_space(c: char) -> bool {
    ||| c == ' '
    ||| ('\u{9}' <= c && c <= '\u{d}')
    ||| c == '\u{85}'
    ||| c == '\u{a0}'
    ||| c == '\u{1680}'
    ||| ('\u{2000}' <= c && c <= '\u{200a}')
    ||| c == '\u{2028}'
    ||| c == '\u{2029}'
    ||| c == '\u{202f}'
    ||| c == '\u{205f}'
    ||| c == '\u{3000}'
}

pub open spec fn in_class(cls: CharClass, c: char) -> bool {
    match cls {
        CharClass::Whitespace => is_space(c),
        CharClass::Slash => c == '/',
        CharClass::QueryStart => c == '?' || c == '#',
    }
}

pub fn is_in_class(cls: CharClass, c: char) -> (b: bool)
    ensures
        b == in_class(cls, c),
{
    match cls {
        CharClass::Whitespace => {
            c == ' ' || ('\u{9}' <= c && c <= '\u{d}') || c == '\u{85}' || c == '\u{a0}'
                || c == '\u{1680}' || ('\u{2000}' <= c && c <= '\u{200a}') || c == '\u{2028}'
                || c == '\u{2029}' || c == '\u{202f}' || c == '\u{205f}' || c == '\u{3000}'
        },
        CharClass::Slash => c == '/',
        CharClass::QueryStart => c == '?' || c == '#',
    }
}


/// `s` without the leading characters of class `cls`.
pub open spec fn strip_front(s: Seq<char>, cls: CharClass) -> Seq<char>
    decreases s.len(),
{
    if s.len() > 0 && in_class(cls, s[0]) {
        strip_front(s.drop_first(), cls)
    } else {
        s
    }
}

/// `s` without the trailing characters of class `cls`.
pub open spec fn strip_back(s: Seq<char>, cls: CharClass) -> Seq<char>
    decreases s.len(),
{
    if s.len() > 0 && in_class(cls, s.last()) {
        strip_back(s.drop_last(), cls)
    } else {
        s
    }
}

/// `s` without leading and trailing characters of class `cls`.
pub open spec fn strip(s: Seq<char>, cls: CharClass) -> Seq<char> {
    strip_back(strip_front(s, cls), cls)
}

/// `s` with leading and trailing Unicode whitespace removed (`str::trim`).
pub open spec fn trimmed(s: Seq<char>) -> Seq<char> {
    strip(s, CharClass::Whitespace)
}

/// The part of `s` before its first character of class `cls` (all of `s` when none).
pub open spec fn cut_before(s: Seq<char>, cls: CharClass) -> Seq<char>
    decreases s.len(),
{
    if s.len() == 0 {
        s
    } else if in_class(cls, s[0]) {
        Seq::empty()
    } else {
        seq![s[0]] + cut_before(s.drop_first(), cls)
    }
}

proof fn lemma_strip_front_skip(s: Seq<char>, cls: CharClass, i: int)
    requires
        0 <= i < s.len(),
        in_class(cls, s[i]),
    ensures
        strip_front(s.skip(i), cls) == strip_front(s.skip(i + 1), cls),
{
    assert(s.skip(i).drop_first() =~= s.skip(i + 1));
}

proof fn lemma_strip_back_take(s: Seq<char>, cls: CharClass, j: int)
    requires
        0 < j <= s.len(),
        in_class(cls, s[j - 1]),
    ensures
        strip_back(s.take(j), cls) == strip_back(s.take(j - 1), cls),
{
    assert(s.take(j).drop_last() =~= s.take(j - 1));
}

/// `s` with leading and trailing characters of class `cls` removed.
pub fn strip_class<'a>(s: &'a str, cls: CharClass) -> (r: &'a str)
    ensures
        r@ == strip(s@, cls),
{
    let n = s.unicode_len();
    let mut i: usize = 0;
    assert(s@.skip(0) =~= s@);
    while i < n && is_in_class(cls, s.get_char(i))
        invariant
            n == s@.len(),
            0 <= i <= n,
            strip_front(s@, cls) == strip_front(s@.skip(i as int), cls),
        decreases n - i,
    {
        proof {
            lemma_strip_front_skip(s@, cls, i as int);
        }
        i = i + 1;
    }
    let ghost front = s@.skip(i as int);
    proof {
        if i < n {
            assert(front[0] == s@[i as int]);
        } else {
            assert(front =~= Seq::<char>::empty());
        }
        assert(strip_front(s@, cls) == front);
    }
    let mut j: usize = n;
    assert(front.take(n - i) =~= front);
    while j > i && is_in_class(cls, s.get_char(j - 1))
        invariant
            n == s@.len(),
            i <= j <= n,
            front == s@.skip(i as int),
            strip_back(front, cls) == strip_back(front.take(j - i), cls),
        decreases j,
    {
        proof {
            assert(front[j - i - 1] == s@[j - 1]);
            lemma_strip_back_take(front, cls, j - i);
        }
        j = j - 1;
    }
    proof {
        let t = front.take(j - i);
        assert(t =~= s@.subrange(i as int, j as int));
        if j > i {
            assert(t.last() == s@[j - 1]);
        }
    }
    s.substring_char(i, j)
}

/// `s` with leading and trailing Unicode whitespace removed.
pub fn trim<'a>(s: &'a str) -> (r: &'a str)
    ensures
        r@ == trimmed(s@),
{
    strip_class(s, CharClass::Whitespace)
}

/// The part of `s` before its first character of class `cls`.
pub fn cut_before_class<'a>(s: &'a str, cls: CharClass) -> (r: &'a str)
    ensures
        r@ == cut_before(s@, cls),
{
    let n = s.unicode_len();
    let mut i: usize = 0;
    assert(s@.skip(0) =~= s@);
    assert(s@.take(0) + s@ =~= s@);
    while i < n && !is_in_class(cls, s.get_char(i))
        invariant
            n == s@.len(),
            0 <= i <= n,
            forall|k: int| 0 <= k < i ==> !in_class(cls, #[trigger] s@[k]),
            cut_before(s@, cls) == s@.take(i as int) + cut_before(s@.skip(i as int), cls),
        decreases n - i,
    {
        proof {
            let t = s@.skip(i as int);
            assert(t.drop_first() =~= s@.skip(i + 1));
            assert(t[0] == s@[i as int]);
            assert(s@.take(i as int) + seq![s@[i as int]] =~= s@.take(i + 1));
        }
        i = i + 1;
    }
    proof {
        let t = s@.skip(i as int);
        if i < n {
            assert(t[0] == s@[i as int]);
        } else {
            assert(t =~= Seq::<char>::empty());
        }
        assert(cut_before(t, cls) =~= Seq::<char>::empty());
        assert(s@.take(i as int) + Seq::<char>::empty() =~= s@.subrange(0, i as int));
    }
    s.substring_char(0, i)
}

/// Whether `s` has nothing but whitespace.
pub fn is_blank(s: &str) -> (b: bool)
    ensures
        b == (trimmed(s@).len() == 0),
{
    trim(s).unicode_len() == 0
}

/// Whether `a` and `b` hold the same characters.
pub fn same_text(a: &str, b: &str) -> (r: bool)
    ensures
        r == (a@ == b@),
{
    let x = a.to_owned();
    let y = b.to_owned();
    x == y
}

/// The rest of `s` after `prefix`, when `s` starts with `prefix`.
pub fn strip_prefix_text<'a>(s: &'a str, prefix: &str) -> (r: Option<&'a str>)
    ensures
        match r {
            Some(rest) => prefix@.is_prefix_of(s@) && rest@ == s@.skip(prefix@.len() as int),
            None => !prefix@.is_prefix_of(s@),
        },
{
    let n = s.unicode_len();
    let m = prefix.unicode_len();
    if m > n {
        return None;
    }
    let mut i: usize = 0;
    while i < m
        invariant
            n == s@.len(),
            m == prefix@.len(),
            m <= n,
            0 <= i <= m,
            forall|k: int| 0 <= k < i ==> prefix@[k] == s@[k],
        decreases m - i,
    {
        if s.get_char(i) != prefix.get_char(i) {
            return None;
        }
        i = i + 1;
    }
    assert(prefix@ =~= s@.take(m as int));
    Some(s.substring_char(m, n))
}


/// The ASCII digit for `d` (`0..=9`).
pub open spec fn digit_char(d: nat) -> char {
    (d + 48) as char
}

/// The decimal spelling of `n`, as `u64`'s `Display` writes it.
pub open spec fn decimal(n: nat) -> Seq<char>
    decreases n,
{
    if n < 10 {
        seq![digit_char(n)]
    } else {
        decimal(n / 10).push(digit_char(n % 10))
    }
}

fn digit_text(d: u64) -> (r: &'static str)
    requires
        d < 10,
    ensures
        r@ == seq![digit_char(d as nat)],
{
    proof {
        reveal_strlit("0");
        reveal_strlit("1");
        reveal_strlit("2");
        reveal_strlit("3");
        reveal_strlit("4");
        reveal_strlit("5");
        reveal_strlit("6");
        reveal_strlit("7");
        reveal_strlit("8");
        reveal_strlit("9");
    }
    if d == 0 {
        "0"
    } else if d == 1 {
        "1"
    } else if d == 2 {
        "2"
    } else if d == 3 {
        "3"
    } else if d == 4 {
        "4"
    } else if d == 5 {
        "5"
    } else if d == 6 {
        "6"
    } else if d == 7 {
        "7"
    } else if d == 8 {
        "8"
    } else {
        "9"
    }
}

/// The decimal spelling of `n`.
pub fn decimal_string(n: u64) -> (r: String)
    ensures
        r@ == decimal(n as nat),
    decreases n,
{
    if n < 10 {
        String::from_str(digit_text(n))
    } else {
        let mut s = decimal_string(n / 10);
        s.append(digit_text(n % 10));
        s
    }
}

/// Lexicographic order on characters by code point, as `str`'s `Ord` orders text.
pub open spec fn text_le(a: Seq<char>, b: Seq<char>) -> bool
    decreases a.len(),
{
    if a.len() == 0 {
        true
    } else if b.len() == 0 {
        false
    } else if a[0] != b[0] {
        a[0] < b[0]
    } else {
        text_le(a.drop_first(), b.drop_first())
    }
}

/// Any two texts are ordered one way or the other.
pub proof fn lemma_text_le_total(a: Seq<char>, b: Seq<char>)
    ensures
        text_le(a, b) || text_le(b, a),
    decreases a.len(),
{
    if a.len() > 0 && b.len() > 0 {
        if a[0] == b[0] {
            lemma_text_le_total(a.drop_first(), b.drop_first());
        } else {
        }
    }
}

/// The text order is transitive.
pub proof fn lemma_text_le_trans(a: Seq<char>, b: Seq<char>, c: Seq<char>)
    requires
        text_le(a, b),
        text_le(b, c),
    ensures
        text_le(a, c),
    decreases a.len(),
{
    if a.len() > 0 && b.len() > 0 && c.len() > 0 && a[0] == b[0] && b[0] == c[0] {
        lemma_text_le_trans(a.drop_first(), b.drop_first(), c.drop_first());
    }
}

/// Whether `a` orders at or before `b`.
pub fn text_at_most(a: &str, b: &str) -> (r: bool)
    ensures
        r == text_le(a@, b@),
{
    let n = a.unicode_len();
    let m = b.unicode_len();
    let mut i: usize = 0;
    assert(a@.skip(0) =~= a@);
    assert(b@.skip(0) =~= b@);
    while i < n && i < m
        invariant
            n == a@.len(),
            m == b@.len(),
            0 <= i <= n,
            i <= m,
            text_le(a@, b@) == text_le(a@.skip(i as int), b@.skip(i as int)),
        decreases n - i,
    {
        let x = a.get_char(i);
        let y = b.get_char(i);
        proof {
            assert(a@.skip(i as int)[0] == x);
            assert(b@.skip(i as int)[0] == y);
            assert(a@.skip(i as int).drop_first() =~= a@.skip(i + 1));
            assert(b@.skip(i as int).drop_first() =~= b@.skip(i + 1));
        }
        if x != y {
            return x < y;
        }
        i = i + 1;
    }
    i == n
}

/// Cutting at a class that `s` never holds keeps all of `s`.
pub proof fn lemma_cut_before_absent(s: Seq<char>, cls: CharClass)
    requires
        forall|i: int| 0 <= i < s.len() ==> !in_class(cls, #[trigger] s[i]),
    ensures
        cut_before(s, cls) == s,
    decreases s.len(),
{
    if s.len() > 0 {
        lemma_cut_before_absent(s.drop_first(), cls);
        assert(seq![s[0]] + s.drop_first() =~= s);
    }
}

/// Stripping keeps `s` when its ends are outside the class.
pub proof fn lemma_strip_kept(s: Seq<char>, cls: CharClass)
    requires
        s.len() > 0 ==> !in_class(cls, s[0]) && !in_class(cls, s.last()),
    ensures
        strip(s, cls) == s,
{
}

/// Stripping the tail stops at a character outside the class: what is left is a
/// prefix of `s` that still holds position `j`.
pub proof fn lemma_strip_back_keeps(s: Seq<char>, cls: CharClass, j: int)
    requires
        0 <= j < s.len(),
        !in_class(cls, s[j]),
    ensures
        j < strip_back(s, cls).len() <= s.len(),
        strip_back(s, cls) == s.take(strip_back(s, cls).len() as int),
    decreases s.len(),
{
    if in_class(cls, s.last()) {
        assert(j < s.len() - 1);
        lemma_strip_back_keeps(s.drop_last(), cls, j);
        let r = strip_back(s.drop_last(), cls);
        assert(s.drop_last().take(r.len() as int) =~= s.take(r.len() as int));
    } else {
        assert(s.take(s.len() as int) =~= s);
    }
}

/// Cutting at a class keeps exactly what comes before its first member.
pub proof fn lemma_cut_before_at(t: Seq<char>, cls: CharClass, k: int)
    requires
        0 <= k < t.len(),
        in_class(cls, t[k]),
        forall|i: int| 0 <= i < k ==> !in_class(cls, #[trigger] t[i]),
    ensures
        cut_before(t, cls) == t.take(k),
    decreases k,
{
    if k == 0 {
        assert(t.take(0) =~= Seq::<char>::empty());
    } else {
        let u = t.drop_first();
        assert forall|i: int| 0 <= i < k - 1 implies !in_class(cls, #[trigger] u[i]) by {
            assert(u[i] == t[i + 1]);
        }
        lemma_cut_before_at(u, cls, k - 1);
        assert(t.take(k) =~= seq![t[0]] + u.take(k - 1));
    }
}

} // verus!
