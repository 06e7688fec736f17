//! Text helpers: building strings, decimal numbers, character classes and
//! splitting a text at a separator.

use vstd::prelude::*;

verus! {

broadcast use vstd::string::axiom_spec_iter;

/// Whether `c` has the Unicode `Alphabetic` property (`char::is_alphabetic`).
pub uninterp spec fn alphabetic(c: char) -> bool;

/// Whether `c` has the Unicode `Lowercase` property (`char::is_lowercase`).
pub uninterp spec fn lowercase(c: char) -> bool;

/// Whether `c` has the Unicode `White_Space` property (`char::is_whitespace`).
pub uninterp spec fn whitespace(c: char) -> bool;

/// Calls `char::is_alphabetic`.
#[verifier::external_body]
pub(crate) fn char_is_alphabetic(c: char) -> (res: bool)
    ensures
        res == alphabetic(c),
{
    c.is_alphabetic()
}

/// Calls `char::is_lowercase`.
#[verifier::external_body]
pub(crate) fn char_is_lowercase(c: char) -> (res: bool)
    ensures
        res == lowercase(c),
{
    c.is_lowercase()
}

/// Calls `char::is_whitespace`.
#[verifier::external_body]
pub(crate) fn char_is_whitespace(c: char) -> (res: bool)
    ensures
        res == whitespace(c),
{
    c.is_whitespace()
}

/// Calls `String::push`, which appends one character.
#[verifier::external_body]
pub(crate) fn push_char(s: &mut String, c: char)
    ensures
        final(s)@ == old(s)@.push(c),
{
    s.push(c);
}

/// The characters of a text, in order.
pub fn chars_of(text: &str) -> (res: Vec<char>)
    ensures
        res@ == text@,
{
    let mut v: Vec<char> = Vec::new();
    for c in it: text.chars()
        invariant
            v@ == it.seq().take(it.index()),
    {
        v.push(c);
    }
    v
}

/// The text made of the characters `cs[from..to]`.
pub fn string_from_range(cs: &Vec<char>, from: usize, to: usize) -> (res: String)
    requires
        from <= to <= cs@.len(),
    ensures
        res@ == cs@.subrange(from as int, to as int),
{
    let mut s = String::new();
    let mut i = from;
    while i < to
        invariant
            from <= i <= to <= cs@.len(),
            s@ == cs@.subrange(from as int, i as int),
        decreases to - i,
    {
        push_char(&mut s, cs[i]);
        assert(cs@.subrange(from as int, i + 1) =~= cs@.subrange(from as int, i as int).push(cs@[i as int]));
        i = i + 1;
    }
    s
}

/// The decimal digit character for `d` (`0 <= d < 10`).
pub open spec fn digit_char(d: int) -> char {
    (48 + d) as char
}

/// The decimal text of `n`, as `u64`'s `Display` writes it.
pub open spec fn decimal_digits(n: nat) -> Seq<char>
    decreases n,
{
    if n < 10 {
        seq![digit_char(n as int)]
    } else {
        decimal_digits(n / 10).push(digit_char((n % 10) as int))
    }
}

/// The decimal text of `n`.
pub fn u64_to_decimal(n: u64) -> (res: String)
    ensures
        res@ == decimal_digits(n as nat),
    decreases n,
{
    let d: u8 = (n % 10) as u8;
    let c = (48u8 + d) as char;
    assert(c == digit_char((n % 10) as int));
    if n < 10 {
        let mut s = String::new();
        push_char(&mut s, c);
        assert(s@ =~= seq![digit_char(n as int)]);
        s
    } else {
        let mut s = u64_to_decimal(n / 10);
        push_char(&mut s, c);
        s
    }
}

/// The text without any occurrence of the character `c`.
pub open spec fn without_char(s: Seq<char>, c: char) -> Seq<char> {
    s.filter(|x: char| x != c)
}

/// Removes every occurrence of `c` from the text (as `str::replace` with an
/// empty replacement does).
pub fn remove_char(text: &str, c: char) -> (res: String)
    ensures
        res@ == without_char(text@, c),
{
    let cs = chars_of(text);
    let mut s = String::new();
    let mut i: usize = 0;
    while i < cs.len()
        invariant
            0 <= i <= cs@.len(),
            cs@ == text@,
            s@ == without_char(cs@.take(i as int), c),
        decreases cs.len() - i,
    {
        let x = cs[i];
        assert(cs@.take(i + 1).drop_last() =~= cs@.take(i as int));
        reveal_with_fuel(Seq::filter, 1);
        if x != c {
            push_char(&mut s, x);
        }
        i = i + 1;
    }
    assert(cs@.take(cs@.len() as int) =~= cs@);
    s
}

/// `sep` occurs in `s` at position `i`.
pub open spec fn occurs_at(s: Seq<char>, sep: Seq<char>, i: int) -> bool {
    0 <= i && i + sep.len() <= s.len() && s.subrange(i, i + sep.len()) == sep
}

/// The first position at or after `from` where `sep` occurs in `s`.
pub open spec fn find_from(s: Seq<char>, sep: Seq<char>, from: int) -> Option<int>
    decreases s.len() - from,
{
    if from < 0 || from >= s.len() || from + sep.len() > s.len() {
        None
    } else if occurs_at(s, sep, from) {
        Some(from)
    } else {
        find_from(s, sep, from + 1)
    }
}

/// A position that `find_from` returns is an occurrence at or after `from`.
pub proof fn lemma_find_from_bounds(s: Seq<char>, sep: Seq<char>, from: int)
    ensures
        find_from(s, sep, from) matches Some(i) ==> from <= i && occurs_at(s, sep, i),
    decreases s.len() - from,
{
    if !(from < 0 || from >= s.len() || from + sep.len() > s.len()) && !occurs_at(s, sep, from) {
        lemma_find_from_bounds(s, sep, from + 1);
    }
}

/// The fields of `s` from position `start` on, cut at each occurrence of
/// `sep` (searched from the left, occurrences do not overlap).
pub open spec fn split_from(s: Seq<char>, sep: Seq<char>, start: int) -> Seq<Seq<char>>
    decreases s.len() - start,
{
    if sep.len() == 0 || start < 0 || start > s.len() {
        Seq::empty()
    } else {
        match find_from(s, sep, start) {
            Some(i) => {
                proof {
                    lemma_find_from_bounds(s, sep, start);
                }
                seq![s.subrange(start, i)] + split_from(s, sep, i + sep.len())
            },
            None => seq![s.subrange(start, s.len() as int)],
        }
    }
}

/// The fields of `s` cut at each occurrence of `sep`, as `str::split` with a
/// (nonempty) string pattern returns them.
pub open spec fn split(s: Seq<char>, sep: Seq<char>) -> Seq<Seq<char>> {
    split_from(s, sep, 0)
}

/// The texts of a list of strings.
pub open spec fn texts(v: Seq<String>) -> Seq<Seq<char>> {
    v.map_values(|x: String| x@)
}

/// `sep` does not occur anywhere in `f`.
pub open spec fn free_of(f: Seq<char>, sep: Seq<char>) -> bool {
    forall|i: int| !#[trigger] occurs_at(f, sep, i)
}

/// No proper prefix of `sep` is also a suffix of it, so two occurrences of
/// `sep` cannot overlap.
pub open spec fn borderless(sep: Seq<char>) -> bool {
    forall|t: int| 0 < t < sep.len() ==> #[trigger] sep.subrange(sep.len() - t, sep.len() as int) != sep.subrange(0, t)
}

/// A one-character separator has no border.
pub proof fn lemma_single_char_borderless(sep: Seq<char>)
    requires
        sep.len() == 1,
    ensures
        borderless(sep),
{
}

/// A two-character separator whose characters differ has no border.
pub proof fn lemma_two_chars_borderless(sep: Seq<char>)
    requires
        sep.len() == 2,
        sep[0] != sep[1],
    ensures
        borderless(sep),
{
    assert forall|t: int| 0 < t < sep.len() implies #[trigger] sep.subrange(sep.len() - t, sep.len() as int)
        != sep.subrange(0, t) by {
        assert(t == 1);
        assert(sep.subrange(1, 2)[0] == sep[1]);
        assert(sep.subrange(0, 1)[0] == sep[0]);
    }
}

/// `find_from` returns the first occurrence at or after `from`.
pub proof fn lemma_find_from_first(s: Seq<char>, sep: Seq<char>, from: int, p: int)
    requires
        0 <= from <= p,
        sep.len() > 0,
        occurs_at(s, sep, p),
        forall|j: int| from <= j < p ==> !#[trigger] occurs_at(s, sep, j),
    ensures
        find_from(s, sep, from) == Some(p),
    decreases p - from,
{
    if from < p {
        assert(!occurs_at(s, sep, from));
        lemma_find_from_first(s, sep, from + 1, p);
    }
}

/// Searching a suffix is searching the whole text from the suffix's start.
pub proof fn lemma_find_from_shift(s: Seq<char>, sep: Seq<char>, a: int, j: int)
    requires
        0 <= a <= s.len(),
        0 <= j,
        sep.len() > 0,
    ensures
        find_from(s.skip(a), sep, j) == (match find_from(s, sep, a + j) {
            Some(i) => Some(i - a),
            None => None,
        }),
    decreases s.len() - (a + j),
{
    let t = s.skip(a);
    if !(j >= t.len() || j + sep.len() > t.len()) {
        assert(t.subrange(j, j + sep.len()) =~= s.subrange(a + j, a + j + sep.len()));
        if !occurs_at(t, sep, j) {
            lemma_find_from_shift(s, sep, a, j + 1);
        }
    }
}

/// Splitting from a position is splitting the suffix that starts there.
pub proof fn lemma_split_from_shift(s: Seq<char>, sep: Seq<char>, a: int)
    requires
        0 <= a <= s.len(),
        sep.len() > 0,
    ensures
        split_from(s, sep, a) == split(s.skip(a), sep),
    decreases s.len() - a,
{
    let t = s.skip(a);
    lemma_find_from_shift(s, sep, a, 0);
    lemma_find_from_bounds(s, sep, a);
    match find_from(s, sep, a) {
        Some(i) => {
            lemma_split_from_shift(s, sep, i + sep.len());
            lemma_find_from_bounds(t, sep, 0);
            lemma_split_from_shift(t, sep, i - a + sep.len());
            assert(t.skip(i - a + sep.len()) =~= s.skip(i + sep.len()));
            assert(t.subrange(0, i - a) =~= s.subrange(a, i));
        },
        None => {
            assert(t.subrange(0, t.len() as int) =~= s.subrange(a, s.len() as int));
        },
    }
}

/// Law: a field free of the separator, followed by the separator, is split
/// off as the first field (for a separator without border).
pub proof fn lemma_split_first_field(f: Seq<char>, sep: Seq<char>, rest: Seq<char>)
    requires
        sep.len() > 0,
        borderless(sep),
        free_of(f, sep),
    ensures
        split(f + sep + rest, sep) == seq![f] + split(rest, sep),
{
    let t = f + sep + rest;
    let k = sep.len() as int;
    let n = f.len() as int;
    assert(t.subrange(n, n + k) =~= sep);
    assert forall|j: int| 0 <= j < n implies !#[trigger] occurs_at(t, sep, j) by {
        if occurs_at(t, sep, j) {
            if j + k <= n {
                assert(f.subrange(j, j + k) =~= t.subrange(j, j + k));
                assert(occurs_at(f, sep, j));
            } else {
                let o = j + k - n;
                assert(0 < o < k);
                assert(sep.subrange(k - o, k) =~= sep.subrange(0, o)) by {
                    assert forall|x: int| 0 <= x < o implies sep.subrange(k - o, k)[x] == sep.subrange(0, o)[x] by {
                        assert(sep[k - o + x] == t.subrange(j, j + k)[k - o + x]);
                        assert(t.subrange(j, j + k)[k - o + x] == t[n + x]);
                        assert(t[n + x] == t.subrange(n, n + k)[x]);
                    }
                }
            }
        }
    }
    lemma_find_from_first(t, sep, 0, n);
    lemma_split_from_shift(t, sep, n + k);
    assert(t.skip(n + k) =~= rest);
    assert(t.subrange(0, n) =~= f);
}

/// The empty text splits into one empty field.
pub proof fn lemma_split_empty(sep: Seq<char>)
    requires
        sep.len() > 0,
    ensures
        split(Seq::empty(), sep) == seq![Seq::<char>::empty()],
{
    assert(Seq::<char>::empty().subrange(0, 0) =~= Seq::<char>::empty());
}

/// Whether `sep` occurs in `cs` at position `i`.
fn occurs_at_exec(cs: &Vec<char>, sep: &Vec<char>, i: usize) -> (res: bool)
    requires
        i + sep@.len() <= cs@.len(),
    ensures
        res == occurs_at(cs@, sep@, i as int),
{
    let n = cs.len();
    let mut k: usize = 0;
    while k < sep.len()
        invariant
            n == cs@.len(),
            0 <= k <= sep@.len(),
            i + sep@.len() <= cs@.len(),
            forall|j: int| 0 <= j < k ==> cs@[i + j] == sep@[j],
        decreases sep.len() - k,
    {
        assert(i + k < cs@.len());
        if cs[i + k] != sep[k] {
            assert(cs@.subrange(i as int, i + sep@.len())[k as int] != sep@[k as int]);
            return false;
        }
        k = k + 1;
    }
    assert(cs@.subrange(i as int, i + sep@.len()) =~= sep@);
    true
}

/// Splits the text at each occurrence of `sep`, as `str::split` does.
pub fn split_fields(text: &str, sep: &str) -> (res: Vec<String>)
    requires
        sep@.len() > 0,
    ensures
        texts(res@) == split(text@, sep@),
{
    let cs = chars_of(text);
    let sp = chars_of(sep);
    let n = cs.len();
    let m = sp.len();
    let mut out: Vec<String> = Vec::new();
    let mut start: usize = 0;
    let mut i: usize = 0;
    loop
        invariant_except_break
            0 <= start <= i <= n,
            n == cs@.len(),
            m == sp@.len(),
            m > 0,
            cs@ == text@,
            sp@ == sep@,
            find_from(cs@, sp@, start as int) == find_from(cs@, sp@, i as int),
            texts(out@) + split_from(cs@, sp@, start as int) == split(cs@, sp@),
        ensures
            texts(out@) == split(cs@, sp@),
            cs@ == text@,
            sp@ == sep@,
        decreases n - i,
    {
        if m > n - i {
            assert(find_from(cs@, sp@, i as int) is None);
            let f = string_from_range(&cs, start, n);
            let ghost before = out@;
            out.push(f);
            assert(texts(out@) =~= texts(before).push(f@));
            assert(split_from(cs@, sp@, start as int) =~= seq![cs@.subrange(start as int, n as int)]);
            assert(texts(out@) =~= texts(before) + split_from(cs@, sp@, start as int));
            break;
        }
        if occurs_at_exec(&cs, &sp, i) {
            let f = string_from_range(&cs, start, i);
            let ghost before = out@;
            out.push(f);
            assert(texts(out@) =~= texts(before).push(f@));
            assert(split_from(cs@, sp@, start as int) =~= seq![cs@.subrange(start as int, i as int)]
                + split_from(cs@, sp@, i + m));
            assert(texts(out@) + split_from(cs@, sp@, i + m) =~= texts(before) + split_from(
                cs@,
                sp@,
                start as int,
            ));
            start = i + m;
            i = start;
        } else {
            i = i + 1;
        }
    }
    out
}

} // verus!
