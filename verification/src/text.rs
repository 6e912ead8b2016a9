//! Building text: decimal numbers and characters appended to strings.
use vstd::prelude::*;

verus! {

/// Appends one character to a string.
///
/// Trusted: calls `String::push`, whose documentation says it appends the
/// given char to the end of the string.
#[verifier::external_body]
pub(crate) fn push_char(s: &mut String, c: char)
    ensures
        final(s)@ == old(s)@.push(c),
{
    s.push(c);
}

/// The character of a decimal digit.
pub open spec fn spec_digit(d: int) -> char {
    (d + 48) as char
}

/// Decimal notation of a natural number, without leading zeros.
pub open spec fn spec_decimal(n: nat) -> Seq<char>
    decreases n,
{
    if n < 10 {
        seq![spec_digit(n as int)]
    } else {
        spec_decimal(n / 10).push(spec_digit((n % 10) as int))
    }
}

/// Decimal notation of an integer, with a leading `-` when negative.
pub open spec fn spec_int_text(n: int) -> Seq<char> {
    if n < 0 {
        seq!['-'] + spec_decimal((-n) as nat)
    } else {
        spec_decimal(n as nat)
    }
}

fn digit_char(d: u64) -> (c: char)
    requires
        d < 10,
    ensures
        c == spec_digit(d as int),
{
    if d == 0 {
        '0'
    } else if d == 1 {
        '1'
    } else if d == 2 {
        '2'
    } else if d == 3 {
        '3'
    } else if d == 4 {
        '4'
    } else if d == 5 {
        '5'
    } else if d == 6 {
        '6'
    } else if d == 7 {
        '7'
    } else if d == 8 {
        '8'
    } else {
        '9'
    }
}

/// Appends the decimal notation of `n`.
pub fn push_u64(s: &mut String, n: u64)
    ensures
        final(s)@ == old(s)@ + spec_decimal(n as nat),
    decreases n,
{
    if n >= 10 {
        push_u64(s, n / 10);
    }
    let c = digit_char(n % 10);
    push_char(s, c);
    proof {
        if n < 10 {
            assert(old(s)@ + spec_decimal(n as nat) =~= old(s)@.push(c));
        } else {
            assert(old(s)@ + spec_decimal(n as nat) =~= (old(s)@ + spec_decimal((n / 10) as nat)).push(c));
        }
    }
}

/// Appends the decimal notation of `n`, with `-` when negative.
pub fn push_i64(s: &mut String, n: i64)
    ensures
        final(s)@ == old(s)@ + spec_int_text(n as int),
{
    if n < 0 {
        push_char(s, '-');
        let m: u64 = (-(n as i128)) as u64;
        push_u64(s, m);
        assert(old(s)@ + spec_int_text(n as int) =~= old(s)@.push('-') + spec_decimal(m as nat));
    } else {
        push_u64(s, n as u64);
    }
}

/// The decimal notation of `n`.
pub fn u64_text(n: u64) -> (r: String)
    ensures
        r@ == spec_decimal(n as nat),
{
    let mut s = String::new();
    push_u64(&mut s, n);
    assert(Seq::<char>::empty() + spec_decimal(n as nat) =~= spec_decimal(n as nat));
    s
}

/// The decimal notation of `n`, with `-` when negative.
pub fn i64_text(n: i64) -> (r: String)
    ensures
        r@ == spec_int_text(n as int),
{
    let mut s = String::new();
    push_i64(&mut s, n);
    assert(Seq::<char>::empty() + spec_int_text(n as int) =~= spec_int_text(n as int));
    s
}

/// `prefix` followed by `value`.
pub fn concat(prefix: &str, value: &str) -> (r: String)
    ensures
        r@ == prefix@ + value@,
{
    let mut s = String::from_str(prefix);
    s.append(value);
    s
}


/// Whether two strings hold the same characters.
pub fn str_eq(a: &str, b: &str) -> (r: bool)
    ensures
        r == (a@ == b@),
{
    let n = a.unicode_len();
    if n != b.unicode_len() {
        return false;
    }
    let mut i: usize = 0;
    while i < n
        invariant
            n == a@.len(),
            n == b@.len(),
            i <= n,
            forall|j: int| 0 <= j < i ==> a@[j] == b@[j],
        decreases n - i,
    {
        if a.get_char(i) != b.get_char(i) {
            return false;
        }
        i = i + 1;
    }
    assert(a@ =~= b@);
    true
}


/// `needle` occurs in `s` at position `i`.
pub open spec fn spec_occurs_at(s: Seq<char>, needle: Seq<char>, i: int) -> bool {
    0 <= i && i + needle.len() <= s.len() && s.subrange(i, i + needle.len()) == needle
}

/// `needle` occurs in `s`.
pub open spec fn spec_contains(s: Seq<char>, needle: Seq<char>) -> bool {
    exists|i: int| spec_occurs_at(s, needle, i)
}

fn occurs_at(s: &str, needle: &str, i: usize) -> (r: bool)
    requires
        i + needle@.len() <= s@.len(),
    ensures
        r == spec_occurs_at(s@, needle@, i as int),
{
    let n = s.unicode_len();
    let m = needle.unicode_len();
    let mut k: usize = 0;
    while k < m
        invariant
            m == needle@.len(),
            n == s@.len(),
            i + m <= n,
            k <= m,
            forall|j: int| 0 <= j < k ==> s@[i + j] == needle@[j],
        decreases m - k,
    {
        if s.get_char(i + k) != needle.get_char(k) {
            assert(s@.subrange(i as int, i + m)[k as int] != needle@[k as int]);
            return false;
        }
        k = k + 1;
    }
    assert(s@.subrange(i as int, i + m) =~= needle@);
    true
}

/// Position of the first occurrence of `needle` in `s`.
pub fn find(s: &str, needle: &str) -> (r: Option<usize>)
    ensures
        r matches Some(i) ==> spec_occurs_at(s@, needle@, i as int) && forall|j: int|
            0 <= j < i ==> !spec_occurs_at(s@, needle@, j),
        r is None ==> !spec_contains(s@, needle@),
{
    let n = s.unicode_len();
    let m = needle.unicode_len();
    if m > n {
        return None;
    }
    if m == 0 {
        assert(s@.subrange(0, 0) =~= needle@);
        return Some(0);
    }
    let mut i: usize = 0;
    while i <= n - m
        invariant
            n == s@.len(),
            m == needle@.len(),
            1 <= m <= n,
            i <= n - m + 1,
            forall|j: int| 0 <= j < i ==> !spec_occurs_at(s@, needle@, j),
        decreases n - m + 1 - i,
    {
        if occurs_at(s, needle, i) {
            return Some(i);
        }
        i = i + 1;
    }
    None
}

/// Position of the first occurrence of `needle` in `s`, if any.
#[verifier::opaque]
pub open spec fn spec_first(s: Seq<char>, needle: Seq<char>) -> Option<int> {
    if spec_contains(s, needle) {
        Some(
            choose|i: int|
                spec_occurs_at(s, needle, i) && forall|j: int| 0 <= j < i ==> !spec_occurs_at(s, needle, j),
        )
    } else {
        None
    }
}

/// Position of the first occurrence of `needle` in `s`, if any.
pub fn first(s: &str, needle: &str) -> (r: Option<usize>)
    ensures
        r matches Some(i) ==> spec_first(s@, needle@) == Some(i as int) && spec_occurs_at(
            s@,
            needle@,
            i as int,
        ),
        r is None ==> spec_first(s@, needle@) is None,
{
    let r = find(s, needle);
    proof {
        reveal(spec_first);
        if let Some(i) = r {
            assert(spec_contains(s@, needle@));
            let k = choose|k: int|
                spec_occurs_at(s@, needle@, k) && forall|j: int| 0 <= j < k ==> !spec_occurs_at(s@, needle@, j);
            if k < i {
                assert(!spec_occurs_at(s@, needle@, k));
            } else if k > i {
                assert(!spec_occurs_at(s@, needle@, i as int));
            }
            assert(k == i);
        }
    }
    r
}

/// Whether `needle` occurs in `s`.
pub fn contains(s: &str, needle: &str) -> (r: bool)
    ensures
        r == spec_contains(s@, needle@),
{
    find(s, needle).is_some()
}

/// The part of `s` after the first occurrence of `sep`.
pub open spec fn spec_after_first(s: Seq<char>, sep: Seq<char>) -> Option<Seq<char>> {
    if spec_contains(s, sep) {
        let i = choose|i: int| spec_occurs_at(s, sep, i) && forall|j: int| 0 <= j < i ==> !spec_occurs_at(s, sep, j);
        Some(s.subrange(i + sep.len(), s.len() as int))
    } else {
        None
    }
}

/// The part of `s` after the first occurrence of `sep`; the second piece
/// of `s.split(sep)` up to the next occurrence is a prefix of it.
pub fn after_first(s: &str, sep: &str) -> (r: Option<String>)
    ensures
        r matches Some(t) ==> exists|i: int|
            spec_occurs_at(s@, sep@, i) && (forall|j: int| 0 <= j < i ==> !spec_occurs_at(s@, sep@, j))
                && t@ == s@.subrange(i + sep@.len(), s@.len() as int),
        r is None ==> !spec_contains(s@, sep@),
        spec_after_first(s@, sep@) == match r {
            Some(t) => Some(t@),
            None => None::<Seq<char>>,
        },
{
    match find(s, sep) {
        Some(i) => {
            let n = s.unicode_len();
            let m = sep.unicode_len();
            proof {
                assert(spec_contains(s@, sep@));
                let k = choose|k: int|
                    spec_occurs_at(s@, sep@, k) && forall|j: int| 0 <= j < k ==> !spec_occurs_at(s@, sep@, j);
                if k < i {
                    assert(!spec_occurs_at(s@, sep@, k));
                } else if k > i {
                    assert(!spec_occurs_at(s@, sep@, i as int));
                }
                assert(k == i);
            }
            Some(String::from_str(s.substring_char(i + m, n)))
        },
        None => None,
    }
}

/// `s` split at every `'\n'` (one more piece than there are newlines).
pub open spec fn spec_split_newlines(s: Seq<char>) -> Seq<Seq<char>>
    decreases s.len(),
{
    if s.len() == 0 {
        seq![Seq::empty()]
    } else {
        let prev = spec_split_newlines(s.drop_last());
        if s.last() == '\n' {
            prev.push(Seq::empty())
        } else {
            prev.update(prev.len() - 1, prev.last().push(s.last()))
        }
    }
}

/// A line without its trailing `'\r'`, if any.
pub open spec fn spec_strip_cr(l: Seq<char>) -> Seq<char> {
    if l.len() > 0 && l.last() == '\r' {
        l.drop_last()
    } else {
        l
    }
}

/// The lines of `s` as `str::lines` gives them: split at `'\n'`, a final
/// empty piece dropped, a trailing `'\r'` stripped from each line.
pub open spec fn spec_lines(s: Seq<char>) -> Seq<Seq<char>> {
    let pieces = spec_split_newlines(s);
    let kept = if pieces.last().len() == 0 { pieces.drop_last() } else { pieces };
    kept.map_values(|l: Seq<char>| spec_strip_cr(l))
}

proof fn lemma_split_nonempty(s: Seq<char>)
    ensures
        spec_split_newlines(s).len() >= 1,
    decreases s.len(),
{
    if s.len() > 0 {
        lemma_split_nonempty(s.drop_last());
    }
}

/// The lines of `s`.
pub fn lines(s: &str) -> (r: Vec<String>)
    ensures
        r@.len() == spec_lines(s@).len(),
        forall|j: int| 0 <= j < r@.len() ==> (#[trigger] r@[j])@ == spec_lines(s@)[j],
{
    let n = s.unicode_len();
    let mut done: Vec<String> = Vec::new();
    let mut current = String::new();
    let mut i: usize = 0;
    while i < n
        invariant
            n == s@.len(),
            i <= n,
            ({
                let pieces = spec_split_newlines(s@.subrange(0, i as int));
                &&& done@.len() + 1 == pieces.len()
                &&& forall|j: int| 0 <= j < done@.len() ==> (#[trigger] done@[j])@ == pieces[j]
                &&& current@ == pieces.last()
            }),
        decreases n - i,
    {
        proof {
            lemma_split_nonempty(s@.subrange(0, i as int));
            assert(s@.subrange(0, i + 1).drop_last() =~= s@.subrange(0, i as int));
        }
        let c = s.get_char(i);
        if c == '\n' {
            let finished = current;
            done.push(finished);
            current = String::new();
        } else {
            push_char(&mut current, c);
        }
        i = i + 1;
    }
    assert(s@.subrange(0, n as int) =~= s@);
    proof {
        lemma_split_nonempty(s@);
    }
    if current.unicode_len() > 0 {
        done.push(current);
    }
    let ghost pieces = spec_split_newlines(s@);
    let ghost kept = if pieces.last().len() == 0 { pieces.drop_last() } else { pieces };
    assert(done@.len() == kept.len());
    let mut r: Vec<String> = Vec::new();
    let mut k: usize = 0;
    while k < done.len()
        invariant
            k <= done@.len(),
            done@.len() == kept.len(),
            forall|j: int| 0 <= j < done@.len() ==> (#[trigger] done@[j])@ == kept[j],
            r@.len() == k,
            forall|j: int| 0 <= j < k ==> (#[trigger] r@[j])@ == spec_strip_cr(kept[j]),
        decreases done@.len() - k,
    {
        let l = done[k].as_str();
        let len = l.unicode_len();
        if len > 0 && l.get_char(len - 1) == '\r' {
            r.push(String::from_str(l.substring_char(0, len - 1)));
            assert(l@.subrange(0, len - 1) =~= l@.drop_last());
        } else {
            r.push(String::from_str(l));
        }
        k = k + 1;
    }
    r
}


/// The part of `s` before its first `c`, or all of `s` without one.
pub open spec fn spec_before_first(s: Seq<char>, c: char) -> Seq<char>
    decreases s.len(),
{
    if s.len() == 0 {
        s
    } else if s[0] == c {
        Seq::empty()
    } else {
        seq![s[0]] + spec_before_first(s.drop_first(), c)
    }
}

proof fn lemma_before_first_prefix(s: Seq<char>, c: char, i: int)
    requires
        0 <= i <= s.len(),
        forall|j: int| 0 <= j < i ==> s[j] != c,
        i == s.len() || s[i] == c,
    ensures
        spec_before_first(s, c) == s.subrange(0, i),
    decreases s.len(),
{
    if s.len() > 0 && s[0] != c {
        lemma_before_first_prefix(s.drop_first(), c, i - 1);
        assert(seq![s[0]] + s.drop_first().subrange(0, i - 1) =~= s.subrange(0, i));
    } else if s.len() > 0 {
        assert(s.subrange(0, i) =~= Seq::<char>::empty());
    } else {
        assert(s.subrange(0, i) =~= s);
    }
}

/// The part of `s` before its first `c`, or all of `s` without one.
pub fn before_first(s: &str, c: char) -> (r: String)
    ensures
        r@ == spec_before_first(s@, c),
{
    let n = s.unicode_len();
    let mut i: usize = 0;
    while i < n && s.get_char(i) != c
        invariant
            n == s@.len(),
            i <= n,
            forall|j: int| 0 <= j < i ==> s@[j] != c,
        decreases n - i,
    {
        i = i + 1;
    }
    proof {
        lemma_before_first_prefix(s@, c, i as int);
    }
    String::from_str(s.substring_char(0, i))
}

} // verus!
