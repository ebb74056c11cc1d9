//! Small verified text utilities: splitting on a separator, line splitting,
//! and trimming white space.

use vstd::prelude::*;

verus! {

/// The characters `str::trim` strips: the Unicode white-space set.
pub open spec fn is_space_char(c: char) -> bool {
    ||| c == '\u{0009}'
    ||| c == '\u{000A}'
    ||| c == '\u{000B}'
    ||| c == '\u{000C}'
    ||| c == '\u{000D}'
    ||| c == ' '
    ||| c == '\u{0085}'
    ||| c == '\u{00A0}'
    ||| c == '\u{1680}'
    ||| ('\u{2000}' <= c && c <= '\u{200A}')
    ||| c == '\u{2028}'
    ||| c == '\u{2029}'
    ||| c == '\u{202F}'
    ||| c == '\u{205F}'
    ||| c == '\u{3000}'
}

/// Whether the string consists of white space alone (an empty string does).
pub open spec fn all_whitespace(s: Seq<char>) -> bool {
    forall|i: int| 0 <= i < s.len() ==> is_space_char(#[trigger] s[i])
}

/// Whether `c` belongs to the Unicode white-space set.
pub fn char_is_space(c: char) -> (r: bool)
    ensures
        r == is_space_char(c),
{
    c == '\u{0009}' || c == '\u{000A}' || c == '\u{000B}' || c == '\u{000C}' || c == '\u{000D}'
        || c == ' ' || c == '\u{0085}' || c == '\u{00A0}' || c == '\u{1680}' || ('\u{2000}' <= c
        && c <= '\u{200A}') || c == '\u{2028}' || c == '\u{2029}' || c == '\u{202F}' || c
        == '\u{205F}' || c == '\u{3000}'
}

/// Whether the string consists of white space alone.
pub fn is_blank(s: &str) -> (r: bool)
    ensures
        r == all_whitespace(s@),
{
    let n = s.unicode_len();
    let mut i: usize = 0;
    while i < n
        invariant
            n == s@.len(),
            i <= n,
            forall|q: int| 0 <= q < i ==> is_space_char(#[trigger] s@[q]),
        decreases n - i,
    {
        if !char_is_space(s.get_char(i)) {
            return false;
        }
        i = i + 1;
    }
    true
}


/// The pieces of `s` between occurrences of `sep`: always one more piece
/// than there are separators, so an empty string yields one empty piece.
pub open spec fn spec_split(s: Seq<char>, sep: char) -> Seq<Seq<char>>
    decreases s.len(),
{
    if s.len() == 0 {
        seq![s]
    } else if s[0] == sep {
        seq![Seq::<char>::empty()] + spec_split(s.drop_first(), sep)
    } else {
        let rest = spec_split(s.drop_first(), sep);
        seq![seq![s[0]] + rest[0]] + rest.drop_first()
    }
}

/// A split has at least one piece.
proof fn lemma_split_nonempty(s: Seq<char>, sep: char)
    ensures
        spec_split(s, sep).len() >= 1,
    decreases s.len(),
{
    if s.len() > 0 {
        lemma_split_nonempty(s.drop_first(), sep);
    }
}

/// A split falls apart at the first separator: everything before it is the
/// first piece, and the rest of the string splits on its own.
proof fn lemma_split_at_first(s: Seq<char>, sep: char, i: int)
    requires
        0 <= i <= s.len(),
        forall|j: int| 0 <= j < i ==> s[j] != sep,
        i < s.len() ==> s[i] == sep,
    ensures
        i < s.len() ==> spec_split(s, sep) == seq![s.subrange(0, i)] + spec_split(
            s.subrange(i + 1, s.len() as int),
            sep,
        ),
        i == s.len() ==> spec_split(s, sep) == seq![s],
    decreases i,
{
    lemma_split_nonempty(s, sep);
    if i == 0 {
        if 0 < s.len() {
            assert(s.drop_first() =~= s.subrange(1, s.len() as int));
            assert(s.subrange(0, 0) =~= Seq::<char>::empty());
        }
    } else {
        let d = s.drop_first();
        lemma_split_at_first(d, sep, i - 1);
        lemma_split_nonempty(d, sep);
        if i < s.len() {
            assert(d.subrange(0, i - 1) =~= s.subrange(1, i));
            assert(d.subrange(i, d.len() as int) =~= s.subrange(i + 1, s.len() as int));
            let rest = spec_split(d, sep);
            assert(rest[0] == s.subrange(1, i));
            assert(seq![s[0]] + rest[0] =~= s.subrange(0, i));
            assert(rest.drop_first() =~= spec_split(s.subrange(i + 1, s.len() as int), sep));
            assert(spec_split(s, sep) =~= seq![s.subrange(0, i)] + spec_split(
                s.subrange(i + 1, s.len() as int),
                sep,
            ));
        } else {
            // No separator anywhere: the whole string is the one piece.
            let rest = spec_split(d, sep);
            assert(rest =~= seq![d]);
            assert(seq![s[0]] + d =~= s);
            assert(spec_split(s, sep) =~= seq![s]);
        }
    }
}

/// The lines of `s`, as `str::lines` yields them up to carriage returns: a
/// trailing newline does not open a final empty line. Carriage returns are
/// kept; callers here always trim them away.
pub open spec fn spec_lines(s: Seq<char>) -> Seq<Seq<char>> {
    if s.len() == 0 {
        Seq::empty()
    } else if s.last() == '\n' {
        spec_split(s.drop_last(), '\n')
    } else {
        spec_split(s, '\n')
    }
}

/// `s` without its leading white space.
pub open spec fn spec_trim_start(s: Seq<char>) -> Seq<char>
    decreases s.len(),
{
    if s.len() > 0 && is_space_char(s[0]) {
        spec_trim_start(s.drop_first())
    } else {
        s
    }
}

/// `s` without its trailing white space.
pub open spec fn spec_trim_end(s: Seq<char>) -> Seq<char>
    decreases s.len(),
{
    if s.len() > 0 && is_space_char(s.last()) {
        spec_trim_end(s.drop_last())
    } else {
        s
    }
}

/// `s` without leading and trailing white space, as `str::trim` yields it.
pub open spec fn spec_trim(s: Seq<char>) -> Seq<char> {
    spec_trim_end(spec_trim_start(s))
}

/// Skipping a white-space prefix does not change the trimmed-start form.
proof fn lemma_trim_start_skip(s: Seq<char>, i: int)
    requires
        0 <= i <= s.len(),
        forall|j: int| 0 <= j < i ==> is_space_char(#[trigger] s[j]),
    ensures
        spec_trim_start(s) == spec_trim_start(s.subrange(i, s.len() as int)),
    decreases i,
{
    if i > 0 {
        assert(s.drop_first() =~= s.subrange(1, s.len() as int));
        lemma_trim_start_skip(s.drop_first(), i - 1);
        assert(s.drop_first().subrange(i - 1, s.drop_first().len() as int) =~= s.subrange(
            i,
            s.len() as int,
        ));
    } else {
        assert(s.subrange(0, s.len() as int) =~= s);
    }
}

/// Dropping a white-space suffix does not change the trimmed-end form.
proof fn lemma_trim_end_skip(s: Seq<char>, i: int)
    requires
        0 <= i <= s.len(),
        forall|j: int| i <= j < s.len() ==> is_space_char(#[trigger] s[j]),
    ensures
        spec_trim_end(s) == spec_trim_end(s.subrange(0, i)),
    decreases s.len() - i,
{
    if i < s.len() {
        assert(s.drop_last() =~= s.subrange(0, s.len() - 1));
        lemma_trim_end_skip(s.drop_last(), i);
        assert(s.drop_last().subrange(0, i) =~= s.subrange(0, i));
    } else {
        assert(s.subrange(0, s.len() as int) =~= s);
    }
}

/// The views of a list of strings.
pub open spec fn spec_string_views(v: Seq<String>) -> Seq<Seq<char>> {
    v.map_values(|w: String| w@)
}

/// Whether `p` is a prefix of `s`.
pub open spec fn spec_is_prefix(p: Seq<char>, s: Seq<char>) -> bool {
    p.len() <= s.len() && s.subrange(0, p.len() as int) == p
}

/// Whether `p` is a suffix of `s`.
pub open spec fn spec_is_suffix(p: Seq<char>, s: Seq<char>) -> bool {
    p.len() <= s.len() && s.subrange(s.len() - p.len(), s.len() as int) == p
}

/// Whether `s` starts with `prefix`.
pub fn starts_with_str(s: &str, prefix: &str) -> (r: bool)
    ensures
        r == spec_is_prefix(prefix@, s@),
{
    let n = s.unicode_len();
    let m = prefix.unicode_len();
    if m > n {
        return false;
    }
    let mut i: usize = 0;
    while i < m
        invariant
            n == s@.len(),
            m == prefix@.len(),
            m <= n,
            i <= m,
            forall|q: int| 0 <= q < i ==> s@[q] == prefix@[q],
        decreases m - i,
    {
        if s.get_char(i) != prefix.get_char(i) {
            proof {
                assert(s@.subrange(0, m as int)[i as int] != prefix@[i as int]);
            }
            return false;
        }
        i = i + 1;
    }
    proof {
        assert(s@.subrange(0, m as int) =~= prefix@);
    }
    true
}

/// Whether `s` ends with `suffix`.
pub fn ends_with_str(s: &str, suffix: &str) -> (r: bool)
    ensures
        r == spec_is_suffix(suffix@, s@),
{
    let n = s.unicode_len();
    let m = suffix.unicode_len();
    if m > n {
        return false;
    }
    let start = n - m;
    let mut i: usize = 0;
    while i < m
        invariant
            n == s@.len(),
            m == suffix@.len(),
            m <= n,
            start == n - m,
            i <= m,
            forall|q: int| 0 <= q < i ==> s@[start + q] == suffix@[q],
        decreases m - i,
    {
        if s.get_char(start + i) != suffix.get_char(i) {
            proof {
                assert(s@.subrange(start as int, n as int)[i as int] != suffix@[i as int]);
            }
            return false;
        }
        i = i + 1;
    }
    proof {
        assert(s@.subrange(start as int, n as int) =~= suffix@);
    }
    true
}

/// Index of the first occurrence of `c`, if any.
pub fn find_first_char(s: &str, c: char) -> (r: Option<usize>)
    ensures
        r == match s@.index_of_first(c) {
            Some(i) => Some(i as usize),
            None => None::<usize>,
        },
{
    proof {
        s@.index_of_first_ensures(c);
    }
    let n = s.unicode_len();
    let mut i: usize = 0;
    while i < n
        invariant
            n == s@.len(),
            i <= n,
            forall|q: int| 0 <= q < i ==> s@[q] != c,
            match s@.index_of_first(c) {
                Some(p) => 0 <= p < n && s@[p] == c && forall|q: int| 0 <= q < p ==> s@[q] != c,
                None => forall|q: int| 0 <= q < n ==> s@[q] != c,
            },
        decreases n - i,
    {
        if s.get_char(i) == c {
            return Some(i);
        }
        i = i + 1;
    }
    None
}

/// The pieces of `s` between occurrences of `sep`, as [`spec_split`] lists
/// them.
pub fn split_char(s: &str, sep: char) -> (r: Vec<String>)
    ensures
        r@.len() == spec_split(s@, sep).len(),
        forall|q: int| 0 <= q < r@.len() ==> (#[trigger] r@[q])@ == spec_split(s@, sep)[q],
    decreases s@.len(),
{
    let n = s.unicode_len();
    match find_first_char(s, sep) {
        None => {
            proof {
                s@.index_of_first_ensures(sep);
                lemma_split_at_first(s@, sep, s@.len() as int);
            }
            let mut out: Vec<String> = Vec::new();
            out.push(String::from_str(s));
            out
        },
        Some(i) => {
            proof {
                s@.index_of_first_ensures(sep);
                lemma_split_at_first(s@, sep, i as int);
            }
            let head = s.substring_char(0, i);
            let tail = s.substring_char(i + 1, n);
            let rest = split_char(tail, sep);
            let mut out: Vec<String> = Vec::new();
            out.push(String::from_str(head));
            let mut k: usize = 0;
            let m = rest.len();
            while k < m
                invariant
                    m == rest@.len(),
                    k <= m,
                    out@.len() == k + 1,
                    out@[0]@ == head@,
                    forall|q: int| 1 <= q <= k ==> (#[trigger] out@[q])@ == rest@[q - 1]@,
                decreases m - k,
            {
                out.push(rest[k].clone());
                k = k + 1;
            }
            proof {
                assert forall|q: int|
                    0 <= q < out@.len() implies (#[trigger] out@[q])@ == spec_split(s@, sep)[q] by {
                    if q > 0 {
                        assert(out@[q]@ == rest@[q - 1]@);
                    }
                }
            }
            out
        },
    }
}

/// The lines of `s`, as [`spec_lines`] lists them.
pub fn split_lines(s: &str) -> (r: Vec<String>)
    ensures
        r@.len() == spec_lines(s@).len(),
        forall|q: int| 0 <= q < r@.len() ==> (#[trigger] r@[q])@ == spec_lines(s@)[q],
{
    let n = s.unicode_len();
    if n == 0 {
        Vec::new()
    } else if s.get_char(n - 1) == '\n' {
        let body = s.substring_char(0, n - 1);
        proof {
            assert(body@ =~= s@.drop_last());
        }
        split_char(body, '\n')
    } else {
        split_char(s, '\n')
    }
}

/// `s` without leading and trailing white space, as [`spec_trim`] yields
/// it.
pub fn trim(s: &str) -> (r: &str)
    ensures
        r@ == spec_trim(s@),
{
    let n = s.unicode_len();
    let mut start: usize = 0;
    while start < n && char_is_space(s.get_char(start))
        invariant
            n == s@.len(),
            start <= n,
            forall|j: int| 0 <= j < start ==> is_space_char(#[trigger] s@[j]),
        decreases n - start,
    {
        start = start + 1;
    }
    let mut end: usize = n;
    while end > start && char_is_space(s.get_char(end - 1))
        invariant
            n == s@.len(),
            start <= end <= n,
            forall|j: int| 0 <= j < start ==> is_space_char(#[trigger] s@[j]),
            forall|j: int| end <= j < n ==> is_space_char(#[trigger] s@[j]),
        decreases end,
    {
        end = end - 1;
    }
    let r = s.substring_char(start, end);
    proof {
        let mid = s@.subrange(start as int, n as int);
        lemma_trim_start_skip(s@, start as int);
        if start < n {
            assert(!is_space_char(mid[0]));
            assert(spec_trim_start(s@) == mid);
        } else {
            assert(mid.len() == 0);
            assert(spec_trim_start(s@) == mid);
        }
        lemma_trim_end_skip(mid, end - start);
        if end > start {
            assert(!is_space_char(mid.subrange(0, end - start).last()));
        }
        assert(mid.subrange(0, end - start) =~= s@.subrange(start as int, end as int));
        assert(spec_trim_end(mid) == s@.subrange(start as int, end as int));
    }
    r
}

} // verus!
