use vstd::prelude::*;

verus! {

/// The characters of `s`, in order.
pub fn chars_of(s: &str) -> (r: Vec<char>)
    ensures
        r@ == s@,
{
    let n = s.unicode_len();
    let mut out: Vec<char> = Vec::new();
    for i in 0..n
        invariant
            n == s@.len(),
            out@ == s@.subrange(0, i as int),
    {
        let c = s.get_char(i);
        out.push(c);
        assert(out@ =~= s@.subrange(0, i + 1));
    }
    assert(out@ =~= s@);
    out
}

pub open spec fn is_ascii_upper(c: char) -> bool {
    'A' <= c <= 'Z'
}

/// Two characters are equal once ASCII letters are folded to one case.
pub open spec fn char_eq_ignore_ascii_case(a: char, b: char) -> bool {
    ||| a == b
    ||| is_ascii_upper(a) && a as u32 + 32 == b as u32
    ||| is_ascii_upper(b) && b as u32 + 32 == a as u32
}

/// Two strings are equal once ASCII letters are folded to one case.
pub open spec fn eq_ignore_ascii_case(a: Seq<char>, b: Seq<char>) -> bool {
    &&& a.len() == b.len()
    &&& forall|i: int| 0 <= i < a.len() ==> char_eq_ignore_ascii_case(#[trigger] a[i], b[i])
}

fn char_eq_ignore_case(a: char, b: char) -> (r: bool)
    ensures
        r == char_eq_ignore_ascii_case(a, b),
{
    let x = a as u32;
    let y = b as u32;
    x == y || (65 <= x && x <= 90 && x + 32 == y) || (65 <= y && y <= 90 && y + 32 == x)
}

/// Whether `a` and `b` are equal up to the case of ASCII letters.
pub fn equal_ignoring_ascii_case(a: &str, b: &str) -> (r: bool)
    ensures
        r == eq_ignore_ascii_case(a@, b@),
{
    let x = chars_of(a);
    let y = chars_of(b);
    if x.len() != y.len() {
        return false;
    }
    for i in 0..x.len()
        invariant
            x@ == a@,
            y@ == b@,
            x@.len() == y@.len(),
            forall|j: int| 0 <= j < i ==> char_eq_ignore_ascii_case(#[trigger] a@[j], b@[j]),
    {
        if !char_eq_ignore_case(x[i], y[i]) {
            return false;
        }
    }
    true
}

/// `needle` stands in `s` at position `i`.
pub open spec fn occurs_at(s: Seq<char>, needle: Seq<char>, i: int) -> bool {
    &&& 0 <= i
    &&& i + needle.len() <= s.len()
    &&& s.subrange(i, i + needle.len()) == needle
}

/// The first position at or after `i` where `needle` occurs in `s`.
pub open spec fn find_from(s: Seq<char>, needle: Seq<char>, i: nat) -> Option<nat>
    decreases s.len() + 1 - i,
{
    if i + needle.len() > s.len() {
        None
    } else if s.subrange(i as int, (i + needle.len()) as int) == needle {
        Some(i)
    } else {
        find_from(s, needle, i + 1)
    }
}

/// Whether `s` starts with `prefix`.
pub open spec fn starts_with(s: Seq<char>, prefix: Seq<char>) -> bool {
    prefix.len() <= s.len() && s.subrange(0, prefix.len() as int) == prefix
}

fn occurs_here(s: &Vec<char>, needle: &Vec<char>, i: usize) -> (r: bool)
    requires
        i + needle@.len() <= s@.len(),
    ensures
        r == (s@.subrange(i as int, i + needle@.len()) == needle@),
{
    let n = s.len();
    for j in 0..needle.len()
        invariant
            n == s@.len(),
            i + needle@.len() <= s@.len(),
            forall|k: int| 0 <= k < j ==> s@[i + k] == needle@[k],
    {
        if s[i + j] != needle[j] {
            assert(s@.subrange(i as int, i + needle@.len())[j as int] != needle@[j as int]);
            return false;
        }
    }
    assert(s@.subrange(i as int, i + needle@.len()) =~= needle@);
    true
}

/// The first position at or after `start` where `needle` occurs in `s`.
pub fn find_chars(s: &Vec<char>, needle: &Vec<char>, start: usize) -> (r: Option<usize>)
    ensures
        r matches Some(p) ==> find_from(s@, needle@, start as nat) == Some(p as nat),
        r is None ==> find_from(s@, needle@, start as nat) is None,
{
    let mut i = start;
    while needle.len() <= s.len() && i <= s.len() - needle.len()
        invariant
            start <= i,
            find_from(s@, needle@, start as nat) == find_from(s@, needle@, i as nat),
        decreases s@.len() + 1 - i,
    {
        if occurs_here(s, needle, i) {
            return Some(i);
        }
        assert(needle@.len() > 0) by {
            if needle@.len() == 0 {
                assert(s@.subrange(i as int, i as int) =~= needle@);
            }
        }
        i = i + 1;
    }
    None
}

/// Whether `s` starts with `prefix`.
pub fn has_prefix(s: &str, prefix: &str) -> (r: bool)
    ensures
        r == starts_with(s@, prefix@),
{
    let x = chars_of(s);
    let p = chars_of(prefix);
    if p.len() > x.len() {
        return false;
    }
    occurs_here(&x, &p, 0)
}

/// Leading double quotes removed.
pub open spec fn trim_start_quotes(s: Seq<char>) -> Seq<char>
    decreases s.len(),
{
    if s.len() > 0 && s[0] == '"' {
        trim_start_quotes(s.drop_first())
    } else {
        s
    }
}

/// Trailing double quotes removed.
pub open spec fn trim_end_quotes(s: Seq<char>) -> Seq<char>
    decreases s.len(),
{
    if s.len() > 0 && s.last() == '"' {
        trim_end_quotes(s.drop_last())
    } else {
        s
    }
}

/// Double quotes removed from both ends.
pub open spec fn trim_quotes(s: Seq<char>) -> Seq<char> {
    trim_end_quotes(trim_start_quotes(s))
}

/// The positions `(lo, hi)` such that `s[lo..hi]` is `s[from..to]` with
/// double quotes removed from both ends.
fn quote_trimmed_bounds(s: &Vec<char>, from: usize, to: usize) -> (r: (usize, usize))
    requires
        from <= to <= s@.len(),
    ensures
        from <= r.0 <= r.1 <= to,
        s@.subrange(r.0 as int, r.1 as int) == trim_quotes(s@.subrange(from as int, to as int)),
{
    let mut lo = from;
    while lo < to && s[lo] == '"'
        invariant
            from <= lo <= to <= s@.len(),
            trim_start_quotes(s@.subrange(from as int, to as int)) == trim_start_quotes(
                s@.subrange(lo as int, to as int),
            ),
        decreases to - lo,
    {
        assert(s@.subrange(lo as int, to as int).drop_first() =~= s@.subrange(lo + 1, to as int));
        lo = lo + 1;
    }
    assert(trim_start_quotes(s@.subrange(lo as int, to as int)) == s@.subrange(lo as int, to as int));
    let mut hi = to;
    while hi > lo && s[hi - 1] == '"'
        invariant
            from <= lo <= hi <= to <= s@.len(),
            trim_quotes(s@.subrange(from as int, to as int)) == trim_end_quotes(
                s@.subrange(lo as int, hi as int),
            ),
        decreases hi - lo,
    {
        assert(s@.subrange(lo as int, hi as int).drop_last() =~= s@.subrange(lo as int, hi - 1));
        hi = hi - 1;
    }
    (lo, hi)
}

/// The characters `s[from..to]` as a string.
pub fn substring(s: &str, from: usize, to: usize) -> (r: String)
    requires
        from <= to <= s@.len(),
    ensures
        r@ == s@.subrange(from as int, to as int),
{
    s.substring_char(from, to).to_owned()
}

/// The text of `s` between the first occurrence of `key` and the next one
/// (or the end), with surrounding double quotes removed; `None` when `key`
/// does not occur.
pub open spec fn parameter_after(s: Seq<char>, key: Seq<char>) -> Option<Seq<char>> {
    match find_from(s, key, 0) {
        Some(k) => {
            let rest = s.subrange((k + key.len()) as int, s.len() as int);
            let segment = match find_from(rest, key, 0) {
                Some(e) => rest.subrange(0, e as int),
                None => rest,
            };
            Some(trim_quotes(segment))
        },
        None => None,
    }
}

proof fn lemma_find_from_bounds(s: Seq<char>, needle: Seq<char>, i: nat)
    ensures
        find_from(s, needle, i) matches Some(p) ==> i <= p && p + needle.len() <= s.len() && s.subrange(
            p as int,
            (p + needle.len()) as int,
        ) == needle,
    decreases s.len() + 1 - i,
{
    if i + needle.len() <= s.len() && s.subrange(i as int, (i + needle.len()) as int) != needle {
        lemma_find_from_bounds(s, needle, i + 1);
    }
}

proof fn lemma_find_from_shift(s: Seq<char>, needle: Seq<char>, k: nat, i: nat)
    requires
        k <= s.len(),
    ensures
        find_from(s.subrange(k as int, s.len() as int), needle, i) == match find_from(
            s,
            needle,
            k + i,
        ) {
            Some(p) => Some((p - k) as nat),
            None => None,
        },
    decreases s.len() + 1 - k - i,
{
    let rest = s.subrange(k as int, s.len() as int);
    if i + needle.len() <= rest.len() {
        assert(rest.subrange(i as int, (i + needle.len()) as int) =~= s.subrange(
            (k + i) as int,
            (k + i + needle.len()) as int,
        ));
        if rest.subrange(i as int, (i + needle.len()) as int) != needle {
            lemma_find_from_shift(s, needle, k, i + 1);
        }
    }
}

/// The value of the parameter `key` in `s`, as `parameter_after` describes it.
pub fn find_parameter(s: &str, key: &str) -> (r: Option<String>)
    ensures
        opt_view(r) == parameter_after(s@, key@),
{
    let chars = chars_of(s);
    let needle = chars_of(key);
    let total = chars.len();
    match find_chars(&chars, &needle, 0) {
        Some(k) => {
            proof {
                lemma_find_from_bounds(s@, key@, 0);
            }
            let start = k + needle.len();
            let ghost rest = s@.subrange(start as int, s@.len() as int);
            let end = match find_chars(&chars, &needle, start) {
                Some(e) => e,
                None => chars.len(),
            };
            proof {
                lemma_find_from_bounds(s@, key@, start as nat);
                lemma_find_from_shift(s@, key@, start as nat, 0);
                assert(s@.subrange(start as int, end as int) =~= match find_from(rest, key@, 0) {
                    Some(e) => rest.subrange(0, e as int),
                    None => rest,
                });
            }
            let (lo, hi) = quote_trimmed_bounds(&chars, start, end);
            Some(substring(s, lo, hi))
        },
        None => None,
    }
}

/// The view of an optional string.
pub open spec fn opt_view(s: Option<String>) -> Option<Seq<char>> {
    match s {
        Some(v) => Some(v@),
        None => None,
    }
}

} // verus!
