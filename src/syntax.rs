//! Character-level pieces of the assembly syntax: searching, trimming,
//! case-insensitive words, unsigned decimals and string escapes.
use vstd::prelude::*;

verus! {

/// Index of the first `c` in `s`, or `s.len()` when there is none.
pub open spec fn find_spec(s: Seq<char>, c: char) -> nat
    decreases s.len(),
{
    if s.len() == 0 {
        0
    } else if s[0] == c {
        0
    } else {
        1 + find_spec(s.drop_first(), c)
    }
}

proof fn lemma_find(s: Seq<char>, c: char, i: int)
    requires
        0 <= i <= s.len(),
        forall|j: int| 0 <= j < i ==> s[j] != c,
        i == s.len() || s[i] == c,
    ensures
        find_spec(s, c) == i,
    decreases i,
{
    if i > 0 {
        lemma_find(s.drop_first(), c, i - 1);
    }
}

pub fn find_char(s: &Vec<char>, c: char) -> (r: usize)
    ensures
        r == find_spec(s@, c),
        r <= s@.len(),
{
    let mut i: usize = 0;
    while i < s.len() && s[i] != c
        invariant
            i <= s@.len(),
            forall|j: int| 0 <= j < i ==> s@[j] != c,
        decreases s@.len() - i,
    {
        i = i + 1;
    }
    proof {
        lemma_find(s@, c, i as int);
    }
    i
}

/// Index of the first `c` in `s` at or after `from`, or `s.len()`.
pub fn find_char_from(s: &Vec<char>, c: char, from: usize) -> (r: usize)
    requires
        from <= s@.len(),
    ensures
        r - from == find_spec(s@.subrange(from as int, s@.len() as int), c),
        from <= r <= s@.len(),
{
    let mut i: usize = from;
    while i < s.len() && s[i] != c
        invariant
            from <= i <= s@.len(),
            forall|j: int| from <= j < i ==> s@[j] != c,
        decreases s@.len() - i,
    {
        i = i + 1;
    }
    proof {
        lemma_find(s@.subrange(from as int, s@.len() as int), c, i - from);
    }
    i
}

/// The lines of `s`: cut at each `\n`, a `\r` just before a `\n` dropped,
/// and no empty line after a final `\n`.
pub open spec fn lines_spec(s: Seq<char>) -> Seq<Seq<char>>
    decreases s.len(),
{
    if s.len() == 0 {
        Seq::empty()
    } else {
        let k = find_spec(s, '\n') as int;
        if k < s.len() {
            let l = s.subrange(0, k);
            let l = if l.len() > 0 && l.last() == '\r' { l.drop_last() } else { l };
            seq![l] + lines_spec(s.subrange(k + 1, s.len() as int))
        } else {
            seq![s]
        }
    }
}

/// Cuts text into lines.
pub fn split_lines(s: &Vec<char>) -> (r: Vec<Vec<char>>)
    ensures
        r@.map_values(|l: Vec<char>| l@) == lines_spec(s@),
{
    let n = s.len();
    let mut r: Vec<Vec<char>> = Vec::new();
    let mut pos: usize = 0;
    assert(s@.subrange(0, n as int) =~= s@);
    while pos < n
        invariant
            pos <= n == s@.len(),
            lines_spec(s@) == r@.map_values(|l: Vec<char>| l@) + lines_spec(s@.subrange(pos as int, n as int)),
        decreases n - pos,
    {
        let ghost rest = s@.subrange(pos as int, n as int);
        let k = find_char_from(s, '\n', pos);
        let ghost old_r = r@;
        if k < n {
            let end = if k > pos && s[k - 1] == '\r' { k - 1 } else { k };
            let l = slice_chars(s, pos, end);
            assert(rest.subrange(k - pos + 1, rest.len() as int) =~= s@.subrange(k + 1, n as int));
            assert(l@ =~= {
                let m = rest.subrange(0, k - pos);
                if m.len() > 0 && m.last() == '\r' { m.drop_last() } else { m }
            });
            r.push(l);
            pos = k + 1;
            assert(r@.map_values(|l: Vec<char>| l@) =~= old_r.map_values(|l: Vec<char>| l@) + seq![l@]);
        } else {
            let l = slice_chars(s, pos, n);
            r.push(l);
            pos = n;
            assert(r@.map_values(|l: Vec<char>| l@) =~= old_r.map_values(|l: Vec<char>| l@) + seq![rest]);
        }
    }
    assert(lines_spec(s@.subrange(n as int, n as int)) =~= Seq::<Seq<char>>::empty());
    assert(r@.map_values(|l: Vec<char>| l@) + Seq::<Seq<char>>::empty() =~= r@.map_values(|l: Vec<char>| l@));
    r
}

/// `s` without its leading run of `c`.
pub open spec fn strip_lead(s: Seq<char>, c: char) -> Seq<char>
    decreases s.len(),
{
    if s.len() > 0 && s[0] == c {
        strip_lead(s.drop_first(), c)
    } else {
        s
    }
}

/// `s` without its trailing run of `c`.
pub open spec fn strip_trail(s: Seq<char>, c: char) -> Seq<char>
    decreases s.len(),
{
    if s.len() > 0 && s.last() == c {
        strip_trail(s.drop_last(), c)
    } else {
        s
    }
}

/// `s` without the runs of `c` at either end.
pub open spec fn trim_spec(s: Seq<char>, c: char) -> Seq<char> {
    strip_trail(strip_lead(s, c), c)
}

/// The characters of `s` from `lo` up to `hi`.
pub fn slice_chars(s: &Vec<char>, lo: usize, hi: usize) -> (r: Vec<char>)
    requires
        lo <= hi <= s@.len(),
    ensures
        r@ == s@.subrange(lo as int, hi as int),
{
    let mut r: Vec<char> = Vec::new();
    let mut i: usize = lo;
    while i < hi
        invariant
            lo <= i <= hi <= s@.len(),
            r@ == s@.subrange(lo as int, i as int),
        decreases hi - i,
    {
        r.push(s[i]);
        i = i + 1;
        assert(r@ =~= s@.subrange(lo as int, i as int));
    }
    r
}

/// `s` without the runs of `c` at either end.
pub fn trim_char(s: &Vec<char>, c: char) -> (r: Vec<char>)
    ensures
        r@ == trim_spec(s@, c),
{
    let n = s.len();
    let mut lo: usize = 0;
    assert(s@.subrange(0, n as int) =~= s@);
    while lo < n && s[lo] == c
        invariant
            lo <= n == s@.len(),
            strip_lead(s@, c) == strip_lead(s@.subrange(lo as int, n as int), c),
        decreases n - lo,
    {
        assert(s@.subrange(lo as int, n as int).drop_first() =~= s@.subrange(lo + 1, n as int));
        lo = lo + 1;
    }
    assert(strip_lead(s@, c) == s@.subrange(lo as int, n as int));
    let mut hi: usize = n;
    while hi > lo && s[hi - 1] == c
        invariant
            lo <= hi <= n == s@.len(),
            trim_spec(s@, c) == strip_trail(s@.subrange(lo as int, hi as int), c),
        decreases hi,
    {
        assert(s@.subrange(lo as int, hi as int).drop_last() =~= s@.subrange(lo as int, hi - 1));
        hi = hi - 1;
    }
    slice_chars(s, lo, hi)
}

/// The code of `c` with ASCII capitals mapped to small letters.
pub open spec fn fold_case(c: char) -> u32 {
    if 65 <= (c as u32) <= 90 {
        (c as u32 + 32) as u32
    } else {
        c as u32
    }
}

/// `m` spells the lower-case word `w`, ignoring ASCII case.
pub open spec fn word_is(m: Seq<char>, w: Seq<char>) -> bool {
    m.len() == w.len() && forall|i: int| 0 <= i < m.len() ==> fold_case(m[i]) == w[i] as u32
}

pub fn matches_word(m: &Vec<char>, w: &Vec<char>) -> (r: bool)
    ensures
        r == word_is(m@, w@),
{
    if m.len() != w.len() {
        return false;
    }
    let mut i: usize = 0;
    while i < m.len()
        invariant
            m@.len() == w@.len(),
            i <= m@.len(),
            forall|j: int| 0 <= j < i ==> fold_case(m@[j]) == w@[j] as u32,
        decreases m@.len() - i,
    {
        let code = m[i] as u32;
        let folded: u32 = if 65 <= code && code <= 90 { code + 32 } else { code };
        if folded != w[i] as u32 {
            return false;
        }
        i = i + 1;
    }
    true
}

pub open spec fn is_digit(c: char) -> bool {
    '0' <= c <= '9'
}

/// The number that the decimal digits `s` spell.
pub open spec fn digits_value(s: Seq<char>) -> int
    decreases s.len(),
{
    if s.len() == 0 {
        0
    } else {
        digits_value(s.drop_last()) * 10 + (s.last() as u32 - 48)
    }
}

/// The digits of an unsigned decimal, after an optional `+`.
pub open spec fn unsigned_digits(s: Seq<char>) -> Seq<char> {
    if s.len() > 0 && s[0] == '+' {
        s.drop_first()
    } else {
        s
    }
}

/// The unsigned decimal that `s` spells, when it is one and fits in `usize`.
pub open spec fn parse_usize_spec(s: Seq<char>) -> Option<usize> {
    let d = unsigned_digits(s);
    if d.len() > 0 && (forall|i: int| 0 <= i < d.len() ==> is_digit(d[i])) && digits_value(d)
        <= usize::MAX {
        Some(digits_value(d) as usize)
    } else {
        None
    }
}

/// Parses an unsigned decimal that fits in `usize`.
pub fn parse_usize(s: &Vec<char>) -> (r: Option<usize>)
    ensures
        r == parse_usize_spec(s@),
{
    let start: usize = if s.len() > 0 && s[0] == '+' { 1 } else { 0 };
    let ghost d = unsigned_digits(s@);
    assert(d =~= s@.subrange(start as int, s@.len() as int));
    if start >= s.len() {
        return None;
    }
    let mut acc: usize = 0;
    let mut big = false;
    let mut i: usize = start;
    while i < s.len()
        invariant
            start <= i <= s@.len(),
            d == s@.subrange(start as int, s@.len() as int),
            d == unsigned_digits(s@),
            forall|j: int| 0 <= j < i - start ==> is_digit(d[j]),
            !big ==> acc == digits_value(d.subrange(0, i - start)),
            big ==> digits_value(d.subrange(0, i - start)) > usize::MAX,
            digits_value(d.subrange(0, i - start)) >= 0,
        decreases s@.len() - i,
    {
        let c = s[i];
        if c < '0' || c > '9' {
            assert(d[i - start] == c);
            assert(!is_digit(d[i - start]));
            return None;
        }
        let ghost pre = d.subrange(0, i - start);
        let ghost next = d.subrange(0, i + 1 - start);
        assert(next.drop_last() =~= pre);
        assert(digits_value(next) == digits_value(pre) * 10 + (c as u32 - 48));
        let dig = (c as u32 - 48) as usize;
        if !big {
            match acc.checked_mul(10) {
                Some(t) => match t.checked_add(dig) {
                    Some(u) => {
                        acc = u;
                    },
                    None => {
                        big = true;
                    },
                },
                None => {
                    big = true;
                },
            }
        } else {
            assert(digits_value(pre) * 10 >= digits_value(pre)) by (nonlinear_arith)
                requires
                    digits_value(pre) >= 0,
            ;
        }
        i = i + 1;
    }
    assert(d.subrange(0, d.len() as int) =~= d);
    if big {
        None
    } else {
        Some(acc)
    }
}

/// `s` with each `\n` and `\r` escape replaced by the character it names.
pub open spec fn unescape(s: Seq<char>) -> Seq<char>
    decreases s.len(),
{
    if s.len() == 0 {
        s
    } else if s.len() >= 2 && s[0] == '\\' && s[1] == 'n' {
        seq!['\n'] + unescape(s.subrange(2, s.len() as int))
    } else if s.len() >= 2 && s[0] == '\\' && s[1] == 'r' {
        seq!['\r'] + unescape(s.subrange(2, s.len() as int))
    } else {
        seq![s[0]] + unescape(s.drop_first())
    }
}

/// Expands the `\n` and `\r` escapes of `s`.
pub fn unescape_chars(s: &Vec<char>) -> (r: Vec<char>)
    ensures
        r@ == unescape(s@),
{
    let n = s.len();
    let mut r: Vec<char> = Vec::new();
    let mut i: usize = 0;
    assert(s@.subrange(0, n as int) =~= s@);
    while i < n
        invariant
            i <= n == s@.len(),
            unescape(s@) == r@ + unescape(s@.subrange(i as int, n as int)),
        decreases n - i,
    {
        let ghost rest = s@.subrange(i as int, n as int);
        if i + 1 < n && s[i] == '\\' && (s[i + 1] == 'n' || s[i + 1] == 'r') {
            let e = if s[i + 1] == 'n' { '\n' } else { '\r' };
            assert(rest.subrange(2, rest.len() as int) =~= s@.subrange(i + 2, n as int));
            r.push(e);
            i = i + 2;
            assert(unescape(s@) == r@ + unescape(s@.subrange(i as int, n as int))) by {
                assert(unescape(rest) == seq![e] + unescape(s@.subrange(i as int, n as int)));
                assert(r@ + unescape(s@.subrange(i as int, n as int)) =~= r@.drop_last() + (seq![e] + unescape(s@.subrange(i as int, n as int))));
            }
        } else {
            let c = s[i];
            assert(rest.drop_first() =~= s@.subrange(i + 1, n as int));
            r.push(c);
            i = i + 1;
            assert(unescape(s@) == r@ + unescape(s@.subrange(i as int, n as int))) by {
                assert(unescape(rest) == seq![c] + unescape(s@.subrange(i as int, n as int)));
                assert(r@ + unescape(s@.subrange(i as int, n as int)) =~= r@.drop_last() + (seq![c] + unescape(s@.subrange(i as int, n as int))));
            }
        }
    }
    assert(r@ + unescape(s@.subrange(n as int, n as int)) =~= r@);
    r
}

} // verus!
