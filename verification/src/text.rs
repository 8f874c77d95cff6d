//! Character-level helpers shared by the URL and path policies: string
//! equality, whitespace tests, and splitting a string on a separator.

use vstd::prelude::*;

verus! {

/// The Unicode characters with the `White_Space` property: exactly the
/// characters that `str::trim` strips from either end of a string.
pub open spec fn is_space_char(c: char) -> bool {
    let u = c as u32;
    ||| u == 0x09
    ||| u == 0x0A
    ||| u == 0x0B
    ||| u == 0x0C
    ||| u == 0x0D
    ||| u == 0x20
    ||| u == 0x85
    ||| u == 0xA0
    ||| u == 0x1680
    ||| (0x2000 <= u && u <= 0x200A)
    ||| u == 0x2028
    ||| u == 0x2029
    ||| u == 0x202F
    ||| u == 0x205F
    ||| u == 0x3000
}

/// Every character of `s` is whitespace; true of the empty string.
pub open spec fn all_space(s: Seq<char>) -> bool {
    forall|i: int| 0 <= i < s.len() ==> is_space_char(s[i])
}

fn char_is_space(c: char) -> (r: bool)
    ensures
        r == is_space_char(c),
{
    let u = c as u32;
    u == 0x09 || u == 0x0A || u == 0x0B || u == 0x0C || u == 0x0D || u == 0x20 || u == 0x85 || u
        == 0xA0 || u == 0x1680 || (0x2000 <= u && u <= 0x200A) || u == 0x2028 || u == 0x2029 || u
        == 0x202F || u == 0x205F || u == 0x3000
}

/// True when `s` is empty or consists of whitespace alone.
pub fn is_blank(s: &str) -> (r: bool)
    ensures
        r == all_space(s@),
{
    let n = s.unicode_len();
    let mut i: usize = 0;
    while i < n
        invariant
            n == s@.len(),
            0 <= i <= n,
            forall|j: int| 0 <= j < i ==> is_space_char(s@[j]),
        decreases n - i,
    {
        if !char_is_space(s.get_char(i)) {
            return false;
        }
        i += 1;
    }
    true
}

/// Character-by-character string equality, proved equivalent to equality
/// of the views.
pub fn str_eq(a: &str, b: &str) -> (r: bool)
    ensures
        r == (a@ == b@),
{
    let n = a.unicode_len();
    if n != b.unicode_len() {
        return false;
    }
    let mut i: usize = 0;
    while i < n
        invariant
            n == a@.len(),
            n == b@.len(),
            0 <= i <= n,
            forall|j: int| 0 <= j < i ==> a@[j] == b@[j],
        decreases n - i,
    {
        if a.get_char(i) != b.get_char(i) {
            return false;
        }
        i += 1;
    }
    proof {
        assert(a@ =~= b@);
    }
    true
}

/// What remains of `s` after the leading whitespace is dropped.
pub open spec fn drop_leading_space(s: Seq<char>) -> Seq<char>
    decreases s.len(),
{
    if s.len() > 0 && is_space_char(s[0]) {
        drop_leading_space(s.drop_first())
    } else {
        s
    }
}

/// What remains of `s` after the trailing whitespace is dropped.
pub open spec fn drop_trailing_space(s: Seq<char>) -> Seq<char>
    decreases s.len(),
{
    if s.len() > 0 && is_space_char(s.last()) {
        drop_trailing_space(s.drop_last())
    } else {
        s
    }
}

/// `s` without leading and trailing whitespace: what `str::trim` keeps.
pub open spec fn trim_of(s: Seq<char>) -> Seq<char> {
    drop_trailing_space(drop_leading_space(s))
}

proof fn lemma_drop_leading(s: Seq<char>, a: int)
    requires
        0 <= a <= s.len(),
        forall|j: int| 0 <= j < a ==> is_space_char(s[j]),
        a < s.len() ==> !is_space_char(s[a]),
    ensures
        drop_leading_space(s) == s.subrange(a, s.len() as int),
    decreases a,
{
    if a == 0 {
        assert(s.subrange(0, s.len() as int) =~= s);
    } else {
        let t = s.drop_first();
        assert(forall|j: int| 0 <= j < a - 1 ==> t[j] == s[j + 1]);
        lemma_drop_leading(t, a - 1);
        assert(t.subrange(a - 1, t.len() as int) =~= s.subrange(a, s.len() as int));
    }
}

proof fn lemma_drop_trailing(s: Seq<char>, b: int)
    requires
        0 <= b <= s.len(),
        forall|j: int| b <= j < s.len() ==> is_space_char(s[j]),
        b > 0 ==> !is_space_char(s[b - 1]),
    ensures
        drop_trailing_space(s) == s.subrange(0, b),
    decreases s.len() - b,
{
    if b == s.len() {
        assert(s.subrange(0, s.len() as int) =~= s);
    } else {
        let t = s.drop_last();
        lemma_drop_trailing(t, b);
        assert(t.subrange(0, b) =~= s.subrange(0, b));
    }
}

/// The first index of `s` that holds a non-whitespace character, or the
/// length where there is none.
fn first_non_space(s: &str) -> (r: usize)
    ensures
        0 <= r <= s@.len(),
        forall|j: int| 0 <= j < r ==> is_space_char(s@[j]),
        r < s@.len() ==> !is_space_char(s@[r as int]),
{
    let n = s.unicode_len();
    let mut i: usize = 0;
    while i < n
        invariant
            n == s@.len(),
            0 <= i <= n,
            forall|j: int| 0 <= j < i ==> is_space_char(s@[j]),
        decreases n - i,
    {
        if !char_is_space(s.get_char(i)) {
            return i;
        }
        i += 1;
    }
    n
}

/// One past the last non-whitespace index of `s`, given that index `a`
/// holds a non-whitespace character.
fn last_non_space_end(s: &str, a: usize) -> (r: usize)
    requires
        a < s@.len(),
        !is_space_char(s@[a as int]),
    ensures
        a < r <= s@.len(),
        !is_space_char(s@[r - 1]),
        forall|j: int| r <= j < s@.len() ==> is_space_char(s@[j]),
{
    let n = s.unicode_len();
    let mut b: usize = n;
    while b > a + 1
        invariant
            n == s@.len(),
            a + 1 <= b <= n,
            !is_space_char(s@[a as int]),
            forall|j: int| b <= j < n ==> is_space_char(s@[j]),
        decreases b,
    {
        if !char_is_space(s.get_char(b - 1)) {
            return b;
        }
        b -= 1;
    }
    b
}

/// Strips leading and trailing whitespace, as `str::trim` does.
pub fn trim_str(s: &str) -> (r: String)
    ensures
        r@ == trim_of(s@),
{
    let n = s.unicode_len();
    let a = first_non_space(s);
    if a == n {
        proof {
            lemma_drop_leading(s@, a as int);
            assert(s@.subrange(n as int, n as int) =~= Seq::<char>::empty());
        }
        return String::new();
    }
    let b = last_non_space_end(s, a);
    proof {
        lemma_drop_leading(s@, a as int);
        let t = s@.subrange(a as int, n as int);
        assert(forall|j: int| 0 <= j < t.len() ==> t[j] == s@[j + a]);
        lemma_drop_trailing(t, b - a);
        assert(t.subrange(0, b - a) =~= s@.subrange(a as int, b as int));
    }
    s.substring_char(a, b).to_owned()
}

/// The views of a sequence of owned strings.
pub open spec fn views_of(v: Seq<String>) -> Seq<Seq<char>> {
    Seq::new(v.len(), |i: int| v[i]@)
}

/// Splitting `s` on the separator `sep`, with the semantics of
/// `str::split`: the result always holds at least one segment, and a
/// separator at either end contributes an empty segment.
pub open spec fn split_on(s: Seq<char>, sep: char) -> Seq<Seq<char>>
    decreases s.len(),
{
    if s.len() == 0 {
        seq![Seq::<char>::empty()]
    } else if s.last() == sep {
        split_on(s.drop_last(), sep).push(Seq::<char>::empty())
    } else {
        let prev = split_on(s.drop_last(), sep);
        prev.update(prev.len() - 1, prev.last().push(s.last()))
    }
}

/// A segment without one trailing carriage return, if it ends in one.
pub open spec fn strip_cr(t: Seq<char>) -> Seq<char> {
    if t.len() > 0 && t.last() == '\r' {
        t.drop_last()
    } else {
        t
    }
}

/// `strip_cr` applied to every segment of a list.
pub open spec fn stripped_views(raw: Seq<Seq<char>>) -> Seq<Seq<char>> {
    Seq::new(raw.len(), |i: int| strip_cr(raw[i]))
}

/// The lines of `s`, with the semantics of `str::lines`: split at `\n`,
/// a carriage return before each split is dropped, and a final line
/// ending yields no empty last line. A final segment without a line
/// ending keeps any trailing carriage return.
pub open spec fn lines_of(s: Seq<char>) -> Seq<Seq<char>> {
    let raw = split_on(s, '\n');
    let body = stripped_views(raw.drop_last());
    if raw.last().len() == 0 {
        body
    } else {
        body.push(raw.last())
    }
}

proof fn lemma_split_on_nonempty(s: Seq<char>, sep: char)
    ensures
        split_on(s, sep).len() >= 1,
    decreases s.len(),
{
    if s.len() > 0 {
        lemma_split_on_nonempty(s.drop_last(), sep);
    }
}

/// Splits `s` on `sep`, as `str::split` does.
pub fn split_str(s: &str, sep: char) -> (r: Vec<String>)
    ensures
        views_of(r@) == split_on(s@, sep),
{
    let n = s.unicode_len();
    let mut segs: Vec<String> = Vec::new();
    let mut start: usize = 0;
    let mut i: usize = 0;
    proof {
        assert(s@.take(0) =~= Seq::<char>::empty());
        assert(s@.subrange(0, 0) =~= Seq::<char>::empty());
        assert(split_on(s@.take(0), sep) =~= views_of(segs@).push(s@.subrange(0, 0)));
    }
    while i < n
        invariant
            n == s@.len(),
            0 <= start <= i <= n,
            split_on(s@.take(i as int), sep) == views_of(segs@).push(
                s@.subrange(start as int, i as int),
            ),
        decreases n - i,
    {
        proof {
            assert(s@.take(i + 1).drop_last() =~= s@.take(i as int));
            assert(s@.take(i + 1).last() == s@[i as int]);
            lemma_split_on_nonempty(s@.take(i as int), sep);
        }
        let c = s.get_char(i);
        if c == sep {
            let seg = s.substring_char(start, i).to_owned();
            proof {
                assert(s@.subrange(i + 1, i + 1) =~= Seq::<char>::empty());
                assert(views_of(segs@.push(seg)) =~= views_of(segs@).push(
                    s@.subrange(start as int, i as int),
                ));
                assert(split_on(s@.take(i + 1), sep) == split_on(s@.take(i as int), sep).push(
                    Seq::<char>::empty(),
                ));
                assert(split_on(s@.take(i + 1), sep) =~= views_of(segs@.push(seg)).push(
                    s@.subrange(i + 1, i + 1),
                ));
            }
            segs.push(seg);
            start = i + 1;
        } else {
            proof {
                let prev = split_on(s@.take(i as int), sep);
                assert(prev.last() == s@.subrange(start as int, i as int));
                assert(s@.subrange(start as int, i as int).push(s@[i as int]) =~= s@.subrange(
                    start as int,
                    i + 1,
                ));
                assert(split_on(s@.take(i + 1), sep) =~= views_of(segs@).push(
                    s@.subrange(start as int, i + 1),
                ));
            }
        }
        i += 1;
    }
    let seg = s.substring_char(start, n).to_owned();
    proof {
        assert(s@.take(n as int) =~= s@);
        assert(views_of(segs@.push(seg)) =~= views_of(segs@).push(
            s@.subrange(start as int, n as int),
        ));
    }
    segs.push(seg);
    segs
}

/// Splits `s` into lines, as `str::lines` does.
pub fn split_lines(s: &str) -> (r: Vec<String>)
    ensures
        views_of(r@) == lines_of(s@),
{
    let raw = split_str(s, '\n');
    proof {
        lemma_split_on_nonempty(s@, '\n');
    }
    let n = raw.len();
    let mut out: Vec<String> = Vec::new();
    let mut i: usize = 0;
    while i < n - 1
        invariant
            n == raw@.len(),
            n >= 1,
            views_of(raw@) == split_on(s@, '\n'),
            0 <= i <= n - 1,
            out@.len() == i,
            forall|j: int| 0 <= j < i ==> out@[j]@ == strip_cr(views_of(raw@)[j]),
        decreases n - 1 - i,
    {
        let seg = &raw[i];
        let m = seg.unicode_len();
        if m > 0 && seg.get_char(m - 1) == '\r' {
            let cut = seg.substring_char(0, m - 1);
            proof {
                assert(seg@.subrange(0, m - 1) =~= seg@.drop_last());
            }
            out.push(cut.to_owned());
        } else {
            out.push(seg.clone());
        }
        i += 1;
    }
    let last = &raw[n - 1];
    if last.unicode_len() > 0 {
        out.push(last.clone());
        proof {
            let raws = split_on(s@, '\n');
            assert(raws.last().len() > 0);
            assert(views_of(out@) =~= stripped_views(raws.drop_last()).push(raws.last()));
        }
    } else {
        proof {
            let raws = split_on(s@, '\n');
            assert(raws.last().len() == 0);
            assert(views_of(out@) =~= stripped_views(raws.drop_last()));
        }
    }
    out
}

} // verus!
