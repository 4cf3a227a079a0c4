//! Character-level helpers on strings: separators, splitting, trimming and joining.
use vstd::prelude::*;
use vstd::string::*;

verus! {

/// Whitespace as this library trims it: the characters with the Unicode
/// `White_Space` property, which `char::is_whitespace` also tests.
pub open spec fn is_blank(c: char) -> bool {
    let u = c as u32;
    ||| 0x9 <= u <= 0xD
    ||| u == 0x20
    ||| u == 0x85
    ||| u == 0xA0
    ||| u == 0x1680
    ||| 0x2000 <= u <= 0x200A
    ||| u == 0x2028
    ||| u == 0x2029
    ||| u == 0x202F
    ||| u == 0x205F
    ||| u == 0x3000
}

pub open spec fn trim_start(s: Seq<char>) -> Seq<char>
    decreases s.len(),
{
    if s.len() > 0 && is_blank(s[0]) {
        trim_start(s.drop_first())
    } else {
        s
    }
}

pub open spec fn trim_end(s: Seq<char>) -> Seq<char>
    decreases s.len(),
{
    if s.len() > 0 && is_blank(s.last()) {
        trim_end(s.drop_last())
    } else {
        s
    }
}

/// `s` without its leading and trailing whitespace.
pub open spec fn trim(s: Seq<char>) -> Seq<char> {
    trim_end(trim_start(s))
}

/// `sep` occurs in `s` starting at index `i`.
pub open spec fn sep_at(s: Seq<char>, sep: Seq<char>, i: int) -> bool {
    &&& 0 <= i
    &&& i + sep.len() <= s.len()
    &&& forall|j: int| 0 <= j < sep.len() ==> s[i + j] == sep[j]
}

/// The first index `>= i` at which `sep` occurs in `s`, or -1 if there is none.
pub open spec fn first_sep_from(s: Seq<char>, sep: Seq<char>, i: int) -> int
    decreases s.len() - i,
{
    if i < 0 || i + sep.len() > s.len() {
        -1
    } else if sep_at(s, sep, i) {
        i
    } else {
        first_sep_from(s, sep, i + 1)
    }
}

/// The pieces of `s` between non-overlapping occurrences of `sep`, taken left to right.
/// A string without `sep` is one piece; an empty separator never splits.
pub open spec fn split(s: Seq<char>, sep: Seq<char>) -> Seq<Seq<char>>
    decreases s.len(),
{
    let k = first_sep_from(s, sep, 0);
    if sep.len() == 0 || k < 0 || k + sep.len() > s.len() {
        seq![s]
    } else {
        seq![s.subrange(0, k)] + split(s.subrange(k + sep.len(), s.len() as int), sep)
    }
}

/// The pieces joined with `sep` between each two neighbours.
pub open spec fn join(pieces: Seq<Seq<char>>, sep: Seq<char>) -> Seq<char>
    decreases pieces.len(),
{
    if pieces.len() == 0 {
        Seq::empty()
    } else if pieces.len() == 1 {
        pieces[0]
    } else {
        join(pieces.drop_last(), sep) + sep + pieces.last()
    }
}

/// The character views of a sequence of strings.
pub open spec fn views(v: Seq<String>) -> Seq<Seq<char>> {
    v.map_values(|s: String| s@)
}

pub proof fn lemma_first_sep_skip(s: Seq<char>, sep: Seq<char>, m: int)
    requires
        0 <= m,
        forall|i: int| 0 <= i < m ==> !sep_at(s, sep, i),
    ensures
        first_sep_from(s, sep, 0) == first_sep_from(s, sep, m),
    decreases m,
{
    if m > 0 {
        lemma_first_sep_skip(s, sep, m - 1);
        if m - 1 + sep.len() <= s.len() {
            assert(!sep_at(s, sep, m - 1));
        } else {
            assert(first_sep_from(s, sep, m) == -1) by {
                reveal_with_fuel(first_sep_from, 1);
            }
        }
    }
}

/// Where the first separator at or after `j` lies, and that none comes before.
pub proof fn lemma_first_sep_range(s: Seq<char>, sep: Seq<char>, j: int)
    requires
        0 <= j,
    ensures
        first_sep_from(s, sep, j) < 0 ==> forall|i: int| j <= i ==> !sep_at(s, sep, i),
        first_sep_from(s, sep, j) >= 0 ==> {
            let k = first_sep_from(s, sep, j);
            &&& j <= k
            &&& sep_at(s, sep, k)
            &&& forall|i: int| j <= i < k ==> !sep_at(s, sep, i)
        },
    decreases s.len() - j,
{
    if j + sep.len() <= s.len() && !sep_at(s, sep, j) {
        lemma_first_sep_range(s, sep, j + 1);
    }
}

/// No piece of a split holds the separator.
pub proof fn lemma_split_pieces(s: Seq<char>, sep: Seq<char>)
    requires
        sep.len() > 0,
    ensures
        forall|i: int, m: int| 0 <= i < split(s, sep).len() ==> !#[trigger] sep_at(split(s, sep)[i], sep, m),
    decreases s.len(),
{
    let k = first_sep_from(s, sep, 0);
    lemma_first_sep_range(s, sep, 0);
    if k >= 0 && k + sep.len() <= s.len() {
        let piece = s.subrange(0, k);
        let rest = s.subrange(k + sep.len(), s.len() as int);
        lemma_split_pieces(rest, sep);
        assert forall|m: int| !sep_at(piece, sep, m) by {
            if sep_at(piece, sep, m) {
                assert forall|j: int| 0 <= j < sep.len() implies s[m + j] == sep[j] by {
                    assert(piece[m + j] == s[m + j]);
                }
                assert(sep_at(s, sep, m));
            }
        }
        let sp = split(s, sep);
        assert(sp == seq![piece] + split(rest, sep));
        assert forall|i: int, m: int| 0 <= i < sp.len() implies !#[trigger] sep_at(sp[i], sep, m) by {
            if i > 0 {
                assert(sp[i] == split(rest, sep)[i - 1]);
            }
        }
    } else {
        assert(split(s, sep) == seq![s]);
    }
}

proof fn lemma_trim_start_shape(s: Seq<char>) -> (a: int)
    ensures
        0 <= a <= s.len(),
        trim_start(s) == s.subrange(a, s.len() as int),
        trim_start(s).len() > 0 ==> !is_blank(trim_start(s)[0]),
    decreases s.len(),
{
    if s.len() > 0 && is_blank(s[0]) {
        let a1 = lemma_trim_start_shape(s.drop_first());
        assert(s.drop_first().subrange(a1, s.drop_first().len() as int) =~= s.subrange(
            a1 + 1,
            s.len() as int,
        ));
        a1 + 1
    } else {
        assert(s.subrange(0, s.len() as int) =~= s);
        0
    }
}

proof fn lemma_trim_end_shape(s: Seq<char>) -> (b: int)
    ensures
        0 <= b <= s.len(),
        trim_end(s) == s.subrange(0, b),
        trim_end(s).len() > 0 ==> !is_blank(trim_end(s).last()),
    decreases s.len(),
{
    if s.len() > 0 && is_blank(s.last()) {
        let b1 = lemma_trim_end_shape(s.drop_last());
        assert(s.drop_last().subrange(0, b1) =~= s.subrange(0, b1));
        b1
    } else {
        assert(s.subrange(0, s.len() as int) =~= s);
        s.len() as int
    }
}

/// Trimming a string without the separator leaves one without it, and with
/// no whitespace at either end.
pub proof fn lemma_trim_clean(p: Seq<char>, sep: Seq<char>)
    requires
        forall|m: int| !sep_at(p, sep, m),
    ensures
        forall|m: int| !sep_at(trim(p), sep, m),
        trim(p).len() > 0 ==> !is_blank(trim(p)[0]) && !is_blank(trim(p).last()),
{
    let a = lemma_trim_start_shape(p);
    let q = trim_start(p);
    let b = lemma_trim_end_shape(q);
    let t = trim(p);
    assert(t == q.subrange(0, b));
    assert forall|m: int| !sep_at(t, sep, m) by {
        if sep_at(t, sep, m) {
            assert forall|j: int| 0 <= j < sep.len() implies p[a + m + j] == sep[j] by {
                assert(t[m + j] == q[m + j]);
                assert(q[m + j] == p[a + m + j]);
            }
            assert(sep_at(p, sep, a + m));
        }
    }
    if t.len() > 0 {
        assert(t[0] == q[0]);
    }
}

pub proof fn lemma_join_front(pieces: Seq<Seq<char>>, sep: Seq<char>)
    requires
        pieces.len() >= 2,
    ensures
        join(pieces, sep) == pieces[0] + sep + join(pieces.drop_first(), sep),
    decreases pieces.len(),
{
    if pieces.len() > 2 {
        lemma_join_front(pieces.drop_last(), sep);
        assert(pieces.drop_last().drop_first() =~= pieces.drop_first().drop_last());
        assert(pieces.drop_first().last() == pieces.last());
        assert(join(pieces, sep) =~= pieces[0] + sep + join(pieces.drop_first(), sep));
    } else {
        assert(pieces.drop_last() =~= seq![pieces[0]]);
        assert(pieces.drop_first() =~= seq![pieces[1]]);
        assert(join(pieces.drop_last(), sep) == pieces[0]);
        assert(join(pieces.drop_first(), sep) == pieces[1]);
        assert(join(pieces, sep) =~= pieces[0] + sep + join(pieces.drop_first(), sep));
    }
}

/// Appends the characters of `t` to `s`.
pub fn push_all(s: &mut String, t: &str)
    ensures
        final(s)@ == old(s)@ + t@,
{
    s.append(t);
}

/// Copies the characters of `t` in `[lo, hi)` into a new string.
pub fn substring(t: &str, lo: usize, hi: usize) -> (r: String)
    requires
        lo <= hi <= t@.len(),
    ensures
        r@ == t@.subrange(lo as int, hi as int),
{
    String::from_str(t.substring_char(lo, hi))
}

pub fn is_blank_char(c: char) -> (r: bool)
    ensures
        r == is_blank(c),
{
    let u = c as u32;
    (0x9 <= u && u <= 0xD) || u == 0x20 || u == 0x85 || u == 0xA0 || u == 0x1680 || (0x2000 <= u
        && u <= 0x200A) || u == 0x2028 || u == 0x2029 || u == 0x202F || u == 0x205F || u == 0x3000
}

proof fn lemma_trim_start_drop(s: Seq<char>, k: int)
    requires
        0 <= k <= s.len(),
        forall|j: int| 0 <= j < k ==> is_blank(s[j]),
    ensures
        trim_start(s) == trim_start(s.subrange(k, s.len() as int)),
    decreases k,
{
    if k > 0 {
        assert(s.drop_first().subrange(k - 1, s.drop_first().len() as int) =~= s.subrange(
            k,
            s.len() as int,
        ));
        lemma_trim_start_drop(s.drop_first(), k - 1);
    } else {
        assert(s.subrange(0, s.len() as int) =~= s);
    }
}

proof fn lemma_trim_end_drop(s: Seq<char>, k: int)
    requires
        0 <= k <= s.len(),
        forall|j: int| k <= j < s.len() ==> is_blank(s[j]),
    ensures
        trim_end(s) == trim_end(s.subrange(0, k)),
    decreases s.len() - k,
{
    if k < s.len() {
        assert(s.drop_last().subrange(0, k) =~= s.subrange(0, k));
        lemma_trim_end_drop(s.drop_last(), k);
    } else {
        assert(s.subrange(0, k) =~= s);
    }
}

/// The characters of `t` without leading and trailing whitespace.
pub fn trimmed(t: &str) -> (r: String)
    ensures
        r@ == trim(t@),
{
    let n = t.unicode_len();
    let mut lo: usize = 0;
    while lo < n && is_blank_char(t.get_char(lo))
        invariant
            n == t@.len(),
            lo <= n,
            forall|j: int| 0 <= j < lo ==> is_blank(t@[j]),
        decreases n - lo,
    {
        lo = lo + 1;
    }
    proof {
        lemma_trim_start_drop(t@, lo as int);
    }
    let ghost rest = t@.subrange(lo as int, n as int);
    assert(trim_start(rest) == rest);
    let mut hi: usize = n;
    while hi > lo && is_blank_char(t.get_char(hi - 1))
        invariant
            n == t@.len(),
            lo <= hi <= n,
            forall|j: int| hi <= j < n ==> is_blank(t@[j]),
        decreases hi,
    {
        hi = hi - 1;
    }
    proof {
        lemma_trim_end_drop(rest, hi - lo);
        assert(rest.subrange(0, hi - lo) =~= t@.subrange(lo as int, hi as int));
        let mid = t@.subrange(lo as int, hi as int);
        assert(trim_end(mid) == mid);
    }
    substring(t, lo, hi)
}

/// Each string trimmed.
pub fn trim_each(pieces: &Vec<String>) -> (r: Vec<String>)
    ensures
        views(r@) == views(pieces@).map_values(|p: Seq<char>| trim(p)),
{
    let ghost want = views(pieces@).map_values(|p: Seq<char>| trim(p));
    let mut r: Vec<String> = Vec::new();
    let mut i: usize = 0;
    assert(views(r@) =~= want.take(0));
    while i < pieces.len()
        invariant
            i <= pieces@.len(),
            want == views(pieces@).map_values(|p: Seq<char>| trim(p)),
            views(r@) == want.take(i as int),
        decreases pieces@.len() - i,
    {
        let t = trimmed(pieces[i].as_str());
        let ghost before = r@;
        r.push(t);
        assert(want[i as int] == trim(pieces@[i as int]@));
        assert(views(r@) =~= views(before).push(t@));
        assert(views(r@) =~= want.take(i + 1));
        i = i + 1;
    }
    assert(want.take(pieces@.len() as int) =~= want);
    r
}

/// Whether `sep` occurs in `t` at index `i`.
pub fn has_sep_at(t: &str, sep: &str, i: usize) -> (r: bool)
    requires
        t@.len() <= usize::MAX,
    ensures
        r == sep_at(t@, sep@, i as int),
{
    let n = t.unicode_len();
    let m = sep.unicode_len();
    if i > n || m > n - i {
        return false;
    }
    let mut j: usize = 0;
    while j < m
        invariant
            n == t@.len(),
            m == sep@.len(),
            i + m <= n,
            j <= m,
            forall|k: int| 0 <= k < j ==> t@[i + k] == sep@[k],
        decreases m - j,
    {
        if t.get_char(i + j) != sep.get_char(j) {
            return false;
        }
        j = j + 1;
    }
    true
}

/// Splits `t` at each occurrence of the non-empty separator `sep`, left to right.
pub fn split_on(t: &str, sep: &str) -> (r: Vec<String>)
    requires
        sep@.len() > 0,
    ensures
        views(r@) == split(t@, sep@),
{
    let n = t.unicode_len();
    let m = sep.unicode_len();
    let mut r: Vec<String> = Vec::new();
    let mut start: usize = 0;
    let mut i: usize = 0;
    assert(t@.subrange(0, n as int) =~= t@);
    assert(views(r@) =~= Seq::<Seq<char>>::empty());
    while i < n && m <= n - i
        invariant
            n == t@.len(),
            m == sep@.len(),
            m > 0,
            start <= i <= n,
            views(r@) + split(t@.subrange(start as int, n as int), sep@) == split(t@, sep@),
            forall|j: int| start <= j < i ==> !sep_at(t@, sep@, j),
        decreases n - i,
    {
        let ghost rest = t@.subrange(start as int, n as int);
        proof {
            assert forall|j: int| 0 <= j < i - start implies !sep_at(rest, sep@, j) by {
                if sep_at(rest, sep@, j) {
                    assert forall|k: int| 0 <= k < sep@.len() implies t@[start + j + k]
                        == sep@[k] by {
                        assert(rest[j + k] == t@[start + j + k]);
                    }
                    assert(sep_at(t@, sep@, start + j));
                }
            }
            lemma_first_sep_skip(rest, sep@, i - start);
        }
        if has_sep_at(t, sep, i) {
            proof {
                assert(sep_at(rest, sep@, i - start)) by {
                    assert forall|k: int| 0 <= k < sep@.len() implies rest[i - start + k]
                        == sep@[k] by {
                        assert(rest[i - start + k] == t@[i + k]);
                    }
                }
                assert(first_sep_from(rest, sep@, i - start) == i - start);
                assert(rest.subrange(0, i - start) =~= t@.subrange(start as int, i as int));
                assert(rest.subrange(i - start + m, rest.len() as int) =~= t@.subrange(
                    (i + m) as int,
                    n as int,
                ));
            }
            let piece = substring(t, start, i);
            let ghost before = r@;
            r.push(piece);
            assert(views(r@) =~= views(before) + seq![piece@]);
            start = i + m;
            i = start;
        } else {
            i = i + 1;
        }
    }
    let ghost rest = t@.subrange(start as int, n as int);
    proof {
        assert forall|j: int| 0 <= j < i - start implies !sep_at(rest, sep@, j) by {
            if sep_at(rest, sep@, j) {
                assert forall|k: int| 0 <= k < sep@.len() implies t@[start + j + k]
                    == sep@[k] by {
                    assert(rest[j + k] == t@[start + j + k]);
                }
                assert(sep_at(t@, sep@, start + j));
            }
        }
        lemma_first_sep_skip(rest, sep@, i - start);
        assert(first_sep_from(rest, sep@, i - start) == -1);
    }
    let last = substring(t, start, n);
    r.push(last);
    assert(views(r@) =~= views(r@.drop_last()) + seq![last@]);
    r
}

} // verus!
