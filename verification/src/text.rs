//! String-level helpers shared across the pipeline: splitting a rendered
//! path on `/` while dropping empty segments, joining segments back into a
//! relative path, and zero-padded decimal formatting for date fields.
use vstd::prelude::*;

verus! {

/// Index of the first `'/'` in `s`, or `s.len()` if there is none.
pub open spec fn first_slash(s: Seq<char>) -> int
    decreases s.len(),
{
    if s.len() == 0 {
        0
    } else if s[0] == '/' {
        0
    } else {
        1 + first_slash(s.subrange(1, s.len() as int))
    }
}

pub proof fn lemma_first_slash(s: Seq<char>)
    ensures
        0 <= first_slash(s) <= s.len(),
        first_slash(s) < s.len() ==> s[first_slash(s)] == '/',
        forall|i: int| 0 <= i < first_slash(s) ==> s[i] != '/',
    decreases s.len(),
{
    if s.len() == 0 {
    } else if s[0] == '/' {
    } else {
        let t = s.subrange(1, s.len() as int);
        lemma_first_slash(t);
        assert forall|i: int| 0 <= i < first_slash(s) implies s[i] != '/' by {
            if i > 0 {
                assert(t[i - 1] == s[i]);
            }
        }
    }
}

/// `first_slash` is pinned by its characteristic properties.
pub proof fn lemma_first_slash_is(s: Seq<char>, j: int)
    requires
        0 <= j <= s.len(),
        j < s.len() ==> s[j] == '/',
        forall|i: int| 0 <= i < j ==> s[i] != '/',
    ensures
        first_slash(s) == j,
    decreases s.len(),
{
    if s.len() == 0 {
    } else if s[0] == '/' {
        assert(j == 0);
    } else {
        let t = s.subrange(1, s.len() as int);
        assert(j >= 1);
        if j < s.len() {
            assert(t[j - 1] == s[j]);
        }
        assert forall|i: int| 0 <= i < j - 1 implies t[i] != '/' by {
            assert(t[i] == s[i + 1]);
        }
        lemma_first_slash_is(t, j - 1);
    }
}

/// The sequence of non-empty `/`-separated segments of `s`.
pub open spec fn segments_of(s: Seq<char>) -> Seq<Seq<char>>
    decreases s.len(),
{
    if s.len() == 0 {
        Seq::empty()
    } else {
        let i = first_slash(s);
        if i <= 0 {
            segments_of(s.subrange(1, s.len() as int))
        } else if i >= s.len() {
            seq![s]
        } else {
            seq![s.subrange(0, i)] + segments_of(s.subrange(i + 1, s.len() as int))
        }
    }
}

/// A string without any `'/'` is a single segment (or none, when empty).
pub proof fn lemma_segments_no_slash(s: Seq<char>)
    requires
        forall|i: int| 0 <= i < s.len() ==> s[i] != '/',
    ensures
        s.len() == 0 ==> segments_of(s) == Seq::<Seq<char>>::empty(),
        s.len() > 0 ==> segments_of(s) == seq![s],
{
    if s.len() > 0 {
        lemma_first_slash_is(s, s.len() as int);
    }
}

/// Splitting distributes over a cut placed just after a `'/'` (or at the start).
pub proof fn lemma_segments_boundary(s: Seq<char>, start: int)
    requires
        0 <= start <= s.len(),
        start == 0 || s[start - 1] == '/',
    ensures
        segments_of(s) == segments_of(s.subrange(0, start)) + segments_of(
            s.subrange(start, s.len() as int),
        ),
    decreases s.len(),
{
    if start == 0 {
        assert(s.subrange(0, s.len() as int) =~= s);
        assert(segments_of(s.subrange(0, 0)) == Seq::<Seq<char>>::empty());
        assert(segments_of(s) =~= segments_of(s.subrange(0, 0)) + segments_of(
            s.subrange(0, s.len() as int),
        ));
    } else {
        lemma_first_slash(s);
        let i = first_slash(s);
        assert(i <= start - 1) by {
            if i > start - 1 {
                assert(s[start - 1] != '/');
            }
        }
        let pre = s.subrange(0, start);
        lemma_first_slash(pre);
        assert(first_slash(pre) == i) by {
            assert forall|k: int| 0 <= k < i implies pre[k] != '/' by {
                assert(pre[k] == s[k]);
            }
            if i < start {
                assert(pre[i] == s[i]);
            }
            lemma_first_slash_is(pre, i);
        }
        if i == 0 {
            let t = s.subrange(1, s.len() as int);
            lemma_segments_boundary(t, start - 1);
            assert(t.subrange(0, start - 1) =~= pre.subrange(1, start));
            assert(t.subrange(start - 1, t.len() as int) =~= s.subrange(start, s.len() as int));
            assert(segments_of(pre) == segments_of(pre.subrange(1, start)));
        } else {
            // 0 < i <= start - 1 < s.len()
            let t = s.subrange(i + 1, s.len() as int);
            lemma_segments_boundary(t, start - i - 1);
            assert(t.subrange(0, start - i - 1) =~= pre.subrange(i + 1, start));
            assert(t.subrange(start - i - 1, t.len() as int) =~= s.subrange(
                start,
                s.len() as int,
            ));
            assert(pre.subrange(0, i) =~= s.subrange(0, i));
            assert(segments_of(s) == seq![s.subrange(0, i)] + segments_of(t));
            assert(segments_of(pre) == seq![pre.subrange(0, i)] + segments_of(
                pre.subrange(i + 1, start),
            ));
            assert(segments_of(s) =~= segments_of(pre) + segments_of(
                s.subrange(start, s.len() as int),
            ));
        }
    }
}

/// The segments of `s`, as owned strings.
pub fn split_segments(s: &str) -> (r: Vec<String>)
    ensures
        r@.map_values(|t: String| t@) == segments_of(s@),
{
    let n = s.unicode_len();
    let mut r: Vec<String> = Vec::new();
    let mut start: usize = 0;
    let mut i: usize = 0;
    while i < n
        invariant
            n == s@.len(),
            start <= i <= n,
            start == 0 || s@[start as int - 1] == '/',
            forall|k: int| start <= k < i ==> s@[k] != '/',
            r@.map_values(|t: String| t@) == segments_of(s@.subrange(0, start as int)),
        decreases n - i,
    {
        let c = s.get_char(i);
        if c == '/' {
            proof {
                lemma_segments_boundary(s@.subrange(0, i + 1), start as int);
                let mid = s@.subrange(0, i + 1).subrange(start as int, i + 1);
                assert(mid[mid.len() - 1] == s@[i as int]);
                assert(forall|k: int| 0 <= k < mid.len() - 1 ==> mid[k] != '/');
                lemma_first_slash_is(mid, mid.len() - 1);
                assert(s@.subrange(0, i + 1).subrange(0, start as int) =~= s@.subrange(
                    0,
                    start as int,
                ));
                if i > start {
                    // mid is one non-empty segment followed by '/'
                    assert(segments_of(mid) == seq![mid.subrange(0, mid.len() - 1)] + segments_of(
                        mid.subrange(mid.len() as int, mid.len() as int),
                    ));
                    assert(mid.subrange(mid.len() as int, mid.len() as int)
                        =~= Seq::<char>::empty());
                    assert(segments_of(mid) =~= seq![mid.subrange(0, mid.len() - 1)]);
                    assert(mid.subrange(0, mid.len() - 1) =~= s@.subrange(start as int, i as int));
                } else {
                    // mid is just "/"
                    assert(segments_of(mid) == segments_of(mid.subrange(1, 1)));
                    assert(mid.subrange(1, 1) =~= Seq::<char>::empty());
                }
            }
            if i > start {
                let seg = s.substring_char(start, i);
                let owned = String::from_str(seg);
                r.push(owned);
                proof {
                    assert(r@.map_values(|t: String| t@) =~= segments_of(
                        s@.subrange(0, i + 1),
                    ));
                }
            } else {
                proof {
                    assert(r@.map_values(|t: String| t@) =~= segments_of(
                        s@.subrange(0, i + 1),
                    ));
                }
            }
            start = i + 1;
        }
        i = i + 1;
    }
    proof {
        lemma_segments_boundary(s@, start as int);
        let tail = s@.subrange(start as int, n as int);
        lemma_segments_no_slash(tail);
    }
    if start < n {
        let seg = s.substring_char(start, n);
        let owned = String::from_str(seg);
        r.push(owned);
        proof {
            assert(r@.map_values(|t: String| t@) =~= segments_of(s@));
        }
    } else {
        proof {
            assert(r@.map_values(|t: String| t@) =~= segments_of(s@));
        }
    }
    r
}

/// The segments joined with a single `'/'` between them.
pub open spec fn join_segments(segs: Seq<Seq<char>>) -> Seq<char>
    decreases segs.len(),
{
    if segs.len() == 0 {
        Seq::empty()
    } else if segs.len() == 1 {
        segs[0]
    } else {
        segs[0] + seq!['/'] + join_segments(segs.subrange(1, segs.len() as int))
    }
}

pub proof fn lemma_join_push(segs: Seq<Seq<char>>, x: Seq<char>)
    requires
        segs.len() >= 1,
    ensures
        join_segments(segs.push(x)) == join_segments(segs) + seq!['/'] + x,
    decreases segs.len(),
{
    let p = segs.push(x);
    if segs.len() == 1 {
        assert(p.subrange(1, 2) =~= seq![x]);
        assert(join_segments(p.subrange(1, 2)) == x);
        assert(join_segments(p) =~= segs[0] + seq!['/'] + x);
    } else {
        let t = segs.subrange(1, segs.len() as int);
        lemma_join_push(t, x);
        assert(p.subrange(1, p.len() as int) =~= t.push(x));
        assert(join_segments(p) == p[0] + seq!['/'] + join_segments(t.push(x)));
        assert(join_segments(p) =~= join_segments(segs) + seq!['/'] + x);
    }
}

/// The segments joined into a relative path with `'/'` separators.
pub fn join_path(segs: &Vec<String>) -> (r: String)
    ensures
        r@ == join_segments(segs@.map_values(|t: String| t@)),
{
    let ghost model = segs@.map_values(|t: String| t@);
    let mut r = String::new();
    let mut i: usize = 0;
    while i < segs.len()
        invariant
            i <= segs.len(),
            model == segs@.map_values(|t: String| t@),
            r@ == join_segments(model.subrange(0, i as int)),
        decreases segs.len() - i,
    {
        if i == 0 {
            r = segs[0].clone();
            proof {
                assert(model.subrange(0, 1) =~= seq![model[0]]);
            }
        } else {
            r.append("/");
            r.append(segs[i].as_str());
            proof {
                lemma_join_push(model.subrange(0, i as int), model[i as int]);
                assert(model.subrange(0, i as int).push(model[i as int]) =~= model.subrange(
                    0,
                    i + 1,
                ));
                reveal_strlit("/");
                assert("/"@ =~= seq!['/']);
            }
        }
        i = i + 1;
    }
    proof {
        assert(model.subrange(0, model.len() as int) =~= model);
    }
    r
}

/// The views of a sequence of strings.
pub open spec fn views_of(v: Seq<String>) -> Seq<Seq<char>> {
    v.map_values(|s: String| s@)
}

/// The largest index at which `c` occurs in `s`, or `-1` if it does not.
pub open spec fn last_index_of(s: Seq<char>, c: char) -> int
    decreases s.len(),
{
    if s.len() == 0 {
        -1
    } else if s[s.len() - 1] == c {
        s.len() - 1
    } else {
        last_index_of(s.subrange(0, s.len() - 1), c)
    }
}

pub proof fn lemma_last_index_of(s: Seq<char>, c: char)
    ensures
        -1 <= last_index_of(s, c) < s.len(),
        last_index_of(s, c) >= 0 ==> s[last_index_of(s, c)] == c,
        forall|i: int| last_index_of(s, c) < i < s.len() ==> s[i] != c,
    decreases s.len(),
{
    if s.len() == 0 {
    } else if s[s.len() - 1] == c {
    } else {
        let t = s.subrange(0, s.len() - 1);
        lemma_last_index_of(t, c);
        assert forall|i: int| last_index_of(s, c) < i < s.len() implies s[i] != c by {
            if i < s.len() - 1 {
                assert(t[i] == s[i]);
            }
        }
    }
}

/// `last_index_of` is pinned by its characteristic properties.
pub proof fn lemma_last_index_of_is(s: Seq<char>, c: char, j: int)
    requires
        -1 <= j < s.len(),
        j >= 0 ==> s[j] == c,
        forall|i: int| j < i < s.len() ==> s[i] != c,
    ensures
        last_index_of(s, c) == j,
    decreases s.len(),
{
    if s.len() == 0 {
    } else if s[s.len() - 1] == c {
        assert(j == s.len() - 1);
    } else {
        let t = s.subrange(0, s.len() - 1);
        assert(j < s.len() - 1);
        assert forall|i: int| j < i < t.len() implies t[i] != c by {
            assert(t[i] == s[i]);
        }
        lemma_last_index_of_is(t, c, j);
    }
}

/// The largest index at which `c` occurs in `s`, or `None` if it does not.
pub fn find_last(s: &str, c: char) -> (r: Option<usize>)
    ensures
        match r {
            Some(j) => last_index_of(s@, c) == j as int,
            None => last_index_of(s@, c) == -1,
        },
{
    proof {
        lemma_last_index_of(s@, c);
    }
    let n = s.unicode_len();
    let mut i: usize = n;
    while i > 0
        invariant
            i <= n,
            n == s@.len(),
            forall|k: int| i <= k < n ==> s@[k] != c,
        decreases i,
    {
        i = i - 1;
        if s.get_char(i) == c {
            proof {
                lemma_last_index_of_is(s@, c, i as int);
            }
            return Some(i);
        }
    }
    proof {
        lemma_last_index_of_is(s@, c, -1);
    }
    None
}

/// Pushing onto a sequence filters to pushing onto the filtered sequence.
pub proof fn lemma_filter_push<A>(s: Seq<A>, pred: spec_fn(A) -> bool, x: A)
    ensures
        s.push(x).filter(pred) == if pred(x) {
            s.filter(pred).push(x)
        } else {
            s.filter(pred)
        },
{
    reveal(Seq::filter);
    assert(s.push(x).drop_last() =~= s);
    assert(s.push(x).last() == x);
    assert(s.push(x).len() != 0);
    assert(s.push(x).filter(pred) == if pred(x) {
        s.filter(pred).push(x)
    } else {
        s.filter(pred)
    });
}

/// Pointwise-equal predicates filter to the same sequence.
pub proof fn lemma_filter_congruent<A>(s: Seq<A>, p1: spec_fn(A) -> bool, p2: spec_fn(A) -> bool)
    requires
        forall|x: A| #[trigger] p1(x) == p2(x),
    ensures
        s.filter(p1) == s.filter(p2),
    decreases s.len(),
{
    reveal(Seq::filter);
    if s.len() == 0 {
    } else {
        lemma_filter_congruent(s.drop_last(), p1, p2);
    }
}

/// Whether no element of `s` occurs twice.
pub open spec fn all_distinct<A>(s: Seq<A>) -> bool {
    forall|i: int, j: int| 0 <= i < j < s.len() ==> s[i] != s[j]
}

/// Filtering keeps only elements of the source, and keeps a duplicate-free
/// sequence duplicate-free.
pub proof fn lemma_filter_keeps_distinct<A>(s: Seq<A>, pred: spec_fn(A) -> bool)
    ensures
        forall|x: A| #[trigger] s.filter(pred).contains(x) ==> s.contains(x),
        all_distinct(s) ==> all_distinct(s.filter(pred)),
    decreases s.len(),
{
    reveal(Seq::filter);
    if s.len() == 0 {
    } else {
        let d = s.drop_last();
        lemma_filter_keeps_distinct(d, pred);
        assert(all_distinct(s) ==> all_distinct(d)) by {
            if all_distinct(s) {
                assert forall|i: int, j: int| 0 <= i < j < d.len() implies d[i] != d[j] by {
                    assert(d[i] == s[i] && d[j] == s[j]);
                }
            }
        }
        assert forall|x: A| #[trigger] s.filter(pred).contains(x) implies s.contains(x) by {
            let f = s.filter(pred);
            let i = choose|i: int| 0 <= i < f.len() && f[i] == x;
            if pred(s.last()) {
                assert(f == d.filter(pred).push(s.last()));
                if i < f.len() - 1 {
                    assert(d.filter(pred)[i] == x);
                    assert(d.filter(pred).contains(x));
                    let j = choose|j: int| 0 <= j < d.len() && d[j] == x;
                    assert(s[j] == x);
                } else {
                    assert(x == s.last());
                    assert(s[s.len() - 1] == x);
                }
            } else {
                assert(f == d.filter(pred));
                assert(d.filter(pred).contains(x));
                let j = choose|j: int| 0 <= j < d.len() && d[j] == x;
                assert(s[j] == x);
            }
        }
        if all_distinct(s) {
            let fd = d.filter(pred);
            if pred(s.last()) {
                assert(!fd.contains(s.last())) by {
                    if fd.contains(s.last()) {
                        assert(d.contains(s.last()));
                        let j = choose|j: int| 0 <= j < d.len() && d[j] == s.last();
                        assert(s[j] == s[s.len() - 1]);
                    }
                }
                assert(all_distinct(fd.push(s.last()))) by {
                    assert forall|i: int, j: int|
                        0 <= i < j < fd.push(s.last()).len() implies fd.push(s.last())[i]
                        != fd.push(s.last())[j] by {
                        if j < fd.len() {
                            assert(fd.push(s.last())[i] == fd[i]);
                            assert(fd.push(s.last())[j] == fd[j]);
                        } else {
                            assert(fd.push(s.last())[j] == s.last());
                            assert(fd.push(s.last())[i] == fd[i]);
                            assert(fd.contains(fd[i]));
                        }
                    }
                }
            }
        }
    }
}

/// A filter and its complement split the length of a sequence.
pub proof fn lemma_filter_complement_len<A>(s: Seq<A>, pred: spec_fn(A) -> bool)
    ensures
        s.filter(pred).len() + s.filter(|x: A| !pred(x)).len() == s.len(),
    decreases s.len(),
{
    reveal(Seq::filter);
    if s.len() == 0 {
    } else {
        lemma_filter_complement_len(s.drop_last(), pred);
    }
}

/// Whether two strings hold the same characters.
pub fn str_eq(a: &str, b: &str) -> (r: bool)
    ensures
        r == (a@ == b@),
{
    let n = a.unicode_len();
    if n != b.unicode_len() {
        return false;
    }
    let mut i: usize = 0;
    while i < n
        invariant
            i <= n,
            n == a@.len() == b@.len(),
            forall|k: int| 0 <= k < i ==> a@[k] == b@[k],
        decreases n - i,
    {
        if a.get_char(i) != b.get_char(i) {
            return false;
        }
        i = i + 1;
    }
    proof {
        assert(a@ =~= b@);
    }
    true
}

/// The decimal digit character for `d`.
pub open spec fn digit_char(d: int) -> char {
    if d == 0 {
        '0'
    } else if d == 1 {
        '1'
    } else if d == 2 {
        '2'
    } else if d == 3 {
        '3'
    } else if d == 4 {
        '4'
    } else if d == 5 {
        '5'
    } else if d == 6 {
        '6'
    } else if d == 7 {
        '7'
    } else if d == 8 {
        '8'
    } else {
        '9'
    }
}

/// The decimal digits of a non-negative `n`, most significant first.
pub open spec fn dec_digits(n: int) -> Seq<char>
    decreases n,
{
    if n < 10 {
        seq![digit_char(n)]
    } else {
        dec_digits(n / 10) + seq![digit_char(n % 10)]
    }
}

/// The decimal rendering of `n`, with a leading `'-'` when negative.
pub open spec fn dec_int(n: int) -> Seq<char> {
    if n < 0 {
        seq!['-'] + dec_digits(-n)
    } else {
        dec_digits(n)
    }
}

/// `s` left-padded with `'0'` up to `width` characters.
pub open spec fn pad_zeros(s: Seq<char>, width: int) -> Seq<char> {
    if s.len() >= width {
        s
    } else {
        Seq::new((width - s.len()) as nat, |i: int| '0') + s
    }
}

fn digit_str(d: u32) -> (r: &'static str)
    requires
        d < 10,
    ensures
        r@ == seq![digit_char(d as int)],
{
    proof {
        reveal_strlit("0");
        reveal_strlit("1");
        reveal_strlit("2");
        reveal_strlit("3");
        reveal_strlit("4");
        reveal_strlit("5");
        reveal_strlit("6");
        reveal_strlit("7");
        reveal_strlit("8");
        reveal_strlit("9");
    }
    let r = if d == 0 {
        "0"
    } else if d == 1 {
        "1"
    } else if d == 2 {
        "2"
    } else if d == 3 {
        "3"
    } else if d == 4 {
        "4"
    } else if d == 5 {
        "5"
    } else if d == 6 {
        "6"
    } else if d == 7 {
        "7"
    } else if d == 8 {
        "8"
    } else {
        "9"
    };
    proof {
        assert(r@ =~= seq![digit_char(d as int)]);
    }
    r
}

/// The decimal rendering of `n`.
pub fn dec_u32(n: u32) -> (r: String)
    ensures
        r@ == dec_digits(n as int),
{
    let mut m: u32 = n;
    let mut acc = String::new();
    while m >= 10
        invariant
            dec_digits(n as int) == dec_digits(m as int) + acc@,
        decreases m,
    {
        let d: u32 = m % 10;
        let ghost prev = acc@;
        let mut piece = String::from_str(digit_str(d));
        piece.append(acc.as_str());
        acc = piece;
        proof {
            assert(dec_digits(m as int) =~= dec_digits(m as int / 10) + seq![
                digit_char(m as int % 10),
            ]);
            assert(dec_digits(m as int / 10) + seq![digit_char(m as int % 10)] + prev
                =~= dec_digits(m as int / 10) + (seq![digit_char(m as int % 10)] + prev));
        }
        m = m / 10;
    }
    let mut out = String::from_str(digit_str(m));
    out.append(acc.as_str());
    out
}

/// The decimal rendering of `n`, sign included.
pub fn dec_i32(n: i32) -> (r: String)
    ensures
        r@ == dec_int(n as int),
{
    if n < 0 {
        let m64: i64 = n as i64;
        let mag: u32 = (-m64) as u32;
        let mut out = String::from_str("-");
        let digits = dec_u32(mag);
        out.append(digits.as_str());
        proof {
            reveal_strlit("-");
            assert("-"@ =~= seq!['-']);
        }
        out
    } else {
        let r = dec_u32(n as u32);
        r
    }
}

/// `n` rendered in decimal and left-padded with zeros to `width` characters,
/// as `format!("{:0>width$}", n)` renders an `i32`.
pub fn zero_padded_i32(n: i32, width: usize) -> (r: String)
    ensures
        r@ == pad_zeros(dec_int(n as int), width as int),
{
    let digits = dec_i32(n);
    pad_left_zeros(digits, width)
}

/// `n` rendered in decimal and left-padded with zeros to `width` characters.
pub fn zero_padded_u32(n: u32, width: usize) -> (r: String)
    ensures
        r@ == pad_zeros(dec_digits(n as int), width as int),
{
    let digits = dec_u32(n);
    pad_left_zeros(digits, width)
}

fn pad_left_zeros(s: String, width: usize) -> (r: String)
    ensures
        r@ == pad_zeros(s@, width as int),
{
    let n = s.unicode_len();
    if n >= width {
        return s;
    }
    let mut acc = s;
    let mut k = n;
    let ghost orig = acc@;
    while k < width
        invariant
            n <= k <= width,
            n == orig.len(),
            acc@ == Seq::new((k - n) as nat, |i: int| '0') + orig,
        decreases width - k,
    {
        let mut piece = String::from_str("0");
        piece.append(acc.as_str());
        acc = piece;
        proof {
            reveal_strlit("0");
            assert("0"@ =~= seq!['0']);
            assert(seq!['0'] + (Seq::new((k - n) as nat, |i: int| '0') + orig) =~= Seq::new(
                (k + 1 - n) as nat,
                |i: int| '0',
            ) + orig);
        }
        k = k + 1;
    }
    acc
}

} // verus!
