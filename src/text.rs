use vstd::prelude::*;

verus! {

/// The characters of `s`, in order.
pub fn chars_of(s: &str) -> (r: Vec<char>)
    ensures
        r@ == s@,
{
    let mut v: Vec<char> = Vec::new();
    for c in it: s.chars()
        invariant
            it.seq() == s@,
            v@ == it.seq().take(it.index() as int),
    {
        v.push(c);
    }
    v
}

/// Relies on `String::from_iter` over `&char`: the string holds the given characters in order.
#[verifier::external_body]
pub(crate) fn string_of(v: &[char]) -> (r: String)
    ensures
        r@ == v@,
{
    String::from_iter(v.iter())
}

/// Index of the first character of `t` that satisfies `p`, or `t.len()` when none does.
pub open spec fn first_where(t: Seq<char>, p: spec_fn(char) -> bool) -> int
    decreases t.len(),
{
    if t.len() == 0 {
        0
    } else if p(t[0]) {
        0
    } else {
        1 + first_where(t.drop_first(), p)
    }
}

pub proof fn lemma_first_where(t: Seq<char>, p: spec_fn(char) -> bool)
    ensures
        0 <= first_where(t, p) <= t.len(),
        first_where(t, p) < t.len() ==> p(t[first_where(t, p)]),
        forall|m: int| 0 <= m < first_where(t, p) ==> !p(#[trigger] t[m]),
    decreases t.len(),
{
    if t.len() > 0 && !p(t[0]) {
        lemma_first_where(t.drop_first(), p);
        assert forall|m: int| 0 <= m < first_where(t, p) implies !p(#[trigger] t[m]) by {
            if m > 0 {
                assert(t[m] == t.drop_first()[m - 1]);
            }
        }
    }
}

/// `first_where` is the only index with its two defining properties.
pub proof fn lemma_first_where_unique(t: Seq<char>, p: spec_fn(char) -> bool, k: int)
    requires
        0 <= k <= t.len(),
        k < t.len() ==> p(t[k]),
        forall|m: int| 0 <= m < k ==> !p(#[trigger] t[m]),
    ensures
        first_where(t, p) == k,
{
    lemma_first_where(t, p);
    let f = first_where(t, p);
    if f < k {
        assert(!p(t[f]));
    } else if f > k {
        assert(!p(t[k]));
    }
}

/// Index of the first `'\n'` in `t`, or `t.len()`.
pub open spec fn newline_index(t: Seq<char>) -> int {
    first_where(t, |c: char| c == '\n')
}

/// A line without the `'\r'` that ends it, if any.
pub open spec fn trim_cr(l: Seq<char>) -> Seq<char> {
    if l.len() > 0 && l.last() == '\r' {
        l.drop_last()
    } else {
        l
    }
}

/// The lines of `s`: split at each `'\n'`, each line without a trailing `'\r'`.
/// Text after the last `'\n'` forms a line only when it is not empty.
pub open spec fn lines(s: Seq<char>) -> Seq<Seq<char>>
    decreases s.len(),
{
    if s.len() == 0 {
        Seq::empty()
    } else {
        let k = newline_index(s);
        proof {
            lemma_first_where(s, |c: char| c == '\n');
        }
        if k == s.len() {
            seq![trim_cr(s)]
        } else {
            seq![trim_cr(s.subrange(0, k))] + lines(s.subrange(k + 1, s.len() as int))
        }
    }
}

/// `pat` occurs in `s` starting at index `i`.
pub open spec fn occurs_at(s: Seq<char>, pat: Seq<char>, i: int) -> bool {
    &&& 0 <= i
    &&& i + pat.len() <= s.len()
    &&& forall|k: int| 0 <= k < pat.len() ==> s[i + k] == #[trigger] pat[k]
}

/// `pat` occurs somewhere in `s`.
pub open spec fn occurs(s: Seq<char>, pat: Seq<char>) -> bool {
    exists|i: int| occurs_at(s, pat, i)
}

/// `i` is the first occurrence of `pat` in `s` at or after `from`.
pub open spec fn first_occurrence(s: Seq<char>, pat: Seq<char>, from: int, i: int) -> bool {
    &&& from <= i
    &&& occurs_at(s, pat, i)
    &&& forall|j: int| from <= j < i ==> !occurs_at(s, pat, j)
}

/// The first occurrence of `pat` in `s` at or after `from`.
pub open spec fn find_from(s: Seq<char>, pat: Seq<char>, from: int) -> Option<int> {
    if exists|i: int| first_occurrence(s, pat, from, i) {
        Some(choose|i: int| first_occurrence(s, pat, from, i))
    } else {
        None
    }
}

pub proof fn lemma_find_from_some(s: Seq<char>, pat: Seq<char>, from: int, i: int)
    requires
        first_occurrence(s, pat, from, i),
    ensures
        find_from(s, pat, from) == Some(i),
{
    let c = choose|c: int| first_occurrence(s, pat, from, c);
    if c < i {
        assert(!occurs_at(s, pat, c));
    } else if c > i {
        assert(!occurs_at(s, pat, i));
    }
}

/// `pat` occurs in `s` at index `i`.
pub fn occurs_here(s: &Vec<char>, pat: &Vec<char>, i: usize) -> (r: bool)
    ensures
        r == occurs_at(s@, pat@, i as int),
{
    if pat.len() > s.len() || i > s.len() - pat.len() {
        return false;
    }
    let mut k: usize = 0;
    while k < pat.len()
        invariant
            i + pat.len() <= s.len(),
            k <= pat.len(),
            forall|m: int| 0 <= m < k ==> s@[i + m] == #[trigger] pat@[m],
        decreases pat.len() - k,
    {
        if s[i + k] != pat[k] {
            return false;
        }
        k += 1;
    }
    true
}

/// The first occurrence of `pat` in `s` at or after `from`.
pub fn find(s: &Vec<char>, pat: &Vec<char>, from: usize) -> (r: Option<usize>)
    ensures
        match r {
            Some(i) => first_occurrence(s@, pat@, from as int, i as int),
            None => forall|j: int| from <= j ==> !occurs_at(s@, pat@, j),
        },
        r matches Some(i) ==> find_from(s@, pat@, from as int) == Some(i as int),
        r is None ==> find_from(s@, pat@, from as int) is None,
{
    if pat.len() > s.len() {
        return None;
    }
    let last = s.len() - pat.len();
    let mut i = from;
    while i <= last
        invariant
            last == s.len() - pat.len(),
            pat.len() <= s.len(),
            from <= i,
            forall|j: int| from <= j < i ==> !occurs_at(s@, pat@, j),
        decreases last + 1 - i,
    {
        if occurs_here(s, pat, i) {
            proof {
                lemma_find_from_some(s@, pat@, from as int, i as int);
            }
            return Some(i);
        }
        i += 1;
    }
    None
}

/// `pat` occurs somewhere in `s`.
pub fn contains(s: &Vec<char>, pat: &Vec<char>) -> (r: bool)
    ensures
        r == occurs(s@, pat@),
{
    match find(s, pat, 0) {
        Some(i) => true,
        None => {
            assert forall|j: int| !occurs_at(s@, pat@, j) by {
                if 0 <= j {
                }
            }
            false
        },
    }
}

/// The lines of `s`, as `str::lines` gives them.
pub fn split_lines(s: &Vec<char>) -> (r: Vec<Vec<char>>)
    ensures
        r.deep_view() == lines(s@),
{
    let mut out: Vec<Vec<char>> = Vec::new();
    let n = s.len();
    let mut pos: usize = 0;
    proof {
        assert(s@.subrange(0, n as int) =~= s@);
        assert(out.deep_view() + lines(s@) =~= lines(s@));
    }
    while pos < n
        invariant
            n == s.len(),
            pos <= n,
            lines(s@) == out.deep_view() + lines(s@.subrange(pos as int, n as int)),
        decreases n - pos,
    {
        let mut k = pos;
        let mut line: Vec<char> = Vec::new();
        while k < n && s[k] != '\n'
            invariant
                n == s.len(),
                pos <= k <= n,
                line@ == s@.subrange(pos as int, k as int),
                forall|m: int| pos <= m < k ==> s@[m] != '\n',
            decreases n - k,
        {
            line.push(s[k]);
            k += 1;
        }
        let ghost raw = line@;
        if line.len() > 0 && line[line.len() - 1] == '\r' {
            line.pop();
        }
        proof {
            let t = s@.subrange(pos as int, n as int);
            let d = k - pos;
            assert forall|m: int| 0 <= m < d implies !((|c: char| c == '\n')(#[trigger] t[m])) by {
                assert(t[m] == s@[pos + m]);
            }
            lemma_first_where_unique(t, |c: char| c == '\n', d);
            assert(t.subrange(0, d) =~= raw);
            assert(line@ == trim_cr(raw));
            if k < n {
                assert(t.subrange(d + 1, t.len() as int) =~= s@.subrange(k + 1, n as int));
            } else {
                assert(t =~= raw);
            }
        }
        let ghost before = out.deep_view();
        let ghost old_out = out;
        out.push(line);
        proof {
            assert forall|m: int| 0 <= m < out.len() implies #[trigger] out.deep_view()[m]
                == before.push(line@)[m] by {
                if m < before.len() {
                    assert(out@[m] == old_out@[m]);
                }
            }
            assert(out.deep_view() =~= before.push(line@));
        }
        if k < n {
            pos = k + 1;
        } else {
            pos = n;
        }
    }
    proof {
        assert(s@.subrange(n as int, n as int) =~= Seq::<char>::empty());
        assert(out.deep_view() + Seq::<Seq<char>>::empty() =~= out.deep_view());
    }
    out
}

/// The two texts hold the same characters.
pub fn text_eq(a: &str, b: &str) -> (r: bool)
    ensures
        r == (a@ == b@),
{
    let x = chars_of(a);
    let y = chars_of(b);
    if x.len() != y.len() {
        return false;
    }
    let mut i: usize = 0;
    while i < x.len()
        invariant
            x@ == a@,
            y@ == b@,
            x.len() == y.len(),
            i <= x.len(),
            forall|k: int| 0 <= k < i ==> x@[k] == y@[k],
        decreases x.len() - i,
    {
        if x[i] != y[i] {
            return false;
        }
        i += 1;
    }
    assert(x@ =~= y@);
    true
}

/// Appends `src[from..to]` to `out`.
pub fn push_range(out: &mut Vec<char>, src: &Vec<char>, from: usize, to: usize)
    requires
        from <= to <= src.len(),
    ensures
        final(out)@ == old(out)@ + src@.subrange(from as int, to as int),
{
    let ghost start = out@;
    let mut i = from;
    while i < to
        invariant
            from <= i <= to <= src.len(),
            out@ == start + src@.subrange(from as int, i as int),
        decreases to - i,
    {
        out.push(src[i]);
        i += 1;
        assert(out@ =~= start + src@.subrange(from as int, i as int));
    }
}

} // verus!
