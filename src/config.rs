use vstd::prelude::*;
use crate::text::{
    chars_of, contains, find, find_from, first_where, lemma_find_from_some, lemma_first_where,
    lemma_first_where_unique, occurs, occurs_at, push_range, string_of,
};

verus! {

/// Name of the field that holds the mining reward address.
pub const MINER_FIELD: &'static str = "miner_address";

/// Header of the section that the field belongs to.
pub const MINING_SECTION: &'static str = "[mining]";

/// Start of a field line that the rewrite recognises: the field, then a quoted value that
/// starts with the transparent prefix.
pub const MINER_VALUE_START: &'static str = "miner_address = \"tm";

/// What stands before the address in the field line.
pub const MINER_LINE_HEAD: &'static str = "miner_address = \"";

pub open spec fn is_alnum(c: char) -> bool {
    ('a' <= c && c <= 'z') || ('A' <= c && c <= 'Z') || ('0' <= c && c <= '9')
}

/// End of the alphanumeric run of `c` that starts at `k`, absolute.
pub open spec fn run_end(c: Seq<char>, k: int) -> int {
    k + first_where(c.subrange(k, c.len() as int), |x: char| !is_alnum(x))
}

/// When a recognised field line starts at `i`, the index just past its closing quote: the
/// value is `tm` and at least one more letter or digit, then a quote.
pub open spec fn field_end(c: Seq<char>, i: int) -> Option<int> {
    if occurs_at(c, MINER_VALUE_START@, i) {
        let k = i + MINER_VALUE_START@.len();
        let e = run_end(c, k);
        if e > k && e < c.len() && c[e] == '"' {
            Some(e + 1)
        } else {
            None
        }
    } else {
        None
    }
}

/// `i` is where the leftmost recognised field line of `c` starts.
pub open spec fn first_field_at(c: Seq<char>, i: int) -> bool {
    &&& 0 <= i
    &&& field_end(c, i) is Some
    &&& forall|j: int| 0 <= j < i ==> field_end(c, j) is None
}

pub open spec fn first_field(c: Seq<char>) -> Option<int> {
    if exists|i: int| first_field_at(c, i) {
        Some(choose|i: int| first_field_at(c, i))
    } else {
        None
    }
}

/// The field line for an address.
pub open spec fn miner_line(a: Seq<char>) -> Seq<char> {
    MINER_LINE_HEAD@ + a + seq!['"']
}

/// `s` with every occurrence of `pat` replaced by `rep`, from left to right without overlap.
pub open spec fn replace_all(s: Seq<char>, pat: Seq<char>, rep: Seq<char>) -> Seq<char>
    decreases s.len(),
{
    if pat.len() == 0 {
        s
    } else {
        match find_from(s, pat, 0) {
            Some(i) => {
                if 0 <= i && i + pat.len() <= s.len() {
                    s.subrange(0, i) + rep + replace_all(
                        s.subrange(i + pat.len(), s.len() as int),
                        pat,
                        rep,
                    )
                } else {
                    s
                }
            },
            None => s,
        }
    }
}

/// The configuration text after pointing the miner at address `a`. When the field is named
/// in the text, the leftmost recognised field line gets the new value (nothing changes when
/// none is recognised); otherwise the field is added after each section header.
pub open spec fn with_miner_address(c: Seq<char>, a: Seq<char>) -> Seq<char> {
    if occurs(c, MINER_FIELD@) {
        match first_field(c) {
            Some(i) => {
                let e = field_end(c, i)->0;
                c.subrange(0, i) + miner_line(a) + c.subrange(e, c.len() as int)
            },
            None => c,
        }
    } else {
        replace_all(c, MINING_SECTION@, MINING_SECTION@ + seq!['\n'] + miner_line(a))
    }
}

/// An address that the field line recognises: `tm`, then one or more letters or digits.
pub open spec fn valid_miner_address(a: Seq<char>) -> bool {
    &&& a.len() > 2
    &&& a[0] == 't'
    &&& a[1] == 'm'
    &&& forall|k: int| 0 <= k < a.len() ==> is_alnum(#[trigger] a[k])
}

/// End of the alphanumeric run of `c` that starts at `k`.
fn run_end_exec(c: &Vec<char>, k: usize) -> (r: usize)
    requires
        k <= c.len(),
    ensures
        r == run_end(c@, k as int),
        k <= r <= c.len(),
{
    let mut e = k;
    while e < c.len() && (('a' <= c[e] && c[e] <= 'z') || ('A' <= c[e] && c[e] <= 'Z') || ('0'
        <= c[e] && c[e] <= '9'))
        invariant
            k <= e <= c.len(),
            forall|m: int| k <= m < e ==> is_alnum(#[trigger] c@[m]),
        decreases c.len() - e,
    {
        e += 1;
    }
    proof {
        let t = c@.subrange(k as int, c.len() as int);
        assert forall|m: int| 0 <= m < e - k implies !((|x: char| !is_alnum(x))(#[trigger] t[m])) by {
            assert(t[m] == c@[k + m]);
        }
        lemma_first_where_unique(t, |x: char| !is_alnum(x), e - k);
    }
    e
}

fn field_end_exec(c: &Vec<char>, start: &Vec<char>, i: usize) -> (r: Option<usize>)
    requires
        start@ == MINER_VALUE_START@,
    ensures
        match r {
            Some(e) => field_end(c@, i as int) == Some(e as int),
            None => field_end(c@, i as int) is None,
        },
{
    if !crate::text::occurs_here(c, start, i) {
        return None;
    }
    assert(occurs_at(c@, start@, i as int));
    assert(i + start@.len() <= c@.len());
    assert(c@.len() == c.len());
    let k = i + start.len();
    let e = run_end_exec(c, k);
    if e > k && e < c.len() && c[e] == '"' {
        Some(e + 1)
    } else {
        None
    }
}

/// The leftmost recognised field line: where it starts and where it ends.
fn first_field_exec(c: &Vec<char>) -> (r: Option<(usize, usize)>)
    ensures
        match r {
            Some((i, e)) => first_field(c@) == Some(i as int) && field_end(c@, i as int) == Some(
                e as int,
            ),
            None => first_field(c@) is None,
        },
{
    let start = chars_of(MINER_VALUE_START);
    let mut i: usize = 0;
    while i < c.len()
        invariant
            start@ == MINER_VALUE_START@,
            i <= c.len(),
            forall|j: int| 0 <= j < i ==> field_end(c@, j) is None,
        decreases c.len() - i,
    {
        match field_end_exec(c, &start, i) {
            Some(e) => {
                proof {
                    lemma_first_field_is(c@, i as int);
                }
                return Some((i, e));
            },
            None => {},
        }
        i += 1;
    }
    proof {
        assert forall|j: int| 0 <= j implies field_end(c@, j) is None by {
            if j >= c@.len() {
                assert(!occurs_at(c@, MINER_VALUE_START@, j)) by {
                    reveal_strlit("miner_address = \"tm");
                }
            }
        }
    }
    None
}

proof fn lemma_first_field_is(c: Seq<char>, i: int)
    requires
        first_field_at(c, i),
    ensures
        first_field(c) == Some(i),
{
    let k = choose|k: int| first_field_at(c, k);
    if k < i {
        assert(field_end(c, k) is None);
    } else if k > i {
        assert(field_end(c, i) is None);
    }
}

/// Occurrences in a suffix are occurrences in the whole, shifted.
proof fn lemma_occurs_shift(s: Seq<char>, pat: Seq<char>, pos: int, j: int)
    requires
        0 <= pos <= s.len(),
    ensures
        occurs_at(s.subrange(pos, s.len() as int), pat, j) <==> (0 <= j && occurs_at(s, pat, pos + j)),
{
    let t = s.subrange(pos, s.len() as int);
    if occurs_at(t, pat, j) {
        assert forall|k: int| 0 <= k < pat.len() implies s[pos + j + k] == #[trigger] pat[k] by {
            assert(t[j + k] == pat[k]);
        }
    }
    if 0 <= j && occurs_at(s, pat, pos + j) {
        assert forall|k: int| 0 <= k < pat.len() implies t[j + k] == #[trigger] pat[k] by {
            assert(s[pos + j + k] == pat[k]);
        }
    }
}

/// `s` with every occurrence of `pat` replaced by `rep`.
fn replace_all_exec(s: &Vec<char>, pat: &Vec<char>, rep: &Vec<char>) -> (r: Vec<char>)
    ensures
        r@ == replace_all(s@, pat@, rep@),
{
    let mut out: Vec<char> = Vec::new();
    if pat.len() == 0 {
        push_range(&mut out, s, 0, s.len());
        assert(s@.subrange(0, s.len() as int) =~= s@);
        return out;
    }
    let mut pos: usize = 0;
    assert(s@.subrange(0, s.len() as int) =~= s@);
    while pos <= s.len()
        invariant
            pat.len() > 0,
            pos <= s.len(),
            replace_all(s@, pat@, rep@) == out@ + replace_all(
                s@.subrange(pos as int, s.len() as int),
                pat@,
                rep@,
            ),
        decreases s.len() - pos,
    {
        let ghost t = s@.subrange(pos as int, s.len() as int);
        match find(s, pat, pos) {
            Some(i) => {
                proof {
                    let d = i - pos;
                    lemma_occurs_shift(s@, pat@, pos as int, d);
                    assert forall|j: int| 0 <= j < d implies !occurs_at(t, pat@, j) by {
                        lemma_occurs_shift(s@, pat@, pos as int, j);
                    }
                    lemma_find_from_some(t, pat@, 0, d);
                    assert(t.subrange(0, d) =~= s@.subrange(pos as int, i as int));
                    assert(t.subrange(d + pat.len(), t.len() as int) =~= s@.subrange(
                        i + pat.len(),
                        s.len() as int,
                    ));
                }
                let ghost before = out@;
                push_range(&mut out, s, pos, i);
                push_range(&mut out, rep, 0, rep.len());
                proof {
                    assert(rep@.subrange(0, rep.len() as int) =~= rep@);
                    assert(before + (s@.subrange(pos as int, i as int) + rep@ + replace_all(
                        s@.subrange(i + pat.len(), s.len() as int),
                        pat@,
                        rep@,
                    )) =~= out@ + replace_all(
                        s@.subrange(i + pat.len(), s.len() as int),
                        pat@,
                        rep@,
                    ));
                }
                pos = i + pat.len();
            },
            None => {
                proof {
                    assert forall|j: int| !occurs_at(t, pat@, j) by {
                        lemma_occurs_shift(s@, pat@, pos as int, j);
                    }
                }
                push_range(&mut out, s, pos, s.len());
                return out;
            },
        }
    }
    out
}

/// The configuration text with the miner pointed at `address`. When the text names the
/// field, the leftmost line `miner_address = "tm..."` gets the new value; otherwise a field
/// line is added after each `[mining]` header. A file without either is left as it is.
pub fn set_miner_address(config: &str, address: &str) -> (r: String)
    ensures
        r@ == with_miner_address(config@, address@),
{
    let c = chars_of(config);
    let a = chars_of(address);
    let mut line = chars_of(MINER_LINE_HEAD);
    push_range(&mut line, &a, 0, a.len());
    line.push('"');
    proof {
        assert(line@ =~= miner_line(address@));
    }
    let out: Vec<char>;
    if contains(&c, &chars_of(MINER_FIELD)) {
        match first_field_exec(&c) {
            Some((i, e)) => {
                let mut v: Vec<char> = Vec::new();
                push_range(&mut v, &c, 0, i);
                push_range(&mut v, &line, 0, line.len());
                proof {
                    crate::config::lemma_field_end_bounds(c@, i as int);
                }
                push_range(&mut v, &c, e, c.len());
                proof {
                    assert(line@.subrange(0, line.len() as int) =~= line@);
                }
                out = v;
            },
            None => {
                let mut v: Vec<char> = Vec::new();
                push_range(&mut v, &c, 0, c.len());
                assert(c@.subrange(0, c.len() as int) =~= c@);
                out = v;
            },
        }
    } else {
        let mut rep = chars_of(MINING_SECTION);
        rep.push('\n');
        push_range(&mut rep, &line, 0, line.len());
        proof {
            assert(rep@ =~= MINING_SECTION@ + seq!['\n'] + miner_line(address@));
        }
        out = replace_all_exec(&c, &chars_of(MINING_SECTION), &rep);
    }
    string_of(out.as_slice())
}

proof fn lemma_field_end_bounds(c: Seq<char>, i: int)
    requires
        field_end(c, i) is Some,
    ensures
        0 <= i < field_end(c, i)->0 <= c.len(),
{
    let k = i + MINER_VALUE_START@.len();
    lemma_first_where(c.subrange(k, c.len() as int), |x: char| !is_alnum(x));
}

/// The characters of the field texts that the proofs below rely on.
proof fn lemma_field_texts()
    ensures
        MINER_VALUE_START@.len() == 19,
        MINER_VALUE_START@[0] == 'm',
        MINER_VALUE_START@[3] == 'e',
        MINER_VALUE_START@[5] == '_',
        MINER_VALUE_START@[17] == 't',
        MINER_VALUE_START@[18] == 'm',
        forall|d: int| 1 <= d <= 13 ==> MINER_VALUE_START@[d] != 'm',
        forall|d: int| 0 <= d < 13 ==> MINER_VALUE_START@[d] != '[',
        MINER_LINE_HEAD@ =~= MINER_VALUE_START@.subrange(0, 17),
        MINER_FIELD@ =~= MINER_VALUE_START@.subrange(0, 13),
        MINING_SECTION@.len() == 8,
        MINING_SECTION@[0] == '[',
        MINING_SECTION@[1] == 'm',
        MINING_SECTION@[4] == 'i',
        forall|d: int| 0 <= d < 8 && d != 1 ==> MINING_SECTION@[d] != 'm',
{
    reveal_strlit("miner_address = \"tm");
    reveal_strlit("miner_address = \"");
    reveal_strlit("miner_address");
    reveal_strlit("[mining]");
    assert(MINER_VALUE_START@ =~= seq![
        'm', 'i', 'n', 'e', 'r', '_', 'a', 'd', 'd', 'r', 'e', 's', 's', ' ', '=', ' ', '"', 't', 'm',
    ]);
    assert(MINING_SECTION@ =~= seq!['[', 'm', 'i', 'n', 'i', 'n', 'g', ']']);
}

/// Where the field line for a valid address stands, a recognised field line ends just after it.
proof fn lemma_line_is_field(d: Seq<char>, a: Seq<char>, i: int)
    requires
        valid_miner_address(a),
        0 <= i,
        i + miner_line(a).len() <= d.len(),
        d.subrange(i, i + miner_line(a).len()) == miner_line(a),
    ensures
        field_end(d, i) == Some(i + miner_line(a).len()),
{
    lemma_field_texts();
    let l = miner_line(a);
    let p = MINER_VALUE_START@;
    assert forall|k: int| 0 <= k < l.len() implies d[i + k] == #[trigger] l[k] by {
        assert(d.subrange(i, i + l.len())[k] == l[k]);
    }
    assert forall|k: int| 0 <= k < p.len() implies d[i + k] == #[trigger] p[k] by {
        assert(d[i + k] == l[k]);
        if k < 17 {
            assert(l[k] == MINER_LINE_HEAD@[k]);
        } else {
            assert(l[k] == a[k - 17]);
        }
    }
    assert(occurs_at(d, p, i));
    let k0 = i + 19;
    let t = d.subrange(k0, d.len() as int);
    let run = a.len() - 2;
    assert forall|m: int| 0 <= m < run implies !((|x: char| !is_alnum(x))(#[trigger] t[m])) by {
        assert(t[m] == d[k0 + m]);
        assert(d[i + 19 + m] == l[19 + m]);
        assert(l[19 + m] == a[m + 2]);
    }
    assert(t[run] == d[i + 17 + a.len()]);
    assert(d[i + 17 + a.len()] == l[17 + a.len() as int]);
    lemma_first_where_unique(t, |x: char| !is_alnum(x), run);
}

/// Two texts that agree below `bound` have the same recognised field lines at every index
/// `j` whose line, if any, must end below `bound`.
proof fn lemma_field_agrees(c: Seq<char>, c1: Seq<char>, j: int, bound: int)
    requires
        0 <= j,
        j + 19 <= bound,
        bound <= c.len(),
        bound <= c1.len(),
        forall|m: int| 0 <= m < bound ==> c[m] == c1[m],
        exists|q: int| j + 19 <= q < bound && !is_alnum(c1[q]) && c1[q] != '"',
        field_end(c1, j) is Some,
    ensures
        field_end(c, j) == field_end(c1, j),
{
    lemma_field_texts();
    let q = choose|q: int| j + 19 <= q < bound && !is_alnum(c1[q]) && c1[q] != '"';
    let k = j + 19;
    let t1 = c1.subrange(k, c1.len() as int);
    let t = c.subrange(k, c.len() as int);
    lemma_first_where(t1, |x: char| !is_alnum(x));
    let r = first_where(t1, |x: char| !is_alnum(x));
    assert(t1[q - k] == c1[q]);
    assert(r <= q - k);
    assert(run_end(c1, k) == k + r);
    assert(c1[k + r] == '"');
    assert(r < q - k);
    assert forall|m: int| 0 <= m < r implies !((|x: char| !is_alnum(x))(#[trigger] t[m])) by {
        assert(t[m] == c[k + m]);
        assert(t1[m] == c1[k + m]);
    }
    assert(t[r] == c[k + r]);
    assert(t1[r] == c1[k + r]);
    lemma_first_where_unique(t, |x: char| !is_alnum(x), r);
    assert forall|m: int| 0 <= m < 19 implies c[j + m] == #[trigger] MINER_VALUE_START@[m] by {
        assert(c1[j + m] == MINER_VALUE_START@[m]);
    }
}

/// A text that agrees with `c` before `i` and holds the start of a field line at `i`, where
/// `c`'s leftmost recognised field line starts, has no recognised field line before `i`.
proof fn lemma_none_before_field(c: Seq<char>, c1: Seq<char>, i: int)
    requires
        first_field_at(c, i),
        i + 19 <= c1.len(),
        forall|m: int| 0 <= m < i ==> c[m] == c1[m],
        forall|m: int| 0 <= m < 19 ==> c1[i + m] == #[trigger] MINER_VALUE_START@[m],
    ensures
        forall|j: int| 0 <= j < i ==> field_end(c1, j) is None,
{
    lemma_field_texts();
    let p = MINER_VALUE_START@;
    assert(occurs_at(c, p, i));
    assert forall|j: int| 0 <= j < i implies field_end(c1, j) is None by {
        if field_end(c1, j) is Some {
            assert forall|m: int| 0 <= m < i + 19 implies c[m] == c1[m] by {
                if m >= i {
                    assert(c1[i + (m - i)] == p[m - i]);
                    assert(c[i + (m - i)] == p[m - i]);
                }
            }
            if j > i - 14 {
                assert(c1[i + 0] == p[0]);
                assert(c1[j + (i - j)] == p[i - j]);
            } else {
                assert(c1[i + 5] == p[5]);
                lemma_field_agrees(c, c1, j, i + 19);
            }
        }
    }
}

/// A text that agrees with `c` before `q` and holds a section header and a line break at `q`,
/// where `c` does not name the field, has no recognised field line before `q + 9`.
proof fn lemma_none_before_insert(c: Seq<char>, c1: Seq<char>, q: int)
    requires
        !occurs(c, MINER_FIELD@),
        0 <= q,
        q + 8 <= c.len(),
        q + 9 <= c1.len(),
        forall|m: int| 0 <= m < q ==> c[m] == c1[m],
        forall|m: int| 0 <= m < 8 ==> c1[q + m] == #[trigger] MINING_SECTION@[m],
        c1[q + 8] == '\n',
    ensures
        forall|j: int| 0 <= j < q + 9 ==> field_end(c1, j) is None,
{
    lemma_field_texts();
    let p = MINER_VALUE_START@;
    let m = MINING_SECTION@;
    assert forall|j: int| 0 <= j < q + 9 implies field_end(c1, j) is None by {
        if field_end(c1, j) is Some {
            if j + 13 <= q {
                assert(occurs_at(c, MINER_FIELD@, j)) by {
                    assert forall|k: int| 0 <= k < MINER_FIELD@.len() implies c[j + k]
                        == #[trigger] MINER_FIELD@[k] by {
                        assert(c1[j + k] == p[k]);
                    }
                }
            } else if j < q {
                assert(c1[q + 0] == m[0]);
                assert(c1[j + (q - j)] == p[q - j]);
            } else if j < q + 8 {
                assert(c1[q + (j - q)] == m[j - q]);
                assert(c1[j + 0] == p[0]);
                if j == q + 1 {
                    assert(c1[q + 4] == m[4]);
                    assert(c1[j + 3] == p[3]);
                }
            } else {
                assert(j == q + 8);
                assert(c1[j + 0] == p[0]);
            }
        }
    }
}

/// The field line of a valid address, standing at `i` in `c1`, is its leftmost recognised
/// field line when none starts before it, and rewriting it with the same address changes
/// nothing.
proof fn lemma_rewrite_fixed(c1: Seq<char>, a: Seq<char>, i: int)
    requires
        valid_miner_address(a),
        0 <= i,
        i + miner_line(a).len() <= c1.len(),
        c1.subrange(i, i + miner_line(a).len()) == miner_line(a),
        forall|j: int| 0 <= j < i ==> field_end(c1, j) is None,
    ensures
        with_miner_address(c1, a) == c1,
{
    lemma_field_texts();
    let l = miner_line(a);
    lemma_line_is_field(c1, a, i);
    assert(occurs_at(c1, MINER_FIELD@, i)) by {
        assert forall|k: int| 0 <= k < MINER_FIELD@.len() implies c1[i + k]
            == #[trigger] MINER_FIELD@[k] by {
            assert(c1.subrange(i, i + l.len())[k] == l[k]);
            assert(l[k] == MINER_LINE_HEAD@[k]);
        }
    }
    lemma_first_field_is(c1, i);
    assert(c1.subrange(0, i) + l + c1.subrange(i + l.len(), c1.len() as int) =~= c1);
}

proof fn lemma_idempotent_on_field(c: Seq<char>, a: Seq<char>, i: int)
    requires
        valid_miner_address(a),
        occurs(c, MINER_FIELD@),
        first_field(c) == Some(i),
    ensures
        with_miner_address(with_miner_address(c, a), a) == with_miner_address(c, a),
{
    lemma_field_texts();
    let l = miner_line(a);
    let c1 = with_miner_address(c, a);
    let e = field_end(c, i)->0;
    lemma_field_end_bounds(c, i);
    assert(c1 =~= c.subrange(0, i) + l + c.subrange(e, c.len() as int));
    assert(c1.subrange(i, i + l.len()) =~= l);
    assert forall|m: int| 0 <= m < 19 implies c1[i + m] == #[trigger] MINER_VALUE_START@[m] by {
        assert(c1[i + m] == l[m]);
        if m < 17 {
            assert(l[m] == MINER_LINE_HEAD@[m]);
        } else {
            assert(l[m] == a[m - 17]);
        }
    }
    lemma_none_before_field(c, c1, i);
    lemma_rewrite_fixed(c1, a, i);
}

proof fn lemma_idempotent_on_insert(c: Seq<char>, a: Seq<char>, q: int)
    requires
        valid_miner_address(a),
        !occurs(c, MINER_FIELD@),
        find_from(c, MINING_SECTION@, 0) == Some(q),
    ensures
        with_miner_address(with_miner_address(c, a), a) == with_miner_address(c, a),
{
    lemma_field_texts();
    let l = miner_line(a);
    let m = MINING_SECTION@;
    let rep = m + seq!['\n'] + l;
    let c1 = with_miner_address(c, a);
    let rest = replace_all(c.subrange(q + 8, c.len() as int), m, rep);
    assert(c1 =~= c.subrange(0, q) + rep + rest);
    let i = q + 9;
    assert(c1.subrange(i, i + l.len()) =~= l);
    assert forall|k: int| 0 <= k < 8 implies c1[q + k] == #[trigger] m[k] by {
        assert(c1[q + k] == rep[k]);
    }
    assert(c1[q + 8] == rep[8]);
    lemma_none_before_insert(c, c1, q);
    lemma_rewrite_fixed(c1, a, i);
}

/// Pointing the miner at the same valid address twice leaves the configuration as pointing
/// it there once.
pub proof fn lemma_miner_address_idempotent(c: Seq<char>, a: Seq<char>)
    requires
        valid_miner_address(a),
    ensures
        with_miner_address(with_miner_address(c, a), a) == with_miner_address(c, a),
{
    if occurs(c, MINER_FIELD@) {
        if let Some(i) = first_field(c) {
            lemma_idempotent_on_field(c, a, i);
        }
    } else if let Some(q) = find_from(c, MINING_SECTION@, 0) {
        lemma_idempotent_on_insert(c, a, q);
    } else {
        assert(with_miner_address(c, a) == c);
    }
}

} // verus!
