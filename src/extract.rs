use vstd::prelude::*;
use crate::text::{
    chars_of, contains, find, find_from, first_where, lemma_first_where, lemma_first_where_unique,
    lines, occurs, occurs_at, split_lines, string_of,
};

verus! {

/// Start of a transparent regtest address.
pub const TRANSPARENT_PREFIX: &'static str = "tm";

/// Start of a unified regtest address.
pub const UNIFIED_PREFIX: &'static str = "uregtest";

/// Field marker that the wallet prints beside each transparent address.
pub const ENCODED_ADDRESS_MARKER: &'static str = "\"encoded_address\"";

/// A candidate address is accepted only with at least this many characters.
pub const MIN_ADDRESS_LEN: usize = 31;

/// Balance fields of the wallet's `balance` output, in micro-units.
pub const TRANSPARENT_BALANCE_FIELD: &'static str = "confirmed_transparent_balance";

pub const SHIELDED_BALANCE_FIELD: &'static str = "confirmed_orchard_balance";

/// Marker of a transaction id in the wallet's output.
pub const TXID_MARKER: &'static str = "\"txid\"";

/// What the wallet prints when a sync fails, and when one is already under way.
pub const SYNC_ERROR_MARKER: &'static str = "Sync error";

pub const SYNC_RUNNING_MARKER: &'static str = "sync is already running";

/// Micro-units in one display unit.
pub const UNITS_PER_COIN: u64 = 100_000_000;

#[derive(Clone, Copy, Debug, PartialEq, Eq, Structural)]
pub enum AddressKind {
    Transparent,
    Unified,
}

impl AddressKind {
    pub open spec fn prefix(self) -> Seq<char> {
        match self {
            AddressKind::Transparent => TRANSPARENT_PREFIX@,
            AddressKind::Unified => UNIFIED_PREFIX@,
        }
    }

    /// A line is considered only when it holds the kind's field marker, if the kind has one.
    pub open spec fn marker_ok(self, line: Seq<char>) -> bool {
        match self {
            AddressKind::Transparent => occurs(line, ENCODED_ADDRESS_MARKER@),
            AddressKind::Unified => true,
        }
    }
}

/// A wallet address as found in console output.
#[derive(Debug)]
pub struct WalletAddress {
    pub encoded: String,
    pub kind: AddressKind,
}

/// A persisted record of a discovered address, for later verification runs.
#[derive(Debug)]
pub struct BootstrapFixture {
    pub address: String,
    pub kind: AddressKind,
    pub receivers: Vec<String>,
}

impl BootstrapFixture {
    /// The record of an address: a unified address carries an orchard receiver, a
    /// transparent one none.
    pub fn from_address(a: WalletAddress) -> (r: BootstrapFixture)
        ensures
            r.address@ == a.encoded@,
            r.kind == a.kind,
            a.kind is Unified ==> r.receivers@.len() == 1 && r.receivers@[0]@ == "orchard"@,
            a.kind is Transparent ==> r.receivers@.len() == 0,
    {
        let mut receivers: Vec<String> = Vec::new();
        if matches!(a.kind, AddressKind::Unified) {
            receivers.push(String::from_str("orchard"));
        }
        BootstrapFixture { address: a.encoded, kind: a.kind, receivers }
    }

    /// The name of the address kind in the record.
    pub fn kind_label(&self) -> (r: &'static str)
        ensures
            self.kind is Unified ==> r@ == "unified"@,
            self.kind is Transparent ==> r@ == "transparent"@,
    {
        match self.kind {
            AddressKind::Unified => "unified",
            AddressKind::Transparent => "transparent",
        }
    }
}

/// A wallet balance, both amounts in micro-units.
#[derive(Clone, Copy, Debug, PartialEq, Eq, Structural)]
pub struct WalletBalance {
    pub transparent: u64,
    pub shielded: u64,
}

/// What a `sync run` reported.
#[derive(Clone, Copy, Debug, PartialEq, Eq, Structural)]
pub enum SyncStatus {
    Completed,
    AlreadyRunning,
    Failed,
}

/// A fact that the output does not hold at all.
#[derive(Clone, Copy, Debug, PartialEq, Eq, Structural)]
pub struct NotFound;

pub open spec fn starts_with(s: Seq<char>, p: Seq<char>) -> bool {
    occurs_at(s, p, 0)
}

pub open spec fn is_address_end(c: char) -> bool {
    c == '"' || c == '\n' || c == ' '
}

/// The token that starts at the first occurrence of the prefix and runs up to a quote,
/// newline or space.
pub open spec fn candidate_after(line: Seq<char>, start: int) -> Seq<char> {
    let rest = line.subrange(start, line.len() as int);
    rest.subrange(0, first_where(rest, |c: char| is_address_end(c)))
}

/// The address that one line yields, if it yields one.
pub open spec fn address_in_line(line: Seq<char>, kind: AddressKind) -> Option<Seq<char>> {
    if kind.marker_ok(line) {
        match find_from(line, kind.prefix(), 0) {
            Some(start) => {
                let cand = candidate_after(line, start);
                if cand.len() >= MIN_ADDRESS_LEN && starts_with(cand, kind.prefix()) {
                    Some(cand)
                } else {
                    None
                }
            },
            None => None,
        }
    } else {
        None
    }
}

/// The first address that any of the lines yields.
pub open spec fn first_address(ls: Seq<Seq<char>>, kind: AddressKind) -> Option<Seq<char>>
    decreases ls.len(),
{
    if ls.len() == 0 {
        None
    } else {
        match address_in_line(ls[0], kind) {
            Some(a) => Some(a),
            None => first_address(ls.drop_first(), kind),
        }
    }
}

/// The address of the given kind in console output.
pub open spec fn address_of(output: Seq<char>, kind: AddressKind) -> Option<Seq<char>> {
    first_address(lines(output), kind)
}

/// The first line that contains `pat`.
pub open spec fn first_line_with(ls: Seq<Seq<char>>, pat: Seq<char>) -> Option<Seq<char>>
    decreases ls.len(),
{
    if ls.len() == 0 {
        None
    } else if occurs(ls[0], pat) {
        Some(ls[0])
    } else {
        first_line_with(ls.drop_first(), pat)
    }
}

pub open spec fn is_digit(c: char) -> bool {
    '0' <= c && c <= '9'
}

/// Grouping punctuation and blanks, dropped from a numeric literal before it is read.
pub open spec fn is_filler(c: char) -> bool {
    c == '_' || c == ',' || c == ' ' || c == '\t' || c == '\r'
}

pub open spec fn strip_filler(s: Seq<char>) -> Seq<char>
    decreases s.len(),
{
    if s.len() == 0 {
        s
    } else if is_filler(s.last()) {
        strip_filler(s.drop_last())
    } else {
        strip_filler(s.drop_last()).push(s.last())
    }
}

pub open spec fn all_digits(s: Seq<char>) -> bool {
    forall|i: int| 0 <= i < s.len() ==> is_digit(#[trigger] s[i])
}

/// The number that a string of decimal digits denotes.
pub open spec fn decimal_value(s: Seq<char>) -> nat
    decreases s.len(),
{
    if s.len() == 0 {
        0
    } else {
        decimal_value(s.drop_last()) * 10 + (s.last() as nat - '0' as nat) as nat
    }
}

/// The amount that a balance line gives: the literal after its first `:`, with grouping
/// punctuation removed; zero when that is not a decimal number that fits in 64 bits.
pub open spec fn amount_in_line(line: Seq<char>) -> u64 {
    let colon = first_where(line, |c: char| c == ':');
    if colon < line.len() {
        let lit = strip_filler(line.subrange(colon + 1, line.len() as int));
        if lit.len() > 0 && all_digits(lit) && decimal_value(lit) <= u64::MAX {
            decimal_value(lit) as u64
        } else {
            0
        }
    } else {
        0
    }
}

/// The amount of a balance field: read from the first line that names it, zero when none does.
pub open spec fn field_amount(output: Seq<char>, field: Seq<char>) -> u64 {
    match first_line_with(lines(output), field) {
        Some(line) => amount_in_line(line),
        None => 0,
    }
}

pub open spec fn balance_of(output: Seq<char>) -> WalletBalance {
    WalletBalance {
        transparent: field_amount(output, TRANSPARENT_BALANCE_FIELD@),
        shielded: field_amount(output, SHIELDED_BALANCE_FIELD@),
    }
}

/// The text between the first two quotes after the marker's first occurrence in a line;
/// empty when there are not two.
pub open spec fn quoted_after(line: Seq<char>, marker: Seq<char>) -> Seq<char> {
    let m = match find_from(line, marker, 0) {
        Some(i) => i + marker.len(),
        None => line.len() as int,
    };
    let rest = line.subrange(m, line.len() as int);
    let q1 = first_where(rest, |c: char| c == '"');
    if q1 < rest.len() {
        let after = rest.subrange(q1 + 1, rest.len() as int);
        let q2 = first_where(after, |c: char| c == '"');
        if q2 < after.len() {
            after.subrange(0, q2)
        } else {
            Seq::empty()
        }
    } else {
        Seq::empty()
    }
}

/// The transaction id in console output: `None` when no line holds the marker.
pub open spec fn txid_of(output: Seq<char>) -> Option<Seq<char>> {
    match first_line_with(lines(output), TXID_MARKER@) {
        Some(line) => Some(quoted_after(line, TXID_MARKER@)),
        None => None,
    }
}

pub open spec fn sync_status_of(output: Seq<char>) -> SyncStatus {
    if occurs(output, SYNC_ERROR_MARKER@) {
        SyncStatus::Failed
    } else if occurs(output, SYNC_RUNNING_MARKER@) {
        SyncStatus::AlreadyRunning
    } else {
        SyncStatus::Completed
    }
}

/// The wallet answers once it lists a transparent address.
pub open spec fn wallet_ready_spec(output: Seq<char>) -> bool {
    occurs(output, TRANSPARENT_PREFIX@) && occurs(output, "encoded_address"@)
}

fn prefix_chars(kind: AddressKind) -> (r: Vec<char>)
    ensures
        r@ == kind.prefix(),
{
    match kind {
        AddressKind::Transparent => chars_of(TRANSPARENT_PREFIX),
        AddressKind::Unified => chars_of(UNIFIED_PREFIX),
    }
}

/// Index of the first character of `t` at or after `from` that ends an address token,
/// relative to `from`.
fn token_len(t: &Vec<char>, from: usize) -> (r: usize)
    requires
        from <= t.len(),
    ensures
        r == first_where(t@.subrange(from as int, t.len() as int), |c: char| is_address_end(c)),
{
    let mut k = from;
    while k < t.len() && !(t[k] == '"' || t[k] == '\n' || t[k] == ' ')
        invariant
            from <= k <= t.len(),
            forall|m: int| from <= m < k ==> !is_address_end(#[trigger] t@[m]),
        decreases t.len() - k,
    {
        k += 1;
    }
    proof {
        let rest = t@.subrange(from as int, t.len() as int);
        assert forall|m: int| 0 <= m < k - from implies !((|c: char| is_address_end(c))(
            #[trigger] rest[m],
        )) by {
            assert(rest[m] == t@[from + m]);
        }
        lemma_first_where_unique(rest, |c: char| is_address_end(c), k - from);
    }
    k - from
}

/// The address that one line yields, if it yields one.
pub fn address_in_line_exec(line: &Vec<char>, kind: AddressKind, prefix: &Vec<char>, marker: &Vec<char>) -> (r: Option<Vec<char>>)
    requires
        prefix@ == kind.prefix(),
        marker@ == ENCODED_ADDRESS_MARKER@,
    ensures
        match r {
            Some(a) => address_in_line(line@, kind) == Some(a@),
            None => address_in_line(line@, kind) is None,
        },
{
    let marker_ok = match kind {
        AddressKind::Transparent => contains(line, marker),
        AddressKind::Unified => true,
    };
    if !marker_ok {
        return None;
    }
    match find(line, prefix, 0) {
        Some(start) => {
            let len = token_len(line, start);
            proof {
                lemma_first_where(line@.subrange(start as int, line.len() as int), |c: char| is_address_end(c));
            }
            let mut cand: Vec<char> = Vec::new();
            let mut k: usize = 0;
            while k < len
                invariant
                    start + len <= line.len(),
                    k <= len,
                    cand@ == line@.subrange(start as int, start + k),
                decreases len - k,
            {
                cand.push(line[start + k]);
                k += 1;
            }
            proof {
                assert(cand@ =~= candidate_after(line@, start as int));
            }
            if cand.len() >= MIN_ADDRESS_LEN && crate::text::occurs_here(&cand, prefix, 0) {
                Some(cand)
            } else {
                None
            }
        },
        None => None,
    }
}

/// The address of the given kind in wallet console output: the first line that holds the
/// kind's marker and prefix and whose token after the prefix is long enough.
pub fn extract_address(output: &str, kind: AddressKind) -> (r: Result<WalletAddress, NotFound>)
    ensures
        match r {
            Ok(a) => address_of(output@, kind) == Some(a.encoded@) && a.kind == kind,
            Err(_) => address_of(output@, kind) is None,
        },
{
    let chars = chars_of(output);
    let ls = split_lines(&chars);
    let prefix = prefix_chars(kind);
    let marker = chars_of(ENCODED_ADDRESS_MARKER);
    let ghost all = ls.deep_view();
    let mut i: usize = 0;
    proof {
        assert(all.subrange(0, all.len() as int) =~= all);
    }
    while i < ls.len()
        invariant
            all == ls.deep_view(),
            all == lines(output@),
            prefix@ == kind.prefix(),
            marker@ == ENCODED_ADDRESS_MARKER@,
            i <= ls.len(),
            first_address(all, kind) == first_address(all.subrange(i as int, all.len() as int), kind),
        decreases ls.len() - i,
    {
        let ghost rest = all.subrange(i as int, all.len() as int);
        assert(rest[0] == ls[i as int]@);
        assert(rest.drop_first() =~= all.subrange(i + 1, all.len() as int));
        match address_in_line_exec(&ls[i], kind, &prefix, &marker) {
            Some(a) => {
                return Ok(WalletAddress { encoded: string_of(a.as_slice()), kind });
            },
            None => {},
        }
        i += 1;
    }
    Err(NotFound)
}

/// Index of the first of the lines that contains `pat`.
fn find_line_with(ls: &Vec<Vec<char>>, pat: &Vec<char>) -> (r: Option<usize>)
    ensures
        match r {
            Some(i) => i < ls.len() && first_line_with(ls.deep_view(), pat@) == Some(ls[i as int]@),
            None => first_line_with(ls.deep_view(), pat@) is None,
        },
{
    let ghost all = ls.deep_view();
    let mut i: usize = 0;
    proof {
        assert(all.subrange(0, all.len() as int) =~= all);
    }
    while i < ls.len()
        invariant
            all == ls.deep_view(),
            i <= ls.len(),
            first_line_with(all, pat@) == first_line_with(all.subrange(i as int, all.len() as int), pat@),
        decreases ls.len() - i,
    {
        let ghost rest = all.subrange(i as int, all.len() as int);
        assert(rest[0] == ls[i as int]@);
        assert(rest.drop_first() =~= all.subrange(i + 1, all.len() as int));
        if contains(&ls[i], pat) {
            return Some(i);
        }
        i += 1;
    }
    None
}

/// The number that `s` denotes, if it is a non-empty string of decimal digits that fits in
/// 64 bits.
pub fn parse_decimal(s: &Vec<char>) -> (r: Option<u64>)
    ensures
        match r {
            Some(v) => s@.len() > 0 && all_digits(s@) && decimal_value(s@) == v,
            None => !(s@.len() > 0 && all_digits(s@) && decimal_value(s@) <= u64::MAX),
        },
{
    if s.len() == 0 {
        return None;
    }
    let mut acc: u64 = 0;
    let mut i: usize = 0;
    while i < s.len()
        invariant
            i <= s.len(),
            all_digits(s@.subrange(0, i as int)),
            acc == decimal_value(s@.subrange(0, i as int)),
        decreases s.len() - i,
    {
        let c = s[i];
        proof {
            assert(s@.subrange(0, i + 1).drop_last() =~= s@.subrange(0, i as int));
        }
        if !('0' <= c && c <= '9') {
            proof {
                assert(!is_digit(s@[i as int]));
            }
            return None;
        }
        let d = (c as u32 - '0' as u32) as u64;
        if acc > (u64::MAX - d) / 10 {
            proof {
                if all_digits(s@) {
                    lemma_decimal_prefix_le(s@, i + 1);
                }
                assert(decimal_value(s@.subrange(0, i + 1)) == acc * 10 + d);
                assert(acc * 10 + d > u64::MAX) by (nonlinear_arith)
                    requires
                        acc > (u64::MAX - d) / 10,
                        d <= 9,
                ;
            }
            return None;
        }
        acc = acc * 10 + d;
        i += 1;
    }
    proof {
        assert(s@.subrange(0, s.len() as int) =~= s@);
    }
    Some(acc)
}

/// A prefix of a digit string denotes no more than the whole.
proof fn lemma_decimal_prefix_le(s: Seq<char>, j: int)
    requires
        0 <= j <= s.len(),
        all_digits(s),
    ensures
        decimal_value(s.subrange(0, j)) <= decimal_value(s),
    decreases s.len() - j,
{
    if j < s.len() {
        lemma_decimal_prefix_le(s, j + 1);
        assert(s.subrange(0, j + 1).drop_last() =~= s.subrange(0, j));
        assert(is_digit(s[j]));
    } else {
        assert(s.subrange(0, j) =~= s);
    }
}

/// The literal after the first `:` of a line, without grouping punctuation.
fn literal_after_colon(line: &Vec<char>) -> (r: Option<Vec<char>>)
    ensures
        match r {
            Some(lit) => {
                let colon = first_where(line@, |c: char| c == ':');
                &&& colon < line@.len()
                &&& lit@ == strip_filler(line@.subrange(colon + 1, line@.len() as int))
            },
            None => first_where(line@, |c: char| c == ':') == line@.len(),
        },
{
    let mut k: usize = 0;
    while k < line.len() && line[k] != ':'
        invariant
            k <= line.len(),
            forall|m: int| 0 <= m < k ==> line@[m] != ':',
        decreases line.len() - k,
    {
        k += 1;
    }
    proof {
        lemma_first_where_unique(line@, |c: char| c == ':', k as int);
    }
    if k == line.len() {
        return None;
    }
    let ghost tail = line@.subrange(k + 1, line@.len() as int);
    let mut lit: Vec<char> = Vec::new();
    let mut i: usize = k + 1;
    while i < line.len()
        invariant
            k < i <= line.len(),
            tail == line@.subrange(k + 1, line@.len() as int),
            lit@ == strip_filler(tail.subrange(0, i - k - 1)),
        decreases line.len() - i,
    {
        let c = line[i];
        proof {
            assert(tail.subrange(0, i - k).drop_last() =~= tail.subrange(0, i - k - 1));
            assert(tail.subrange(0, i - k).last() == c);
        }
        if !(c == '_' || c == ',' || c == ' ' || c == '\t' || c == '\r') {
            lit.push(c);
        }
        i += 1;
    }
    proof {
        assert(tail.subrange(0, i - k - 1) =~= tail);
    }
    Some(lit)
}

/// The amount that a balance line gives.
pub fn amount_in_line_exec(line: &Vec<char>) -> (r: u64)
    ensures
        r == amount_in_line(line@),
{
    match literal_after_colon(line) {
        Some(lit) => match parse_decimal(&lit) {
            Some(v) => v,
            None => 0,
        },
        None => 0,
    }
}

fn field_amount_in(ls: &Vec<Vec<char>>, field: &str) -> (r: u64)
    ensures
        match first_line_with(ls.deep_view(), field@) {
            Some(line) => r == amount_in_line(line),
            None => r == 0,
        },
{
    let pat = chars_of(field);
    match find_line_with(ls, &pat) {
        Some(i) => amount_in_line_exec(&ls[i]),
        None => 0,
    }
}

/// The wallet balance in console output. A field that is missing, or whose literal is not a
/// number, counts as zero; the two fields are read independently.
pub fn extract_balance(output: &str) -> (r: WalletBalance)
    ensures
        r == balance_of(output@),
{
    let chars = chars_of(output);
    let ls = split_lines(&chars);
    WalletBalance {
        transparent: field_amount_in(&ls, TRANSPARENT_BALANCE_FIELD),
        shielded: field_amount_in(&ls, SHIELDED_BALANCE_FIELD),
    }
}

/// Whole display units and the remaining micro-units of an amount.
pub fn display_parts(amount: u64) -> (r: (u64, u64))
    ensures
        r.0 == amount / UNITS_PER_COIN,
        r.1 == amount % UNITS_PER_COIN,
        r.0 * UNITS_PER_COIN + r.1 == amount,
{
    (amount / UNITS_PER_COIN, amount % UNITS_PER_COIN)
}

/// Index, relative to `from`, of the first quote in `t` at or after `from`.
fn quote_offset(t: &Vec<char>, from: usize) -> (r: usize)
    requires
        from <= t.len(),
    ensures
        r == first_where(t@.subrange(from as int, t.len() as int), |c: char| c == '"'),
        from + r <= t.len(),
{
    let mut k = from;
    while k < t.len() && t[k] != '"'
        invariant
            from <= k <= t.len(),
            forall|m: int| from <= m < k ==> t@[m] != '"',
        decreases t.len() - k,
    {
        k += 1;
    }
    proof {
        let rest = t@.subrange(from as int, t.len() as int);
        assert forall|m: int| 0 <= m < k - from implies !((|c: char| c == '"')(#[trigger] rest[m])) by {
            assert(rest[m] == t@[from + m]);
        }
        lemma_first_where_unique(rest, |c: char| c == '"', k - from);
    }
    k - from
}

/// The text between the first two quotes after the marker's first occurrence in a line.
fn quoted_after_exec(line: &Vec<char>, marker: &Vec<char>) -> (r: Vec<char>)
    ensures
        r@ == quoted_after(line@, marker@),
{
    let m = match find(line, marker, 0) {
        Some(i) => i + marker.len(),
        None => line.len(),
    };
    let ghost rest = line@.subrange(m as int, line@.len() as int);
    let q1 = quote_offset(line, m);
    if m + q1 == line.len() {
        return Vec::new();
    }
    let start = m + q1 + 1;
    let ghost after = rest.subrange(q1 + 1, rest.len() as int);
    assert(after =~= line@.subrange(start as int, line@.len() as int));
    let q2 = quote_offset(line, start);
    if start + q2 == line.len() {
        return Vec::new();
    }
    let mut out: Vec<char> = Vec::new();
    let mut i: usize = 0;
    while i < q2
        invariant
            start + q2 <= line.len(),
            i <= q2,
            out@ == line@.subrange(start as int, start + i),
        decreases q2 - i,
    {
        out.push(line[start + i]);
        i += 1;
    }
    assert(out@ =~= after.subrange(0, q2 as int));
    out
}

/// The transaction id in wallet console output: the text between the first two quotes after
/// the marker on the first line that holds it (empty when there are not two). `NotFound`
/// when no line holds the marker.
pub fn extract_txid(output: &str) -> (r: Result<String, NotFound>)
    ensures
        match r {
            Ok(t) => txid_of(output@) == Some(t@),
            Err(_) => txid_of(output@) is None,
        },
{
    let chars = chars_of(output);
    let ls = split_lines(&chars);
    let marker = chars_of(TXID_MARKER);
    match find_line_with(&ls, &marker) {
        Some(i) => {
            let t = quoted_after_exec(&ls[i], &marker);
            Ok(string_of(t.as_slice()))
        },
        None => Err(NotFound),
    }
}

/// What a `sync run` reported: a sync error wins over an already running sync.
pub fn sync_status(output: &str) -> (r: SyncStatus)
    ensures
        r == sync_status_of(output@),
{
    let chars = chars_of(output);
    if contains(&chars, &chars_of(SYNC_ERROR_MARKER)) {
        SyncStatus::Failed
    } else if contains(&chars, &chars_of(SYNC_RUNNING_MARKER)) {
        SyncStatus::AlreadyRunning
    } else {
        SyncStatus::Completed
    }
}

/// The wallet has answered its address listing: the output names an encoded address and
/// holds a transparent prefix.
pub fn wallet_ready(output: &str) -> (r: bool)
    ensures
        r == wallet_ready_spec(output@),
{
    let chars = chars_of(output);
    contains(&chars, &chars_of(TRANSPARENT_PREFIX)) && contains(&chars, &chars_of("encoded_address"))
}

/// A line whose token after the first occurrence of the prefix is shorter than
/// `MIN_ADDRESS_LEN` yields no address.
pub proof fn lemma_short_token_rejected(line: Seq<char>, kind: AddressKind, start: int)
    requires
        find_from(line, kind.prefix(), 0) == Some(start),
        candidate_after(line, start).len() < MIN_ADDRESS_LEN,
    ensures
        address_in_line(line, kind) is None,
{
}

/// Output in which no line yields a long enough token after the prefix (on the lines that
/// hold the kind's marker) gives no address at all.
pub proof fn lemma_no_long_token_not_found(output: Seq<char>, kind: AddressKind)
    requires
        forall|i: int|
            #![trigger lines(output)[i]]
            0 <= i < lines(output).len() && kind.marker_ok(lines(output)[i]) ==> (find_from(
                lines(output)[i],
                kind.prefix(),
                0,
            ) matches Some(start) ==> candidate_after(lines(output)[i], start).len()
                < MIN_ADDRESS_LEN),
    ensures
        address_of(output, kind) is None,
{
    lemma_first_address_none(lines(output), kind);
}

proof fn lemma_first_address_none(ls: Seq<Seq<char>>, kind: AddressKind)
    requires
        forall|i: int|
            #![trigger ls[i]]
            0 <= i < ls.len() && kind.marker_ok(ls[i]) ==> (find_from(ls[i], kind.prefix(), 0) matches Some(
                start,
            ) ==> candidate_after(ls[i], start).len() < MIN_ADDRESS_LEN),
    ensures
        first_address(ls, kind) is None,
    decreases ls.len(),
{
    if ls.len() > 0 {
        let rest = ls.drop_first();
        assert forall|i: int|
            #![trigger rest[i]]
            0 <= i < rest.len() && kind.marker_ok(rest[i]) implies (find_from(
                rest[i],
                kind.prefix(),
                0,
            ) matches Some(start) ==> candidate_after(rest[i], start).len() < MIN_ADDRESS_LEN) by {
            assert(rest[i] == ls[i + 1]);
        }
        lemma_first_address_none(rest, kind);
        assert(ls[0] == ls[0]);
    }
}

/// Every address that extraction accepts has at least `MIN_ADDRESS_LEN` characters and
/// starts with its kind's prefix.
pub proof fn lemma_accepted_address_well_formed(output: Seq<char>, kind: AddressKind)
    ensures
        address_of(output, kind) matches Some(a) ==> a.len() >= MIN_ADDRESS_LEN && starts_with(
            a,
            kind.prefix(),
        ),
{
    lemma_first_address_well_formed(lines(output), kind);
}

proof fn lemma_first_address_well_formed(ls: Seq<Seq<char>>, kind: AddressKind)
    ensures
        first_address(ls, kind) matches Some(a) ==> a.len() >= MIN_ADDRESS_LEN && starts_with(
            a,
            kind.prefix(),
        ),
    decreases ls.len(),
{
    if ls.len() > 0 {
        lemma_first_address_well_formed(ls.drop_first(), kind);
    }
}

/// A line of `s` that contains `pat` means that `s` contains it.
proof fn lemma_line_occurrence(s: Seq<char>, pat: Seq<char>)
    ensures
        first_line_with(lines(s), pat) is Some ==> occurs(s, pat),
    decreases s.len(),
{
    if s.len() > 0 {
        let k = crate::text::newline_index(s);
        lemma_first_where(s, |c: char| c == '\n');
        let first = if k == s.len() {
            s
        } else {
            s.subrange(0, k)
        };
        let ls = lines(s);
        assert(ls[0] == crate::text::trim_cr(first));
        if occurs(ls[0], pat) {
            let i = choose|i: int| occurs_at(ls[0], pat, i);
            assert(occurs_at(s, pat, i)) by {
                assert forall|m: int| 0 <= m < pat.len() implies s[i + m] == #[trigger] pat[m] by {
                    assert(ls[0][i + m] == pat[m]);
                    assert(ls[0][i + m] == first[i + m]);
                }
            }
            assert(occurs(s, pat));
        } else if k < s.len() {
            let tail = s.subrange(k + 1, s.len() as int);
            assert(ls.drop_first() =~= lines(tail));
            assert(first_line_with(ls, pat) == first_line_with(lines(tail), pat));
            lemma_line_occurrence(tail, pat);
            if first_line_with(lines(tail), pat) is Some {
                let i = choose|i: int| occurs_at(tail, pat, i);
                assert(occurs_at(s, pat, i + k + 1)) by {
                    assert forall|m: int| 0 <= m < pat.len() implies s[i + k + 1 + m]
                        == #[trigger] pat[m] by {
                        assert(tail[i + m] == pat[m]);
                    }
                }
                assert(occurs(s, pat));
            }
        } else {
            assert(ls.drop_first().len() == 0);
        }
    }
}

/// Balance extraction never fails: `extract_balance` returns `balance_of` of the text, a
/// function of the text alone, so reading the same text again gives the same pair; and a
/// balance field that the text does not hold reads as zero.
pub proof fn lemma_balance_total(text: Seq<char>)
    ensures
        !occurs(text, TRANSPARENT_BALANCE_FIELD@) ==> balance_of(text).transparent == 0,
        !occurs(text, SHIELDED_BALANCE_FIELD@) ==> balance_of(text).shielded == 0,
{
    lemma_line_occurrence(text, TRANSPARENT_BALANCE_FIELD@);
    lemma_line_occurrence(text, SHIELDED_BALANCE_FIELD@);
}

} // verus!
