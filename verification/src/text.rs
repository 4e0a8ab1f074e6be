//! Character-level helpers shared by the parsers and printers.
//!
//! Text is handled as `Seq<char>` in specifications and as `Vec<char>` in
//! executable code; conversions to and from `str`/`String` happen at the
//! public edges.

use vstd::prelude::*;

verus! {

// ---------------------------------------------------------------------------
// Character classes
// ---------------------------------------------------------------------------

/// Rust's `char::is_whitespace`: the Unicode `White_Space` property.
pub open spec fn is_ws(c: char) -> bool {
    ||| ('\u{9}' <= c && c <= '\u{d}')
    ||| c == ' '
    ||| c == '\u{85}'
    ||| c == '\u{a0}'
    ||| c == '\u{1680}'
    ||| ('\u{2000}' <= c && c <= '\u{200a}')
    ||| c == '\u{2028}'
    ||| c == '\u{2029}'
    ||| c == '\u{202f}'
    ||| c == '\u{205f}'
    ||| c == '\u{3000}'
}

pub fn char_is_ws(c: char) -> (b: bool)
    ensures
        b == is_ws(c),
{
    ('\u{9}' <= c && c <= '\u{d}') || c == ' ' || c == '\u{85}' || c == '\u{a0}' || c
        == '\u{1680}' || ('\u{2000}' <= c && c <= '\u{200a}') || c == '\u{2028}' || c
        == '\u{2029}' || c == '\u{202f}' || c == '\u{205f}' || c == '\u{3000}'
}

pub open spec fn is_digit(c: char) -> bool {
    '0' <= c && c <= '9'
}

pub open spec fn is_alpha(c: char) -> bool {
    ('a' <= c && c <= 'z') || ('A' <= c && c <= 'Z')
}

pub open spec fn is_alnum(c: char) -> bool {
    is_digit(c) || is_alpha(c)
}

/// `char::to_ascii_lowercase`.
pub open spec fn lower(c: char) -> char {
    if 'A' <= c && c <= 'Z' {
        ((c as u32) + 32) as char
    } else {
        c
    }
}

pub open spec fn lower_seq(s: Seq<char>) -> Seq<char> {
    s.map_values(|c: char| lower(c))
}

pub fn char_lower(c: char) -> (r: char)
    ensures
        r == lower(c),
{
    if 'A' <= c && c <= 'Z' {
        let u: u32 = c as u32;
        let l: u32 = u + 32;
        assert(l as char == lower(c));
        char_from_ascii(l)
    } else {
        c
    }
}

/// The character of a value below 128.
pub(crate) fn char_from_ascii(u: u32) -> (c: char)
    requires
        u < 128,
    ensures
        c == u as char,
{
    let b: u8 = u as u8;
    b as char
}

// ---------------------------------------------------------------------------
// Sequence operations
// ---------------------------------------------------------------------------

pub open spec fn ltrim(s: Seq<char>) -> Seq<char>
    decreases s.len(),
{
    if s.len() > 0 && is_ws(s[0]) {
        ltrim(s.drop_first())
    } else {
        s
    }
}

pub open spec fn rtrim(s: Seq<char>) -> Seq<char>
    decreases s.len(),
{
    if s.len() > 0 && is_ws(s.last()) {
        rtrim(s.drop_last())
    } else {
        s
    }
}

/// `str::trim`.
pub open spec fn trim(s: Seq<char>) -> Seq<char> {
    rtrim(ltrim(s))
}

pub open spec fn starts_with(s: Seq<char>, p: Seq<char>) -> bool {
    p.len() <= s.len() && s.subrange(0, p.len() as int) == p
}

pub open spec fn occurs_at(h: Seq<char>, n: Seq<char>, i: int) -> bool {
    0 <= i && i + n.len() <= h.len() && h.subrange(i, i + n.len()) == n
}

/// `str::contains` with a string pattern.
pub open spec fn contains(h: Seq<char>, n: Seq<char>) -> bool {
    exists|i: int| occurs_at(h, n, i)
}

/// `str::split` on one character: always at least one piece; empty pieces kept.
pub open spec fn split_on(s: Seq<char>, c: char) -> Seq<Seq<char>>
    decreases s.len(),
{
    if s.len() == 0 {
        seq![Seq::<char>::empty()]
    } else {
        let prev = split_on(s.drop_last(), c);
        if s.last() == c {
            prev.push(Seq::<char>::empty())
        } else {
            prev.update(prev.len() - 1, prev.last().push(s.last()))
        }
    }
}

/// The text before the first `c` (all of it when there is none):
/// the first piece of `split_on`.
pub open spec fn before(s: Seq<char>, c: char) -> Seq<char>
    decreases s.len(),
{
    if s.len() == 0 {
        s
    } else if s[0] == c {
        Seq::<char>::empty()
    } else {
        seq![s[0]] + before(s.drop_first(), c)
    }
}

/// `[T]::join` with a separator.
pub open spec fn join(ls: Seq<Seq<char>>, sep: Seq<char>) -> Seq<char>
    decreases ls.len(),
{
    if ls.len() == 0 {
        Seq::<char>::empty()
    } else if ls.len() == 1 {
        ls[0]
    } else {
        join(ls.drop_last(), sep) + sep + ls.last()
    }
}

pub open spec fn views(vs: Seq<Vec<char>>) -> Seq<Seq<char>> {
    vs.map_values(|v: Vec<char>| v@)
}

/// Decimal digits of a number, as `to_string` prints it.
pub open spec fn dec(n: nat) -> Seq<char>
    decreases n,
{
    if n < 10 {
        seq![digit_char(n)]
    } else {
        dec(n / 10).push(digit_char(n % 10))
    }
}

pub open spec fn digit_char(d: nat) -> char {
    ((d + 48) as u32) as char
}

pub open spec fn digit_val(c: char) -> nat {
    ((c as u32) - 48) as nat
}

pub open spec fn all_digits(s: Seq<char>) -> bool {
    forall|i: int| 0 <= i < s.len() ==> is_digit(#[trigger] s[i])
}

pub open spec fn digits_val(s: Seq<char>) -> nat
    decreases s.len(),
{
    if s.len() == 0 {
        0
    } else {
        digits_val(s.drop_last()) * 10 + digit_val(s.last())
    }
}

/// `str::parse::<u64>`: an optional `+`, then one or more digits, no overflow.
pub open spec fn parse_u64(s: Seq<char>) -> Option<u64> {
    let d = if s.len() > 0 && s[0] == '+' {
        s.drop_first()
    } else {
        s
    };
    if d.len() == 0 || !all_digits(d) || digits_val(d) > u64::MAX {
        None
    } else {
        Some(digits_val(d) as u64)
    }
}

/// `str::parse::<i32>`: an optional sign, then one or more digits, in range.
pub open spec fn parse_i32(s: Seq<char>) -> Option<i32> {
    let neg = s.len() > 0 && s[0] == '-';
    let d = if s.len() > 0 && (s[0] == '+' || s[0] == '-') {
        s.drop_first()
    } else {
        s
    };
    if d.len() == 0 || !all_digits(d) {
        None
    } else if neg {
        if digits_val(d) > 2147483648 {
            None
        } else {
            Some((0 - digits_val(d)) as i32)
        }
    } else if digits_val(d) > 2147483647 {
        None
    } else {
        Some(digits_val(d) as i32)
    }
}

/// `i32::to_string`.
pub open spec fn dec_i32(n: i32) -> Seq<char> {
    if n < 0 {
        seq!['-'] + dec((0 - n) as nat)
    } else {
        dec(n as nat)
    }
}

// ---------------------------------------------------------------------------
// Lemmas
// ---------------------------------------------------------------------------

pub proof fn lemma_split_nonempty(s: Seq<char>, c: char)
    ensures
        split_on(s, c).len() >= 1,
    decreases s.len(),
{
    if s.len() > 0 {
        lemma_split_nonempty(s.drop_last(), c);
    }
}

pub proof fn lemma_split_pieces_lack(s: Seq<char>, c: char)
    ensures
        forall|i: int, j: int|
            0 <= i < split_on(s, c).len() && 0 <= j < split_on(s, c)[i].len() ==> split_on(
                s,
                c,
            )[i][j] != c,
    decreases s.len(),
{
    if s.len() > 0 {
        lemma_split_pieces_lack(s.drop_last(), c);
        lemma_split_nonempty(s.drop_last(), c);
    }
}

/// Splitting on a character that does not occur gives the whole text.
pub proof fn lemma_split_absent(s: Seq<char>, c: char)
    requires
        forall|i: int| 0 <= i < s.len() ==> s[i] != c,
    ensures
        split_on(s, c) == seq![s],
    decreases s.len(),
{
    if s.len() > 0 {
        let p = s.drop_last();
        lemma_split_absent(p, c);
        assert(s.last() != c);
        assert(p.push(s.last()) =~= s);
        assert(split_on(p, c) == seq![p]);
        assert(seq![p].update(0, p.push(s.last())) =~= seq![s]);
    } else {
        assert(s =~= Seq::<char>::empty());
    }
}

/// Splitting `a + [c] + b` on `c`, where `b` holds no `c`.
pub proof fn lemma_split_snoc_piece(a: Seq<char>, b: Seq<char>, c: char)
    requires
        forall|i: int| 0 <= i < b.len() ==> b[i] != c,
    ensures
        split_on(a + seq![c] + b, c) == split_on(a, c).push(b),
    decreases b.len(),
{
    if b.len() == 0 {
        let s = a + seq![c] + b;
        assert(s =~= a.push(c));
        assert(s.drop_last() =~= a);
        assert(s.last() == c);
        assert(b =~= Seq::<char>::empty());
    } else {
        let s = a + seq![c] + b;
        lemma_split_snoc_piece(a, b.drop_last(), c);
        assert(s.drop_last() =~= a + seq![c] + b.drop_last());
        assert(s.last() == b.last());
        assert(b.last() == b[b.len() - 1]);
        lemma_split_nonempty(a, c);
        assert(b.drop_last().push(b.last()) =~= b);
        assert(split_on(a, c).push(b.drop_last()).update(
            split_on(a, c).len() as int,
            b.drop_last().push(b.last()),
        ) =~= split_on(a, c).push(b));
    }
}

/// Splitting a joined list gives the list back when no piece holds the separator.
pub proof fn lemma_split_join(ls: Seq<Seq<char>>, c: char)
    requires
        ls.len() >= 1,
        forall|i: int, j: int| 0 <= i < ls.len() && 0 <= j < ls[i].len() ==> ls[i][j] != c,
    ensures
        split_on(join(ls, seq![c]), c) == ls,
    decreases ls.len(),
{
    if ls.len() == 1 {
        assert(forall|j: int| 0 <= j < ls[0].len() ==> ls[0][j] != c);
        lemma_split_absent(ls[0], c);
        assert(seq![ls[0]] =~= ls);
    } else {
        let init = ls.drop_last();
        assert forall|i: int, j: int| 0 <= i < init.len() && 0 <= j < init[i].len() implies init[i][j]
            != c by {
            assert(init[i] == ls[i]);
        }
        lemma_split_join(init, c);
        let last = ls.last();
        assert(forall|j: int| 0 <= j < last.len() ==> last[j] != c) by {
            assert(last == ls[ls.len() - 1]);
        }
        lemma_split_snoc_piece(join(init, seq![c]), last, c);
        assert(init.push(last) =~= ls);
    }
}

/// Joining the pieces of a split gives the text back.
pub proof fn lemma_join_split(s: Seq<char>, c: char)
    ensures
        join(split_on(s, c), seq![c]) == s,
    decreases s.len(),
{
    if s.len() > 0 {
        let p = s.drop_last();
        lemma_join_split(p, c);
        lemma_split_nonempty(p, c);
        let prev = split_on(p, c);
        if s.last() == c {
            let nxt = prev.push(Seq::<char>::empty());
            assert(nxt.drop_last() =~= prev);
            assert(join(nxt, seq![c]) == join(prev, seq![c]) + seq![c] + Seq::<char>::empty());
            assert(p.push(c) =~= s);
            assert(p + seq![c] + Seq::<char>::empty() =~= s);
        } else {
            let nxt = prev.update(prev.len() - 1, prev.last().push(s.last()));
            if prev.len() == 1 {
                assert(join(prev, seq![c]) == prev[0]);
                assert(nxt.len() == 1);
                assert(join(nxt, seq![c]) == nxt[0]);
                assert(nxt[0] =~= p.push(s.last()));
                assert(p.push(s.last()) =~= s);
            } else {
                assert(nxt.drop_last() =~= prev.drop_last());
                assert(join(nxt, seq![c]) == join(prev.drop_last(), seq![c]) + seq![c] + prev.last().push(
                    s.last(),
                ));
                assert(join(prev, seq![c]) == join(prev.drop_last(), seq![c]) + seq![c]
                    + prev.last());
                assert(join(prev.drop_last(), seq![c]) + seq![c] + prev.last().push(s.last())
                    =~= (join(prev.drop_last(), seq![c]) + seq![c] + prev.last()).push(s.last()));
                assert(p.push(s.last()) =~= s);
            }
        }
    }
}

/// Any piece of a join of separator-free pieces holds no separator either.
pub proof fn lemma_join_lacks(ls: Seq<Seq<char>>, c: char, d: char)
    requires
        d != c,
        forall|i: int, j: int| 0 <= i < ls.len() && 0 <= j < ls[i].len() ==> ls[i][j] != d,
    ensures
        forall|j: int| 0 <= j < join(ls, seq![c]).len() ==> join(ls, seq![c])[j] != d,
    decreases ls.len(),
{
    if ls.len() > 1 {
        let init = ls.drop_last();
        assert forall|i: int, j: int| 0 <= i < init.len() && 0 <= j < init[i].len() implies init[i][j]
            != d by {
            assert(init[i] == ls[i]);
        }
        lemma_join_lacks(init, c, d);
        let last = ls.last();
        assert(forall|j: int| 0 <= j < last.len() ==> last[j] != d) by {
            assert(last == ls[ls.len() - 1]);
        }
        let a = join(init, seq![c]);
        assert(join(ls, seq![c]) == a + seq![c] + last);
        assert forall|j: int| 0 <= j < join(ls, seq![c]).len() implies join(ls, seq![c])[j] != d by {
            if j < a.len() {
                assert(join(ls, seq![c])[j] == a[j]);
            } else if j == a.len() {
                assert(join(ls, seq![c])[j] == c);
            } else {
                assert(join(ls, seq![c])[j] == last[j - a.len() - 1]);
            }
        }
    } else if ls.len() == 1 {
        assert(forall|j: int| 0 <= j < ls[0].len() ==> ls[0][j] != d);
    }
}

// ---------------------------------------------------------------------------
// Executable helpers
// ---------------------------------------------------------------------------

/// The characters of a string slice, in order.
pub(crate) fn chars_of(s: &str) -> (v: Vec<char>)
    ensures
        v@ == s@,
{
    broadcast use vstd::string::axiom_spec_iter;
    let mut v: Vec<char> = Vec::new();
    for c in it: s.chars()
        invariant
            it.seq() == s@,
            v@ == it.seq().take(it.index() as int),
    {
        v.push(c);
    }
    v
}

/// Calls `String::from_iter` (`FromIterator<&char>` for `String`). The
/// contract claims that the string holds exactly these characters in
/// order, as the documentation of `FromIterator` for `String` says.
#[verifier::external_body]
pub(crate) fn string_from(v: &[char]) -> (s: String)
    ensures
        s@ == v@,
{
    String::from_iter(v)
}

pub fn slice_of(s: &[char], a: usize, b: usize) -> (v: Vec<char>)
    requires
        a <= b <= s@.len(),
    ensures
        v@ == s@.subrange(a as int, b as int),
{
    let mut v: Vec<char> = Vec::new();
    let mut i = a;
    while i < b
        invariant
            a <= i <= b <= s@.len(),
            v@ == s@.subrange(a as int, i as int),
        decreases b - i,
    {
        v.push(s[i]);
        i = i + 1;
        assert(v@ =~= s@.subrange(a as int, i as int));
    }
    v
}

pub fn push_all(out: &mut Vec<char>, s: &[char])
    ensures
        final(out)@ == old(out)@ + s@,
{
    let ghost start = out@;
    let mut i: usize = 0;
    while i < s.len()
        invariant
            i <= s@.len(),
            out@ == start + s@.subrange(0, i as int),
        decreases s@.len() - i,
    {
        out.push(s[i]);
        i = i + 1;
        assert(out@ =~= start + s@.subrange(0, i as int));
    }
    assert(s@.subrange(0, s@.len() as int) =~= s@);
}

pub fn push_str(out: &mut Vec<char>, s: &str)
    ensures
        final(out)@ == old(out)@ + s@,
{
    let v = chars_of(s);
    push_all(out, v.as_slice());
}

pub proof fn lemma_ltrim_skip(s: Seq<char>, i: int)
    requires
        0 <= i <= s.len(),
        forall|k: int| 0 <= k < i ==> is_ws(s[k]),
    ensures
        ltrim(s) == ltrim(s.subrange(i, s.len() as int)),
    decreases i,
{
    if i > 0 {
        assert(is_ws(s[0]));
        let t = s.drop_first();
        lemma_ltrim_skip(t, i - 1);
        assert(t.subrange(i - 1, t.len() as int) =~= s.subrange(i, s.len() as int));
    } else {
        assert(s.subrange(0, s.len() as int) =~= s);
    }
}

pub proof fn lemma_rtrim_take(s: Seq<char>, j: int)
    requires
        0 <= j <= s.len(),
        forall|k: int| j <= k < s.len() ==> is_ws(s[k]),
    ensures
        rtrim(s) == rtrim(s.subrange(0, j)),
    decreases s.len() - j,
{
    if j < s.len() {
        assert(is_ws(s.last()));
        let t = s.drop_last();
        lemma_rtrim_take(t, j);
        assert(t.subrange(0, j) =~= s.subrange(0, j));
    } else {
        assert(s.subrange(0, j) =~= s);
    }
}

/// Bounds of `trim`: `s[a..b]` is the trimmed text.
pub fn trim_bounds(s: &[char]) -> (r: (usize, usize))
    ensures
        r.0 <= r.1 <= s@.len(),
        s@.subrange(r.0 as int, r.1 as int) == trim(s@),
{
    let n = s.len();
    let mut a: usize = 0;
    while a < n && char_is_ws(s[a])
        invariant
            a <= n == s@.len(),
            forall|k: int| 0 <= k < a ==> is_ws(s@[k]),
        decreases n - a,
    {
        a = a + 1;
    }
    proof {
        lemma_ltrim_skip(s@, a as int);
    }
    let ghost t = s@.subrange(a as int, n as int);
    assert(t.len() == 0 || !is_ws(t[0]));
    assert(ltrim(t) == t);
    let mut b: usize = n;
    while b > a && char_is_ws(s[b - 1])
        invariant
            a <= b <= n == s@.len(),
            forall|k: int| b <= k < n ==> is_ws(s@[k]),
        decreases b,
    {
        b = b - 1;
    }
    proof {
        assert forall|k: int| (b - a) <= k < t.len() implies is_ws(t[k]) by {
            assert(t[k] == s@[a + k]);
        }
        lemma_rtrim_take(t, (b - a) as int);
        let u = t.subrange(0, (b - a) as int);
        assert(u =~= s@.subrange(a as int, b as int));
        if u.len() > 0 {
            assert(u.last() == s@[b - 1]);
        }
        assert(rtrim(u) == u);
    }
    (a, b)
}

pub fn trimmed(s: &[char]) -> (v: Vec<char>)
    ensures
        v@ == trim(s@),
{
    let (a, b) = trim_bounds(s);
    slice_of(s, a, b)
}

pub fn trim_str(s: &str) -> (v: Vec<char>)
    ensures
        v@ == trim(s@),
{
    let c = chars_of(s);
    trimmed(c.as_slice())
}

pub fn eq_chars(a: &[char], b: &[char]) -> (r: bool)
    ensures
        r == (a@ == b@),
{
    if a.len() != b.len() {
        return false;
    }
    let mut i: usize = 0;
    while i < a.len()
        invariant
            i <= a@.len() == b@.len(),
            forall|k: int| 0 <= k < i ==> a@[k] == b@[k],
        decreases a@.len() - i,
    {
        if a[i] != b[i] {
            return false;
        }
        i = i + 1;
    }
    assert(a@ =~= b@);
    true
}

/// `==` on two string slices.
pub fn same_str(a: &str, b: &str) -> (r: bool)
    ensures
        r == (a@ == b@),
{
    let x = chars_of(a);
    let y = chars_of(b);
    eq_chars(x.as_slice(), y.as_slice())
}

/// Compare characters with a string literal.
pub fn eq_str(a: &[char], b: &str) -> (r: bool)
    ensures
        r == (a@ == b@),
{
    let v = chars_of(b);
    eq_chars(a, v.as_slice())
}

pub fn starts_with_chars(s: &[char], p: &[char]) -> (r: bool)
    ensures
        r == starts_with(s@, p@),
{
    if p.len() > s.len() {
        return false;
    }
    let mut i: usize = 0;
    while i < p.len()
        invariant
            i <= p@.len() <= s@.len(),
            forall|k: int| 0 <= k < i ==> s@[k] == p@[k],
        decreases p@.len() - i,
    {
        if s[i] != p[i] {
            assert(s@.subrange(0, p@.len() as int)[i as int] != p@[i as int]);
            return false;
        }
        i = i + 1;
    }
    assert(s@.subrange(0, p@.len() as int) =~= p@);
    true
}

pub fn occurs_at_exec(h: &[char], n: &[char], i: usize) -> (r: bool)
    ensures
        r == occurs_at(h@, n@, i as int),
{
    if i > h.len() || n.len() > h.len() - i {
        return false;
    }
    let hl = h.len();
    let mut k: usize = 0;
    while k < n.len()
        invariant
            hl == h@.len(),
            k <= n@.len(),
            i + n@.len() <= h@.len(),
            forall|m: int| 0 <= m < k ==> h@[i + m] == n@[m],
        decreases n@.len() - k,
    {
        assert(i + k < h@.len());
        if h[i + k] != n[k] {
            assert(h@.subrange(i as int, i + n@.len())[k as int] != n@[k as int]);
            return false;
        }
        k = k + 1;
    }
    assert(h@.subrange(i as int, i + n@.len()) =~= n@);
    true
}

pub fn contains_chars(h: &[char], n: &[char]) -> (r: bool)
    ensures
        r == contains(h@, n@),
{
    if n.len() == 0 {
        assert(h@.subrange(0, 0) =~= n@);
        assert(occurs_at(h@, n@, 0));
        return true;
    }
    let mut i: usize = 0;
    while i < h.len()
        invariant
            i <= h@.len(),
            forall|k: int| 0 <= k < i ==> !occurs_at(h@, n@, k),
        decreases h@.len() - i,
    {
        if occurs_at_exec(h, n, i) {
            return true;
        }
        i = i + 1;
    }
    assert forall|k: int| !occurs_at(h@, n@, k) by {
        if 0 <= k && k < i {
        } else if k >= i {
            assert(k + n@.len() > h@.len());
        }
    }
    false
}

pub fn has_char(s: &[char], c: char) -> (r: bool)
    ensures
        r == (exists|i: int| 0 <= i < s@.len() && s@[i] == c),
{
    let mut i: usize = 0;
    while i < s.len()
        invariant
            i <= s@.len(),
            forall|k: int| 0 <= k < i ==> s@[k] != c,
        decreases s@.len() - i,
    {
        if s[i] == c {
            return true;
        }
        i = i + 1;
    }
    false
}

pub fn lower_chars(s: &[char]) -> (v: Vec<char>)
    ensures
        v@ == lower_seq(s@),
{
    let mut v: Vec<char> = Vec::new();
    let mut i: usize = 0;
    while i < s.len()
        invariant
            i <= s@.len(),
            v@ =~= lower_seq(s@.subrange(0, i as int)),
        decreases s@.len() - i,
    {
        let c = char_lower(s[i]);
        v.push(c);
        i = i + 1;
        assert(v@ =~= lower_seq(s@.subrange(0, i as int)));
    }
    assert(s@.subrange(0, s@.len() as int) =~= s@);
    v
}

/// `str::split` on one character.
pub fn split_chars(s: &[char], c: char) -> (r: Vec<Vec<char>>)
    ensures
        views(r@) == split_on(s@, c),
{
    let mut r: Vec<Vec<char>> = Vec::new();
    let mut cur: Vec<char> = Vec::new();
    let mut i: usize = 0;
    proof {
        assert(s@.subrange(0, 0) =~= Seq::<char>::empty());
    }
    while i < s.len()
        invariant
            i <= s@.len(),
            views(r@).push(cur@) == split_on(s@.subrange(0, i as int), c),
        decreases s@.len() - i,
    {
        let ghost prefix = s@.subrange(0, i as int);
        let ghost next = s@.subrange(0, i + 1);
        assert(next.drop_last() =~= prefix);
        assert(next.last() == s@[i as int]);
        if s[i] == c {
            let ghost old_r = r@;
            let ghost old_cur = cur@;
            r.push(cur);
            cur = Vec::new();
            assert(r@ == old_r.push(r@.last()));
            assert(views(r@).push(cur@) =~= views(old_r).push(old_cur).push(
                Seq::<char>::empty(),
            ));
        } else {
            let ghost old_cur = cur@;
            cur.push(s[i]);
            assert(views(r@).push(cur@) =~= views(r@).push(old_cur).update(
                r@.len() as int,
                old_cur.push(s@[i as int]),
            ));
        }
        i = i + 1;
    }
    assert(s@.subrange(0, s@.len() as int) =~= s@);
    r.push(cur);
    assert(views(r@) =~= views(r@.drop_last()).push(r@.last()@));
    r
}

/// `[T]::join` with a separator.
pub fn join_chars(ls: &Vec<Vec<char>>, sep: &[char]) -> (v: Vec<char>)
    ensures
        v@ == join(views(ls@), sep@),
{
    let mut v: Vec<char> = Vec::new();
    let mut i: usize = 0;
    while i < ls.len()
        invariant
            i <= ls@.len(),
            v@ == join(views(ls@.subrange(0, i as int)), sep@),
        decreases ls@.len() - i,
    {
        let ghost before_v = v@;
        if i > 0 {
            push_all(&mut v, sep);
        }
        push_all(&mut v, ls[i].as_slice());
        let ghost vs = views(ls@.subrange(0, i + 1));
        assert(vs.drop_last() =~= views(ls@.subrange(0, i as int)));
        assert(vs.last() == ls@[i as int]@);
        if i == 0 {
            assert(vs.len() == 1);
        }
        i = i + 1;
    }
    assert(ls@.subrange(0, ls@.len() as int) =~= ls@);
    v
}

/// Decimal digits of an unsigned number.
pub fn dec_chars(n: u64) -> (v: Vec<char>)
    ensures
        v@ == dec(n as nat),
    decreases n,
{
    if n < 10 {
        let mut v: Vec<char> = Vec::new();
        v.push(digit(n));
        v
    } else {
        let mut v = dec_chars(n / 10);
        v.push(digit(n % 10));
        v
    }
}

fn digit(d: u64) -> (c: char)
    requires
        d < 10,
    ensures
        c == digit_char(d as nat),
{
    let u: u32 = (d + 48) as u32;
    char_from_ascii(u)
}

pub fn dec_i32_chars(n: i32) -> (v: Vec<char>)
    ensures
        v@ == dec_i32(n),
{
    if n < 0 {
        let m: i64 = 0 - (n as i64);
        let d = dec_chars(m as u64);
        let mut v: Vec<char> = Vec::new();
        v.push('-');
        push_all(&mut v, d.as_slice());
        v
    } else {
        dec_chars(n as u64)
    }
}

/// `i64::to_string`.
pub open spec fn dec_i64(n: i64) -> Seq<char> {
    if n < 0 {
        seq!['-'] + dec((0 - n) as nat)
    } else {
        dec(n as nat)
    }
}

pub fn dec_i64_chars(n: i64) -> (v: Vec<char>)
    ensures
        v@ == dec_i64(n),
{
    if n < 0 {
        let m: i128 = 0 - (n as i128);
        let d = dec_chars(m as u64);
        let mut v: Vec<char> = Vec::new();
        v.push('-');
        push_all(&mut v, d.as_slice());
        v
    } else {
        dec_chars(n as u64)
    }
}

pub proof fn lemma_digits_val_step(s: Seq<char>, i: int)
    requires
        0 <= i < s.len(),
    ensures
        digits_val(s.subrange(0, i + 1)) == digits_val(s.subrange(0, i)) * 10 + digit_val(s[i]),
{
    let t = s.subrange(0, i + 1);
    assert(t.drop_last() =~= s.subrange(0, i));
}

pub proof fn lemma_digits_val_mono(s: Seq<char>, i: int)
    requires
        0 <= i <= s.len(),
    ensures
        digits_val(s.subrange(0, i)) <= digits_val(s),
    decreases s.len() - i,
{
    if i < s.len() {
        lemma_digits_val_mono(s, i + 1);
        lemma_digits_val_step(s, i);
    } else {
        assert(s.subrange(0, i) =~= s);
    }
}

/// Digits only, value capped: `None` above `cap`.
fn digits_value(d: &[char], cap: u64) -> (r: Option<u64>)
    requires
        all_digits(d@),
        cap >= 9,
    ensures
        r matches Some(v) ==> v == digits_val(d@) && v <= cap,
        r is None ==> digits_val(d@) > cap,
{
    let mut acc: u64 = 0;
    let mut i: usize = 0;
    while i < d.len()
        invariant
            i <= d@.len(),
            all_digits(d@),
            acc == digits_val(d@.subrange(0, i as int)),
            acc <= cap,
            cap >= 9,
        decreases d@.len() - i,
    {
        proof {
            lemma_digits_val_step(d@, i as int);
        }
        assert(is_digit(d@[i as int]));
        let dv: u64 = (d[i] as u32 - 48) as u64;
        assert(dv == digit_val(d@[i as int]));
        if acc > (cap - dv) / 10 {
            proof {
                assert(acc * 10 + dv > cap) by (nonlinear_arith)
                    requires
                        acc > (cap - dv) / 10,
                        dv <= 9,
                        dv <= cap || cap < 9,
                ;
                lemma_digits_val_mono(d@, i + 1);
            }
            return None;
        }
        assert(acc * 10 + dv <= cap) by (nonlinear_arith)
            requires
                acc <= (cap - dv) / 10,
                dv <= cap,
        ;
        acc = acc * 10 + dv;
        i = i + 1;
    }
    assert(d@.subrange(0, d@.len() as int) =~= d@);
    Some(acc)
}

fn all_digits_exec(d: &[char]) -> (r: bool)
    ensures
        r == all_digits(d@),
{
    let mut i: usize = 0;
    while i < d.len()
        invariant
            i <= d@.len(),
            forall|k: int| 0 <= k < i ==> is_digit(d@[k]),
        decreases d@.len() - i,
    {
        if !('0' <= d[i] && d[i] <= '9') {
            return false;
        }
        i = i + 1;
    }
    true
}

/// `str::parse::<u64>`.
pub fn parse_u64_chars(s: &[char]) -> (r: Option<u64>)
    ensures
        r == parse_u64(s@),
{
    let d = if s.len() > 0 && s[0] == '+' {
        slice_of(s, 1, s.len())
    } else {
        slice_of(s, 0, s.len())
    };
    assert(s@.subrange(0, s@.len() as int) =~= s@);
    assert(s@.len() > 0 ==> s@.subrange(1, s@.len() as int) =~= s@.drop_first());
    if d.len() == 0 || !all_digits_exec(d.as_slice()) {
        return None;
    }
    digits_value_u64(d.as_slice())
}

fn digits_value_u64(d: &[char]) -> (r: Option<u64>)
    requires
        all_digits(d@),
    ensures
        r == (if digits_val(d@) > u64::MAX {
            None
        } else {
            Some(digits_val(d@) as u64)
        }),
{
    let r = digits_value(d, u64::MAX);
    match r {
        Some(v) => Some(v),
        None => None,
    }
}

/// `str::parse::<i32>`.
pub fn parse_i32_chars(s: &[char]) -> (r: Option<i32>)
    ensures
        r == parse_i32(s@),
{
    let neg = s.len() > 0 && s[0] == '-';
    let d = if s.len() > 0 && (s[0] == '+' || s[0] == '-') {
        slice_of(s, 1, s.len())
    } else {
        slice_of(s, 0, s.len())
    };
    assert(s@.subrange(0, s@.len() as int) =~= s@);
    assert(s@.len() > 0 ==> s@.subrange(1, s@.len() as int) =~= s@.drop_first());
    if d.len() == 0 || !all_digits_exec(d.as_slice()) {
        return None;
    }
    if neg {
        match digits_value(d.as_slice(), 2147483648) {
            Some(v) => {
                let m: i64 = 0 - (v as i64);
                Some(m as i32)
            },
            None => None,
        }
    } else {
        match digits_value(d.as_slice(), 2147483647) {
            Some(v) => Some(v as i32),
            None => None,
        }
    }
}


pub proof fn lemma_before_step(s: Seq<char>, c: char, i: int)
    requires
        0 <= i < s.len(),
        s[i] != c,
    ensures
        before(s.skip(i), c) == seq![s[i]] + before(s.skip(i + 1), c),
{
    let t = s.skip(i);
    assert(t[0] == s[i]);
    assert(t.drop_first() =~= s.skip(i + 1));
}

/// The text before the first `c`.
pub fn before_chars(s: &[char], c: char) -> (v: Vec<char>)
    ensures
        v@ == before(s@, c),
{
    let mut v: Vec<char> = Vec::new();
    let mut i: usize = 0;
    proof {
        assert(s@.skip(0) =~= s@);
    }
    while i < s.len() && s[i] != c
        invariant
            i <= s@.len(),
            before(s@, c) == v@ + before(s@.skip(i as int), c),
        decreases s@.len() - i,
    {
        proof {
            lemma_before_step(s@, c, i as int);
        }
        let ghost old_v = v@;
        v.push(s[i]);
        assert(old_v + (seq![s@[i as int]] + before(s@.skip(i + 1), c)) =~= v@ + before(
            s@.skip(i + 1),
            c,
        ));
        i = i + 1;
    }
    if i < s.len() {
        assert(s@.skip(i as int)[0] == c);
    } else {
        assert(s@.skip(i as int).len() == 0);
    }
    assert(v@ + Seq::<char>::empty() =~= v@);
    v
}


// ---------------------------------------------------------------------------
// Words
// ---------------------------------------------------------------------------

/// `str::split_whitespace`: the maximal runs of non-whitespace characters.
pub open spec fn words(s: Seq<char>) -> Seq<Seq<char>>
    decreases s.len(),
{
    if s.len() == 0 {
        Seq::empty()
    } else {
        let prev = words(s.drop_last());
        let c = s.last();
        if is_ws(c) {
            prev
        } else if s.len() >= 2 && !is_ws(s[s.len() - 2]) {
            prev.update(prev.len() - 1, prev.last().push(c))
        } else {
            prev.push(seq![c])
        }
    }
}

proof fn lemma_words_nonempty(s: Seq<char>)
    requires
        s.len() > 0,
        !is_ws(s.last()),
    ensures
        words(s).len() > 0,
    decreases s.len(),
{
    if s.len() >= 2 && !is_ws(s[s.len() - 2]) {
        lemma_words_nonempty(s.drop_last());
    }
}

/// `str::split_whitespace`, collected.
pub fn words_chars(s: &[char]) -> (r: Vec<Vec<char>>)
    ensures
        views(r@) == words(s@),
{
    let mut r: Vec<Vec<char>> = Vec::new();
    let mut cur: Vec<char> = Vec::new();
    let mut i: usize = 0;
    while i < s.len()
        invariant
            i <= s@.len(),
            i > 0 && !is_ws(s@[i - 1]) ==> words(s@.subrange(0, i as int)) == views(r@).push(cur@)
                && cur@.len() > 0,
            !(i > 0 && !is_ws(s@[i - 1])) ==> words(s@.subrange(0, i as int)) == views(r@)
                && cur@.len() == 0,
        decreases s@.len() - i,
    {
        let ghost p = s@.subrange(0, i as int);
        let ghost n = s@.subrange(0, i + 1);
        assert(n.drop_last() =~= p);
        assert(n.last() == s@[i as int]);
        let c = s[i];
        let prev_word = i > 0 && !char_is_ws(s[i - 1]);
        if char_is_ws(c) {
            if prev_word {
                let ghost old_r = r@;
                let ghost old_cur = cur@;
                r.push(cur);
                cur = Vec::new();
                assert(views(r@) =~= views(old_r).push(old_cur));
            }
        } else if prev_word {
            let ghost old_cur = cur@;
            proof {
                lemma_words_nonempty(p);
            }
            cur.push(c);
            assert(n[n.len() - 2] == s@[i - 1]);
            assert(views(r@).push(cur@) =~= views(r@).push(old_cur).update(
                r@.len() as int,
                old_cur.push(c),
            ));
        } else {
            cur.push(c);
            if i > 0 {
                assert(n[n.len() - 2] == s@[i - 1]);
            }
            assert(cur@ =~= seq![c]);
        }
        i = i + 1;
    }
    assert(s@.subrange(0, s@.len() as int) =~= s@);
    if cur.len() > 0 {
        let ghost old_r = r@;
        let ghost old_cur = cur@;
        r.push(cur);
        assert(views(r@) =~= views(old_r).push(old_cur));
    }
    r
}

} // verus!
