//! Properties of the fstab edits that hold across calls.

use vstd::prelude::*;
use vstd::utf8::*;

use crate::fstab::{all_opts, flag_opts, deletes_nothing, is_network_spec, ends_with_newline, entry_matches, match_scan, entry_line_spec, escape_len, split_fields_spec, split_go, zero, FieldsV, cred_path_spec, build_options_spec, change_lines, comment_start_spec, escape_char, escape_spec, find_entry_spec, first_entry_from, has, is_disktui_comment, lines_spec, lower_alnum_or_dash, lstrip_dash, marker, marker_scan, oct_ok, oct_val, parse_entry_spec, plan_spec, rstrip_dash, slug_raw, slug_spec, share_word, tag, transform_spec, unescape_bytes, unescape_spec, ChangeV, DraftV};
use crate::text::{is_digit, contains, is_alnum, is_ws, join, lemma_join_split, lemma_split_absent, lemma_split_join, lemma_split_nonempty, lemma_split_pieces_lack, lower, lower_seq, ltrim, rtrim, split_on, starts_with, trim};

verus! {

pub open spec fn ascii_bytes(s: Seq<char>) -> Seq<u8> {
    s.map_values(|c: char| c as u8)
}

proof fn lemma_escape_front(c: char, s: Seq<char>)
    ensures
        escape_spec(seq![c] + s) == escape_char(c) + escape_spec(s),
    decreases s.len(),
{
    let t = seq![c] + s;
    if s.len() == 0 {
        assert(t.drop_last() =~= Seq::<char>::empty());
        assert(t.last() == c);
        assert(escape_spec(t) == escape_spec(Seq::<char>::empty()) + escape_char(c));
        assert(escape_char(c) + Seq::<char>::empty() =~= escape_char(c));
        assert(Seq::<char>::empty() + escape_char(c) =~= escape_char(c));
    } else {
        lemma_escape_front(c, s.drop_last());
        assert(t.drop_last() =~= seq![c] + s.drop_last());
        assert(t.last() == s.last());
        assert(escape_char(c) + escape_spec(s.drop_last()) + escape_char(s.last()) =~= escape_char(
            c,
        ) + (escape_spec(s.drop_last()) + escape_char(s.last())));
    }
}

proof fn lemma_escape_ascii(s: Seq<char>)
    requires
        is_ascii_chars(s),
    ensures
        is_ascii_chars(escape_spec(s)),
    decreases s.len(),
{
    if s.len() > 0 {
        assert(is_ascii_chars(s.drop_last())) by {
            assert forall|i| 0 <= i < s.drop_last().len() implies '\0' <= #[trigger] s.drop_last()[i]
                <= '\u{7f}' by {
                assert(s.drop_last()[i] == s[i]);
            }
        }
        lemma_escape_ascii(s.drop_last());
        let e = escape_spec(s.drop_last());
        let c = s.last();
        assert('\0' <= s[s.len() - 1] <= '\u{7f}');
        let ec = escape_char(c);
        assert forall|i| 0 <= i < (e + ec).len() implies '\0' <= #[trigger] (e + ec)[i]
            <= '\u{7f}' by {
            if i < e.len() {
                assert((e + ec)[i] == e[i]);
            } else {
                assert((e + ec)[i] == ec[i - e.len()]);
            }
        }
    }
}

proof fn lemma_unescape_one(c: char, b: Seq<u8>)
    requires
        '\0' <= c <= '\u{7f}',
    ensures
        unescape_bytes(ascii_bytes(escape_char(c)) + b) == seq![c] + unescape_bytes(b),
{
    let e = ascii_bytes(escape_char(c));
    let all = e + b;
    if c == ' ' {
        assert(e =~= seq![92u8, 48u8, 52u8, 48u8]);
        assert(all[0] == 92 && all[1] == 48 && all[2] == 52 && all[3] == 48);
        assert(oct_ok(48, 52, 48));
        assert(oct_val(48, 52, 48) == 32);
        assert(all.skip(4) =~= b);
        assert(((32u8) as char) == ' ');
    } else if c == '\t' {
        assert(e =~= seq![92u8, 48u8, 49u8, 49u8]);
        assert(all[0] == 92 && all[1] == 48 && all[2] == 49 && all[3] == 49);
        assert(oct_ok(48, 49, 49));
        assert(oct_val(48, 49, 49) == 9);
        assert(all.skip(4) =~= b);
        assert(((9u8) as char) == '\t');
    } else if c == '\n' {
        assert(e =~= seq![92u8, 48u8, 49u8, 50u8]);
        assert(all[0] == 92 && all[1] == 48 && all[2] == 49 && all[3] == 50);
        assert(oct_ok(48, 49, 50));
        assert(oct_val(48, 49, 50) == 10);
        assert(all.skip(4) =~= b);
        assert(((10u8) as char) == '\n');
    } else if c == '\\' {
        assert(e =~= seq![92u8, 92u8]);
        assert(all[0] == 92 && all[1] == 92);
        assert(all.skip(2) =~= b);
        assert(((92u8) as char) == '\\');
    } else {
        assert(e =~= seq![c as u8]);
        assert(all[0] == c as u8);
        assert((c as u32) < 128);
        assert(c as u8 != 92) by {
            assert(c != '\\');
        }
        assert(all.skip(1) =~= b);
        assert(((c as u8) as char) == c);
    }
}

proof fn lemma_unescape_escape_bytes(s: Seq<char>)
    requires
        is_ascii_chars(s),
    ensures
        unescape_bytes(ascii_bytes(escape_spec(s))) == s,
    decreases s.len(),
{
    if s.len() == 0 {
        assert(ascii_bytes(escape_spec(s)) =~= Seq::<u8>::empty());
    } else {
        let c = s[0];
        let r = s.drop_first();
        assert(s =~= seq![c] + r);
        lemma_escape_front(c, r);
        assert(is_ascii_chars(r)) by {
            assert forall|i| 0 <= i < r.len() implies '\0' <= #[trigger] r[i] <= '\u{7f}' by {
                assert(r[i] == s[i + 1]);
            }
        }
        assert('\0' <= s[0] <= '\u{7f}');
        lemma_unescape_escape_bytes(r);
        assert(ascii_bytes(escape_char(c) + escape_spec(r)) =~= ascii_bytes(escape_char(c))
            + ascii_bytes(escape_spec(r)));
        lemma_unescape_one(c, ascii_bytes(escape_spec(r)));
    }
}

/// Unescaping an escaped ASCII text gives it back. (Bytes above 127 are
/// read back one byte per character, so the law is stated for ASCII.)
pub proof fn law_unescape_escape(s: Seq<char>)
    requires
        is_ascii_chars(s),
    ensures
        unescape_spec(escape_spec(s)) == s,
{
    lemma_escape_ascii(s);
    let e = escape_spec(s);
    is_ascii_chars_encode_utf8(e);
    assert(encode_utf8(e) =~= ascii_bytes(e));
    lemma_unescape_escape_bytes(s);
}

/// A cifs plan never carries the password in its fstab line.
pub proof fn law_password_stays_out(d: DraftV)
    requires
        plan_spec(d) is Ok,
        trim(d.protocol) == "cifs"@,
        d.password.len() > 0,
    ensures
        !contains(plan_spec(d)->Ok_0.entry_line, d.password),
{
}


// ---------------------------------------------------------------------------
// Share ids
// ---------------------------------------------------------------------------

proof fn lemma_slug_raw_chars(s: Seq<char>)
    ensures
        forall|i: int| 0 <= i < slug_raw(s).len() ==> lower_alnum_or_dash(#[trigger] slug_raw(s)[i]),
    decreases s.len(),
{
    if s.len() > 0 {
        lemma_slug_raw_chars(s.drop_last());
        let o = slug_raw(s.drop_last());
        let c = s.last();
        if is_alnum(c) {
            assert(lower_alnum_or_dash(lower(c)));
            assert forall|i: int| 0 <= i < o.push(lower(c)).len() implies lower_alnum_or_dash(
                #[trigger] o.push(lower(c))[i],
            ) by {
                if i < o.len() {
                    assert(o.push(lower(c))[i] == o[i]);
                }
            }
        } else if o.len() > 0 && o.last() != '-' {
            assert forall|i: int| 0 <= i < o.push('-').len() implies lower_alnum_or_dash(
                #[trigger] o.push('-')[i],
            ) by {
                if i < o.len() {
                    assert(o.push('-')[i] == o[i]);
                }
            }
        }
    }
}

proof fn lemma_lstrip_suffix(s: Seq<char>)
    ensures
        exists|k: int| 0 <= k <= s.len() && lstrip_dash(s) == s.subrange(k, s.len() as int),
        lstrip_dash(s).len() == 0 || lstrip_dash(s)[0] != '-',
    decreases s.len(),
{
    if s.len() > 0 && s[0] == '-' {
        lemma_lstrip_suffix(s.drop_first());
        let k = choose|k: int|
            0 <= k <= s.drop_first().len() && lstrip_dash(s.drop_first())
                == s.drop_first().subrange(k, s.drop_first().len() as int);
        assert(s.drop_first().subrange(k, s.drop_first().len() as int) =~= s.subrange(
            k + 1,
            s.len() as int,
        ));
    } else {
        assert(s.subrange(0, s.len() as int) =~= s);
    }
}

proof fn lemma_rstrip_prefix(s: Seq<char>)
    ensures
        exists|k: int| 0 <= k <= s.len() && rstrip_dash(s) == s.subrange(0, k),
        rstrip_dash(s).len() == 0 || rstrip_dash(s).last() != '-',
    decreases s.len(),
{
    if s.len() > 0 && s.last() == '-' {
        lemma_rstrip_prefix(s.drop_last());
        let k = choose|k: int|
            0 <= k <= s.drop_last().len() && rstrip_dash(s.drop_last()) == s.drop_last().subrange(
                0,
                k,
            );
        assert(s.drop_last().subrange(0, k) =~= s.subrange(0, k));
    } else {
        assert(s.subrange(0, s.len() as int) =~= s);
    }
}

/// A share id is never empty, holds only lower-case ASCII letters, digits
/// and dashes, and neither starts nor ends with a dash.
pub proof fn law_slug_shape(s: Seq<char>)
    ensures
        slug_spec(s).len() > 0,
        forall|i: int| 0 <= i < slug_spec(s).len() ==> lower_alnum_or_dash(#[trigger] slug_spec(s)[i]),
        slug_spec(s)[0] != '-',
        slug_spec(s).last() != '-',
{
    let r = slug_raw(s);
    lemma_slug_raw_chars(s);
    lemma_lstrip_suffix(r);
    let l = lstrip_dash(r);
    lemma_rstrip_prefix(l);
    let t = rstrip_dash(l);
    let k1 = choose|k: int| 0 <= k <= r.len() && l == r.subrange(k, r.len() as int);
    let k2 = choose|k: int| 0 <= k <= l.len() && t == l.subrange(0, k);
    if t.len() == 0 {
        assert(slug_spec(s) == share_word());
        assert forall|i: int| 0 <= i < share_word().len() implies lower_alnum_or_dash(
            #[trigger] share_word()[i],
        ) by {
        }
    } else {
        assert forall|i: int| 0 <= i < t.len() implies lower_alnum_or_dash(#[trigger] t[i]) by {
            assert(t[i] == l[i]);
            assert(l[i] == r[k1 + i]);
        }
        assert(t[0] == l[0]);
    }
}

// ---------------------------------------------------------------------------
// Editing the file
// ---------------------------------------------------------------------------

pub open spec fn no_nl(s: Seq<char>) -> bool {
    forall|j: int| 0 <= j < s.len() ==> s[j] != '\n'
}

pub open spec fn no_nl_lines(ls: Seq<Seq<char>>) -> bool {
    forall|i: int| 0 <= i < ls.len() ==> no_nl(#[trigger] ls[i])
}

proof fn lemma_lines_no_nl(text: Seq<char>)
    ensures
        no_nl_lines(lines_spec(text)),
{
    if text.len() > 0 {
        let u = if text.last() == '\n' {
            text.drop_last()
        } else {
            text
        };
        lemma_split_pieces_lack(u, '\n');
    }
}

proof fn lemma_join_last(ls: Seq<Seq<char>>, sep: Seq<char>)
    requires
        ls.len() > 0,
        ls.last().len() > 0,
    ensures
        join(ls, sep).len() > 0,
        join(ls, sep).last() == ls.last().last(),
{
    if ls.len() > 1 {
        let a = join(ls.drop_last(), sep) + sep;
        assert(join(ls, sep) == a + ls.last());
    }
}

/// Pieces of a line list that hold no newline.
proof fn lemma_delete_no_nl(l: Seq<Seq<char>>, id: Seq<char>, source: Seq<char>, target: Seq<char>)
    requires
        no_nl_lines(l),
    ensures
        no_nl_lines(change_lines(l, ChangeV::Delete { id, source, target })),
{
    let n = change_lines(l, ChangeV::Delete { id, source, target });
    match find_entry_spec(l, id, source, target) {
        Some(idx) => {
            lemma_find_bounds(l, id, source, target, idx);
            let cs = comment_start_spec(l, idx);
            assert forall|i: int| 0 <= i < n.len() implies no_nl(#[trigger] n[i]) by {
                if i < cs {
                    assert(n[i] == l[i]);
                } else {
                    assert(n[i] == l[i - cs + idx + 1]);
                }
            }
        },
        None => {},
    }
}

/// The new file's lines are exactly the changed lines: every line that is
/// not the edited entry (and its marker comment) is copied through
/// unchanged, and a deletion that finds nothing leaves the file as it was.
/// Stated for every file and every deletion, and for every upsert whose id
/// and entry line hold no newline.
pub proof fn law_transform_lines(original: Seq<char>, c: ChangeV)
    requires
        c is Upsert ==> marker_ok(c->Upsert_id) && no_nl(c->Upsert_line),
    ensures
        lines_spec(transform_spec(original, c)) == change_lines(lines_spec(original), c),
{
    let l = lines_spec(original);
    let cl = change_lines(l, c);
    lemma_lines_no_nl(original);
    if deletes_nothing(original, c) {
        assert(cl == l);
        assert(transform_spec(original, c) == original);
    } else {
        match c {
            ChangeV::Upsert { id, source, target, line } => {
                lemma_change_no_nl(l, id, source, target, line);
            },
            ChangeV::Delete { id, source, target } => {
                lemma_delete_no_nl(l, id, source, target);
            },
        }
        let out = join(cl, seq!['\n']);
        let t = transform_spec(original, c);
        if cl.len() == 0 {
            assert(out =~= Seq::<char>::empty());
            assert(t =~= Seq::<char>::empty());
            assert(lines_spec(t) =~= cl);
        } else {
            assert forall|a: int, b: int| 0 <= a < cl.len() && 0 <= b < cl[a].len() implies cl[a][b] != '\n' by {
                assert(no_nl(cl[a]));
            }
            lemma_split_join(cl, '\n');
            if ends_with_newline(original, c, cl) {
                assert(t.drop_last() =~= out);
            } else {
                assert(cl.last().len() > 0);
                lemma_join_last(cl, seq!['\n']);
                assert(cl.last() == cl[cl.len() - 1]);
                assert(no_nl(cl[cl.len() - 1]));
                assert(out.last() != '\n');
            }
        }
    }
}

pub open spec fn marker_ok(id: Seq<char>) -> bool {
    id.len() > 0 && !is_ws(id.last()) && no_nl(id)
}

proof fn lemma_marker_facts(id: Seq<char>)
    requires
        marker_ok(id),
    ensures
        trim(marker(id)) == marker(id),
        parse_entry_spec(marker(id)) is None,
        is_disktui_comment(marker(id)),
        no_nl(marker(id)),
        marker(id).len() > 0,
{
    let m = marker(id);
    assert(m[0] == '#');
    assert(ltrim(m) == m);
    assert(m.last() == id.last());
    assert(rtrim(m) == m);
    assert(m.subrange(0, tag().len() as int) =~= tag());
    assert(starts_with(trim(m), tag()));
    assert forall|j: int| 0 <= j < m.len() implies m[j] != '\n' by {
        if j >= 11 {
            assert(m[j] == id[j - 11]);
        }
    }
}

/// The state of a file before a fresh share is added: it ends in a newline
/// (or is empty), holds no entry for the share yet, and the new entry line
/// and id are well-formed.
pub open spec fn fresh_upsert(
    original: Seq<char>,
    id: Seq<char>,
    source: Seq<char>,
    target: Seq<char>,
    line: Seq<char>,
) -> bool {
    &&& original.len() == 0 || original.last() == '\n'
    &&& find_entry_spec(lines_spec(original), id, source, target) is None
    &&& parse_entry_spec(line) is Some
    &&& no_nl(line)
    &&& marker_ok(id)
}

proof fn lemma_first_entry_shift(l: Seq<Seq<char>>, m: Seq<char>, line: Seq<char>, k: int)
    requires
        0 <= k <= l.len(),
        first_entry_from(l, k) is None,
        parse_entry_spec(m) is None,
        parse_entry_spec(line) is Some,
    ensures
        first_entry_from(l.push(m).push(line), k) == Some((l.len() + 1) as int),
    decreases l.len() - k,
{
    let n = l.push(m).push(line);
    if k == l.len() {
        assert(n[k] == m);
        assert(n[k + 1] == line);
        assert(first_entry_from(n, k + 1) == Some((k + 1) as int));
    } else {
        assert(n[k] == l[k]);
        lemma_first_entry_shift(l, m, line, k + 1);
    }
}

proof fn lemma_marker_scan_none(l: Seq<Seq<char>>, m: Seq<char>, i: int)
    requires
        0 <= i <= l.len(),
        marker_scan(l, m, 0) is None,
    ensures
        marker_scan(l, m, i) is None,
    decreases i,
{
    if i > 0 {
        lemma_marker_scan_none(l, m, i - 1);
    }
}

proof fn lemma_marker_scan_shift(l: Seq<Seq<char>>, id: Seq<char>, line: Seq<char>, i: int)
    requires
        0 <= i <= l.len(),
        marker_scan(l, marker(id), 0) is None,
        marker_ok(id),
        parse_entry_spec(line) is Some,
    ensures
        marker_scan(l.push(marker(id)).push(line), marker(id), i) == Some((l.len() + 1) as int),
    decreases l.len() - i,
{
    let m = marker(id);
    let n = l.push(m).push(line);
    lemma_marker_facts(id);
    if i == l.len() {
        assert(n[i] == m);
        lemma_first_entry_shift(l, m, line, l.len() as int);
        assert(first_entry_from(l, l.len() as int) is None);
    } else {
        lemma_marker_scan_shift(l, id, line, i + 1);
        assert(n[i] == l[i]);
        lemma_marker_scan_none(l, m, i);
        if trim(l[i]) == m {
            assert(first_entry_from(l, i + 1) is None);
            lemma_first_entry_shift(l, m, line, i + 1);
        }
    }
}

proof fn lemma_fresh_upsert(original: Seq<char>, id: Seq<char>, source: Seq<char>, target: Seq<char>, line: Seq<char>)
    requires
        fresh_upsert(original, id, source, target, line),
    ensures
        ({
            let l = lines_spec(original);
            let n = l.push(marker(id)).push(line);
            let t = transform_spec(original, ChangeV::Upsert { id, source, target, line });
            &&& change_lines(l, ChangeV::Upsert { id, source, target, line }) == n
            &&& t == join(n, seq!['\n']).push('\n')
            &&& lines_spec(t) == n
            &&& find_entry_spec(n, id, source, target) == Some((l.len() + 1) as int)
            &&& comment_start_spec(n, (l.len() + 1) as int) == l.len()
        }),
{
    let l = lines_spec(original);
    let m = marker(id);
    let n = l.push(m).push(line);
    let u = ChangeV::Upsert { id, source, target, line };
    lemma_marker_facts(id);
    assert(change_lines(l, u) == n);
    lemma_lines_no_nl(original);
    assert(no_nl_lines(n)) by {
        assert forall|i: int| 0 <= i < n.len() implies no_nl(#[trigger] n[i]) by {
            if i < l.len() {
                assert(n[i] == l[i]);
            } else if i == l.len() {
                assert(n[i] == m);
            } else {
                assert(n[i] == line);
            }
        }
    }
    let out = join(n, seq!['\n']);
    let t = transform_spec(original, u);
    assert(t == out.push('\n'));
    lemma_split_join(n, '\n');
    assert(t.drop_last() =~= out);
    assert(lines_spec(t) == n);
    lemma_marker_scan_shift(l, id, line, 0);
    assert(n[l.len() as int] == m);
    assert(comment_start_spec(n, (l.len() + 1) as int) == l.len());
}

/// Deleting a share that was just added gives back the file as it was.
pub proof fn law_delete_undoes_upsert(
    original: Seq<char>,
    id: Seq<char>,
    source: Seq<char>,
    target: Seq<char>,
    line: Seq<char>,
)
    requires
        fresh_upsert(original, id, source, target, line),
    ensures
        transform_spec(
            transform_spec(original, ChangeV::Upsert { id, source, target, line }),
            ChangeV::Delete { id, source, target },
        ) == original,
{
    lemma_fresh_upsert(original, id, source, target, line);
    let l = lines_spec(original);
    let n = l.push(marker(id)).push(line);
    let t = transform_spec(original, ChangeV::Upsert { id, source, target, line });
    let d = ChangeV::Delete { id, source, target };
    assert(change_lines(n, d) =~= l);
    let out = join(l, seq!['\n']);
    if l.len() == 0 {
        assert(out =~= Seq::<char>::empty());
        if original.len() > 0 {
            lemma_split_nonempty(original.drop_last(), '\n');
        }
        assert(original.len() == 0);
        assert(transform_spec(t, d) =~= Seq::<char>::empty());
    } else {
        assert(original.len() > 0);
        assert(original.last() == '\n');
        lemma_join_split(original.drop_last(), '\n');
        assert(out == original.drop_last());
        assert(out.push('\n') =~= original);
    }
}

proof fn lemma_fe_at(y: Seq<Seq<char>>, k: int, t: int)
    requires
        0 <= k <= t < y.len(),
        parse_entry_spec(y[t]) is Some,
        forall|j: int| k <= j < t ==> parse_entry_spec(#[trigger] y[j]) is None,
    ensures
        first_entry_from(y, k) == Some(t),
    decreases t - k,
{
    if k < t {
        lemma_fe_at(y, k + 1, t);
    }
}

proof fn lemma_fe_some(y: Seq<Seq<char>>, k: int, t: int)
    requires
        0 <= k,
        first_entry_from(y, k) == Some(t),
    ensures
        k <= t < y.len(),
        parse_entry_spec(y[t]) is Some,
        forall|j: int| k <= j < t ==> parse_entry_spec(#[trigger] y[j]) is None,
    decreases y.len() - k,
{
    if k < y.len() && parse_entry_spec(y[k]) is None {
        lemma_fe_some(y, k + 1, t);
    }
}

proof fn lemma_fe_none(y: Seq<Seq<char>>, k: int)
    requires
        0 <= k,
        first_entry_from(y, k) is None,
    ensures
        forall|j: int| k <= j < y.len() ==> parse_entry_spec(#[trigger] y[j]) is None,
    decreases y.len() - k,
{
    if k < y.len() {
        lemma_fe_none(y, k + 1);
    }
}

proof fn lemma_ms_some(y: Seq<Seq<char>>, m: Seq<char>, i: int, idx: int) -> (j: int)
    requires
        0 <= i,
        marker_scan(y, m, i) == Some(idx),
    ensures
        i <= j < y.len(),
        trim(y[j]) == m,
        first_entry_from(y, j + 1) == Some(idx),
        forall|k: int| i <= k < j && trim(#[trigger] y[k]) == m ==> first_entry_from(y, k + 1) is None,
    decreases y.len() - i,
{
    if trim(y[i]) == m && first_entry_from(y, i + 1) is Some {
        i
    } else {
        lemma_ms_some(y, m, i + 1, idx)
    }
}

proof fn lemma_ms_none(y: Seq<Seq<char>>, m: Seq<char>, i: int)
    requires
        0 <= i,
        marker_scan(y, m, i) is None,
    ensures
        forall|k: int| i <= k < y.len() && trim(#[trigger] y[k]) == m ==> first_entry_from(y, k + 1) is None,
    decreases y.len() - i,
{
    if i < y.len() {
        lemma_ms_none(y, m, i + 1);
    }
}

proof fn lemma_match_entry(y: Seq<Seq<char>>, s: Seq<char>, t: Seq<char>, i: int, idx: int)
    requires
        0 <= i,
        match_scan(y, s, t, i) == Some(idx),
    ensures
        i <= idx < y.len(),
        parse_entry_spec(y[idx]) is Some,
    decreases y.len() - i,
{
    if !entry_matches(y[i], s, t) {
        lemma_match_entry(y, s, t, i + 1, idx);
    }
}

/// The lines after an upsert: the marker at `p`, the entry right below it,
/// and above the marker no other marker of the share with an entry between
/// it and `p`.
pub open spec fn shaped(y: Seq<Seq<char>>, p: int, m: Seq<char>, line: Seq<char>) -> bool {
    &&& 0 <= p
    &&& p + 2 <= y.len()
    &&& y[p] == m
    &&& y[p + 1] == line
    &&& forall|i: int, k: int|
        0 <= i < k < p && trim(#[trigger] y[i]) == m ==> parse_entry_spec(#[trigger] y[k]) is None
}

proof fn lemma_shaped_scan(y: Seq<Seq<char>>, p: int, id: Seq<char>, line: Seq<char>, i: int)
    requires
        marker_ok(id),
        parse_entry_spec(line) is Some,
        shaped(y, p, marker(id), line),
        0 <= i <= p,
    ensures
        marker_scan(y, marker(id), i) == Some(p + 1),
    decreases p - i,
{
    lemma_marker_facts(id);
    let m = marker(id);
    if i == p {
        lemma_fe_at(y, p + 1, p + 1);
    } else if trim(y[i]) == m {
        assert forall|j: int| i + 1 <= j < p + 1 implies parse_entry_spec(#[trigger] y[j]) is None by {
            if j < p {
                assert(trim(y[i]) == m);
            }
        }
        lemma_fe_at(y, i + 1, p + 1);
    } else {
        lemma_shaped_scan(y, p, id, line, i + 1);
    }
}

/// Upserting into shaped lines changes nothing.
proof fn lemma_shaped_fixed(y: Seq<Seq<char>>, p: int, id: Seq<char>, source: Seq<char>, target: Seq<char>, line: Seq<char>)
    requires
        marker_ok(id),
        parse_entry_spec(line) is Some,
        shaped(y, p, marker(id), line),
    ensures
        change_lines(y, ChangeV::Upsert { id, source, target, line }) == y,
{
    lemma_marker_facts(id);
    lemma_shaped_scan(y, p, id, line, 0);
    assert(find_entry_spec(y, id, source, target) == Some(p + 1));
    assert(comment_start_spec(y, p + 1) == p);
    assert(y.subrange(0, p) + seq![marker(id), line] + y.subrange(p + 2, y.len() as int) =~= y);
}

proof fn lemma_find_bounds(l: Seq<Seq<char>>, id: Seq<char>, source: Seq<char>, target: Seq<char>, idx: int)
    requires
        find_entry_spec(l, id, source, target) == Some(idx),
    ensures
        0 <= idx < l.len(),
        parse_entry_spec(l[idx]) is Some,
        0 <= comment_start_spec(l, idx) <= idx,
{
    match marker_scan(l, marker(id), 0) {
        Some(x) => {
            let j = lemma_ms_some(l, marker(id), 0, idx);
            lemma_fe_some(l, j + 1, idx);
        },
        None => {
            lemma_match_entry(l, source, target, 0, idx);
        },
    }
}

/// The lines after replacing the entry at `idx`, whose block starts at `cs`.
pub open spec fn replaced(l: Seq<Seq<char>>, cs: int, idx: int, m: Seq<char>, line: Seq<char>) -> Seq<Seq<char>> {
    l.subrange(0, cs) + seq![m, line] + l.subrange(idx + 1, l.len() as int)
}

proof fn lemma_replaced_index(l: Seq<Seq<char>>, cs: int, idx: int, m: Seq<char>, line: Seq<char>, i: int)
    requires
        0 <= cs <= idx < l.len(),
        0 <= i < replaced(l, cs, idx, m, line).len(),
    ensures
        replaced(l, cs, idx, m, line).len() == l.len() - (idx - cs) + 1,
        i < cs ==> replaced(l, cs, idx, m, line)[i] == l[i],
        i == cs ==> replaced(l, cs, idx, m, line)[i] == m,
        i == cs + 1 ==> replaced(l, cs, idx, m, line)[i] == line,
        i >= cs + 2 ==> replaced(l, cs, idx, m, line)[i] == l[i - cs - 2 + idx + 1],
{
}

proof fn lemma_found_shaped(l: Seq<Seq<char>>, id: Seq<char>, source: Seq<char>, target: Seq<char>, line: Seq<char>, idx: int)
    requires
        marker_ok(id),
        parse_entry_spec(line) is Some,
        find_entry_spec(l, id, source, target) == Some(idx),
    ensures
        shaped(replaced(l, comment_start_spec(l, idx), idx, marker(id), line), comment_start_spec(l, idx), marker(id), line),
{
    let m = marker(id);
    lemma_find_bounds(l, id, source, target, idx);
    let cs = comment_start_spec(l, idx);
    let n = replaced(l, cs, idx, m, line);
    lemma_replaced_index(l, cs, idx, m, line, cs);
    lemma_replaced_index(l, cs, idx, m, line, cs + 1);
    match marker_scan(l, m, 0) {
        Some(x) => {
            let j = lemma_ms_some(l, m, 0, idx);
            lemma_fe_some(l, j + 1, idx);
            assert forall|i: int, k: int|
                0 <= i < k < cs && trim(#[trigger] n[i]) == m implies parse_entry_spec(#[trigger] n[k]) is None by {
                lemma_replaced_index(l, cs, idx, m, line, i);
                lemma_replaced_index(l, cs, idx, m, line, k);
                if i < j {
                    lemma_fe_none(l, i + 1);
                }
            }
        },
        None => {
            lemma_ms_none(l, m, 0);
            assert forall|i: int, k: int|
                0 <= i < k < cs && trim(#[trigger] n[i]) == m implies parse_entry_spec(#[trigger] n[k]) is None by {
                lemma_replaced_index(l, cs, idx, m, line, i);
                lemma_fe_none(l, i + 1);
            }
        },
    }
}

proof fn lemma_appended_shaped(l: Seq<Seq<char>>, kept: Seq<Seq<char>>, id: Seq<char>, line: Seq<char>)
    requires
        marker_scan(l, marker(id), 0) is None,
        kept.len() <= l.len(),
        forall|i: int| 0 <= i < kept.len() ==> kept[i] == l[i],
    ensures
        shaped(kept.push(marker(id)).push(line), kept.len() as int, marker(id), line),
{
    let m = marker(id);
    let n = kept.push(m).push(line);
    lemma_ms_none(l, m, 0);
    assert forall|i: int, k: int|
        0 <= i < k < kept.len() && trim(#[trigger] n[i]) == m implies parse_entry_spec(#[trigger] n[k]) is None by {
        assert(n[i] == l[i]);
        assert(n[k] == l[k]);
        lemma_fe_none(l, i + 1);
    }
}

/// One upsert leaves its lines shaped around the written marker.
proof fn lemma_change_shaped(l: Seq<Seq<char>>, id: Seq<char>, source: Seq<char>, target: Seq<char>, line: Seq<char>) -> (p: int)
    requires
        marker_ok(id),
        parse_entry_spec(line) is Some,
    ensures
        shaped(change_lines(l, ChangeV::Upsert { id, source, target, line }), p, marker(id), line),
{
    let m = marker(id);
    match find_entry_spec(l, id, source, target) {
        Some(idx) => {
            lemma_found_shaped(l, id, source, target, line, idx);
            comment_start_spec(l, idx)
        },
        None => {
            assert(marker_scan(l, m, 0) is None);
            lemma_appended_shaped(l, l, id, line);
            l.len() as int
        },
    }
}

proof fn lemma_change_no_nl(l: Seq<Seq<char>>, id: Seq<char>, source: Seq<char>, target: Seq<char>, line: Seq<char>)
    requires
        marker_ok(id),
        no_nl(line),
        no_nl_lines(l),
    ensures
        no_nl_lines(change_lines(l, ChangeV::Upsert { id, source, target, line })),
{
    lemma_marker_facts(id);
    let m = marker(id);
    let n = change_lines(l, ChangeV::Upsert { id, source, target, line });
    match find_entry_spec(l, id, source, target) {
        Some(idx) => {
            lemma_find_bounds(l, id, source, target, idx);
            let cs = comment_start_spec(l, idx);
            assert forall|i: int| 0 <= i < n.len() implies no_nl(#[trigger] n[i]) by {
                lemma_replaced_index(l, cs, idx, m, line, i);
                if i >= cs + 2 {
                    assert(no_nl(l[i - cs - 2 + idx + 1]));
                } else if i < cs {
                    assert(no_nl(l[i]));
                }
            }
        },
        None => {
            assert forall|i: int| 0 <= i < n.len() implies no_nl(#[trigger] n[i]) by {
                if i < l.len() {
                    assert(n[i] == l[i]);
                    assert(no_nl(l[i]));
                }
            }
        },
    }
}

/// Writing the same share twice gives what writing it once gave, on any
/// file, when the share's id and entry line hold no newline.
pub proof fn law_upsert_idempotent(
    original: Seq<char>,
    id: Seq<char>,
    source: Seq<char>,
    target: Seq<char>,
    line: Seq<char>,
)
    requires
        marker_ok(id),
        parse_entry_spec(line) is Some,
        no_nl(line),
    ensures
        ({
            let u = ChangeV::Upsert { id, source, target, line };
            let once = transform_spec(original, u);
            transform_spec(once, u) == once
        }),
{
    let u = ChangeV::Upsert { id, source, target, line };
    let l = lines_spec(original);
    let n = change_lines(l, u);
    let p = lemma_change_shaped(l, id, source, target, line);
    law_transform_lines(original, u);
    let once = transform_spec(original, u);
    assert(lines_spec(once) == n);
    lemma_shaped_fixed(n, p, id, source, target, line);
    assert(change_lines(lines_spec(once), u) == n);
    assert(transform_spec(once, u) == once);
}

/// Every entry of a network filesystem type is a network entry, whatever
/// its options: cifs, smb, nfs, nfs4, fuse.sshfs, sshfs, davfs and
/// fuse.rclone, the type read in lower case.
pub proof fn law_network_types(f: FieldsV)
    ensures
        lower_seq(f.fstype) == "cifs"@ ==> is_network_spec(f),
        lower_seq(f.fstype) == "smb"@ ==> is_network_spec(f),
        lower_seq(f.fstype) == "nfs"@ ==> is_network_spec(f),
        lower_seq(f.fstype) == "nfs4"@ ==> is_network_spec(f),
        lower_seq(f.fstype) == "fuse.sshfs"@ ==> is_network_spec(f),
        lower_seq(f.fstype) == "sshfs"@ ==> is_network_spec(f),
        lower_seq(f.fstype) == "davfs"@ ==> is_network_spec(f),
        lower_seq(f.fstype) == "fuse.rclone"@ ==> is_network_spec(f),
{
}

// ---------------------------------------------------------------------------
// Reading back a written entry
// ---------------------------------------------------------------------------

/// A field that survives escaping and reading back: non-empty ASCII whose
/// only whitespace is space, tab or newline (the escaped ones).
pub open spec fn field_safe(s: Seq<char>) -> bool {
    &&& s.len() > 0
    &&& is_ascii_chars(s)
    &&& forall|i: int| 0 <= i < s.len() && is_ws(#[trigger] s[i]) ==> (s[i] == ' ' || s[i] == '\t' || s[i] == '\n')
}

/// A field written as is: non-empty, no whitespace, no backslash.
pub open spec fn word_safe(s: Seq<char>) -> bool {
    &&& s.len() > 0
    &&& forall|i: int| 0 <= i < s.len() ==> !is_ws(#[trigger] s[i]) && s[i] != '\\'
}

pub open spec fn rendered_line(
    source: Seq<char>,
    target: Seq<char>,
    fstype: Seq<char>,
    options: Seq<char>,
) -> Seq<char> {
    escape_spec(source) + seq![' '] + escape_spec(target) + seq![' '] + fstype + seq![' ']
        + escape_spec(options) + seq![' ', '0', ' ', '0']
}

proof fn lemma_split_escaped(f: Seq<Seq<char>>, cur: Seq<char>, s: Seq<char>, rest: Seq<char>)
    requires
        forall|i: int| 0 <= i < s.len() && is_ws(#[trigger] s[i]) ==> (s[i] == ' ' || s[i] == '\t' || s[i] == '\n'),
    ensures
        split_go(f, cur, escape_spec(s) + rest) == split_go(f, cur + escape_spec(s), rest),
    decreases s.len(),
{
    if s.len() == 0 {
        assert(escape_spec(s) + rest =~= rest);
        assert(cur + escape_spec(s) =~= cur);
    } else {
        let c = s[0];
        let r = s.drop_first();
        assert(s =~= seq![c] + r);
        lemma_escape_front(c, r);
        let e = escape_char(c);
        let x = escape_spec(s) + rest;
        assert(x =~= e + (escape_spec(r) + rest));
        assert forall|i: int| 0 <= i < r.len() && is_ws(#[trigger] r[i]) implies (r[i] == ' '
            || r[i] == '\t' || r[i] == '\n') by {
            assert(r[i] == s[i + 1]);
        }
        lemma_split_escaped(f, cur + e, r, rest);
        assert(x.skip(e.len() as int) =~= escape_spec(r) + rest);
        if c == ' ' || c == '\t' || c == '\n' || c == '\\' {
            assert(x[0] == '\\');
            if c == '\\' {
                assert(x[1] == '\\');
                assert(!is_digit(x[1]));
                assert(escape_len(x) == 2);
            } else {
                assert(is_digit(x[1]) && is_digit(x[2]) && is_digit(x[3]));
                assert(escape_len(x) == 4);
            }
            assert(x.subrange(0, e.len() as int) =~= e);
        } else {
            assert(!is_ws(c));
            assert(x[0] == c);
            assert(cur.push(c) =~= cur + e);
        }
        assert(cur + e + escape_spec(r) =~= cur + escape_spec(s));
    }
}

proof fn lemma_split_word(f: Seq<Seq<char>>, cur: Seq<char>, s: Seq<char>, rest: Seq<char>)
    requires
        forall|i: int| 0 <= i < s.len() ==> !is_ws(#[trigger] s[i]) && s[i] != '\\',
    ensures
        split_go(f, cur, s + rest) == split_go(f, cur + s, rest),
    decreases s.len(),
{
    if s.len() == 0 {
        assert(s + rest =~= rest);
        assert(cur + s =~= cur);
    } else {
        let x = s + rest;
        let r = s.drop_first();
        assert(x[0] == s[0]);
        assert(x.skip(1) =~= r + rest);
        assert forall|i: int| 0 <= i < r.len() implies !is_ws(#[trigger] r[i]) && r[i] != '\\' by {
            assert(r[i] == s[i + 1]);
        }
        lemma_split_word(f, cur.push(s[0]), r, rest);
        assert(cur.push(s[0]) + r =~= cur + s);
    }
}

proof fn lemma_split_space(f: Seq<Seq<char>>, cur: Seq<char>, rest: Seq<char>)
    requires
        cur.len() > 0,
    ensures
        split_go(f, cur, seq![' '] + rest) == split_go(f.push(cur), Seq::empty(), rest),
{
    let x = seq![' '] + rest;
    assert(x[0] == ' ');
    assert(x.skip(1) =~= rest);
}

proof fn lemma_escape_nonempty(s: Seq<char>)
    requires
        s.len() > 0,
    ensures
        escape_spec(s).len() > 0,
        escape_spec(s)[0] == if escape_char(s[0]).len() == 1 {
            s[0]
        } else {
            '\\'
        },
{
    lemma_escape_front(s[0], s.drop_first());
    assert(s =~= seq![s[0]] + s.drop_first());
}

/// Reading a rendered entry line gives back its fields.
pub proof fn law_parse_rendered_line(
    source: Seq<char>,
    target: Seq<char>,
    fstype: Seq<char>,
    options: Seq<char>,
)
    requires
        field_safe(source),
        field_safe(target),
        field_safe(options),
        word_safe(fstype),
        source[0] != '#',
    ensures
        parse_entry_spec(rendered_line(source, target, fstype, options)) == Some(
            FieldsV {
                source,
                target,
                fstype,
                options,
                dump: zero(),
                pass: zero(),
            },
        ),
{
    let e1 = escape_spec(source);
    let e2 = escape_spec(target);
    let e3 = escape_spec(options);
    let line = rendered_line(source, target, fstype, options);
    let r5 = seq!['0'] + seq![' '] + seq!['0'];
    let r4 = seq![' '] + r5;
    let r3 = e3 + r4;
    let r2b = seq![' '] + r3;
    let r2 = fstype + r2b;
    let r1b = seq![' '] + r2;
    let r1 = e2 + r1b;
    let r0b = seq![' '] + r1;
    assert(line =~= e1 + r0b);
    lemma_escape_nonempty(source);
    lemma_escape_nonempty(target);
    lemma_escape_nonempty(options);
    // the line needs no trimming
    assert(line[0] == e1[0]);
    assert(!is_ws(line[0]));
    assert(ltrim(line) == line);
    assert(line.last() == '0');
    assert(rtrim(line) == line);
    assert(trim(line) == line);
    assert(line[0] != '#');
    // the fields
    let e: Seq<Seq<char>> = Seq::empty();
    let z: Seq<char> = Seq::empty();
    lemma_split_escaped(e, z, source, r0b);
    assert(z + e1 =~= e1);
    lemma_split_space(e, e1, r1);
    let f1 = e.push(e1);
    lemma_split_escaped(f1, z, target, r1b);
    assert(z + e2 =~= e2);
    lemma_split_space(f1, e2, r2);
    let f2 = f1.push(e2);
    lemma_split_word(f2, z, fstype, r2b);
    assert(z + fstype =~= fstype);
    lemma_split_space(f2, fstype, r3);
    let f3 = f2.push(fstype);
    lemma_split_escaped(f3, z, options, r4);
    assert(z + e3 =~= e3);
    lemma_split_space(f3, e3, r5);
    let f4 = f3.push(e3);
    let tail = seq![' '] + seq!['0'];
    assert(r5 =~= seq!['0'] + tail);
    lemma_split_word(f4, z, seq!['0'], tail);
    assert(z + seq!['0'] =~= seq!['0']);
    lemma_split_space(f4, seq!['0'], seq!['0']);
    let f5 = f4.push(seq!['0']);
    assert(seq!['0'] =~= seq!['0'] + Seq::<char>::empty());
    lemma_split_word(f5, z, seq!['0'], Seq::<char>::empty());
    let f6 = f5.push(seq!['0']);
    assert(split_go(f5, seq!['0'], Seq::<char>::empty()) == f6);
    assert(split_fields_spec(line) == f6);
    assert(f6 =~= seq![e1, e2, fstype, e3, seq!['0'], seq!['0']]);
    law_unescape_escape(source);
    law_unescape_escape(target);
    law_unescape_escape(options);
    assert(zero() =~= seq!['0']);
}

/// A planned share line reads back as the share's source, mount point,
/// type and options when those are plain ASCII.
pub proof fn law_plan_reads_back(d: DraftV)
    requires
        plan_spec(d) is Ok,
        field_safe(trim(d.source)),
        field_safe(trim(d.mount_point)),
        field_safe(build_options_spec(d, cred_path_spec(d))),
        word_safe(trim(d.protocol)),
        trim(d.source)[0] != '#',
    ensures
        parse_entry_spec(plan_spec(d)->Ok_0.entry_line) == Some(
            FieldsV {
                source: plan_spec(d)->Ok_0.source,
                target: plan_spec(d)->Ok_0.target,
                fstype: trim(d.protocol),
                options: build_options_spec(d, cred_path_spec(d)),
                dump: zero(),
                pass: zero(),
            },
        ),
{
    let opts = build_options_spec(d, cred_path_spec(d));
    assert(entry_line_spec(d) =~= rendered_line(trim(d.source), trim(d.mount_point), trim(d.protocol), opts));
    law_parse_rendered_line(trim(d.source), trim(d.mount_point), trim(d.protocol), opts);
}


/// Splitting `s + [c] + t` on `c` splits `s` and `t` apart.
proof fn lemma_split_cat(s: Seq<char>, t: Seq<char>, c: char)
    ensures
        split_on(s + seq![c] + t, c) == split_on(s, c) + split_on(t, c),
    decreases t.len(),
{
    let x = s + seq![c] + t;
    if t.len() == 0 {
        assert(x =~= s.push(c));
        assert(x.drop_last() =~= s);
        assert(split_on(s, c).push(Seq::<char>::empty()) =~= split_on(s, c) + seq![Seq::<char>::empty()]);
    } else {
        let t2 = t.drop_last();
        lemma_split_cat(s, t2, c);
        assert(x.drop_last() =~= s + seq![c] + t2);
        assert(x.last() == t.last());
        lemma_split_nonempty(t2, c);
        let a = split_on(s, c);
        let b = split_on(t2, c);
        if t.last() == c {
            assert((a + b).push(Seq::<char>::empty()) =~= a + b.push(Seq::<char>::empty()));
        } else {
            assert((a + b).update((a + b).len() - 1, (a + b).last().push(t.last())) =~= a + b.update(
                b.len() - 1,
                b.last().push(t.last()),
            ));
        }
    }
}

/// A piece without the separator is one of the pieces of the joined text.
proof fn lemma_split_join_has(ps: Seq<Seq<char>>, i: int, c: char)
    requires
        0 <= i < ps.len(),
        forall|j: int| 0 <= j < ps[i].len() ==> ps[i][j] != c,
    ensures
        split_on(join(ps, seq![c]), c).contains(ps[i]),
    decreases ps.len(),
{
    if ps.len() == 1 {
        lemma_split_absent(ps[0], c);
        assert(split_on(ps[0], c)[0] == ps[0]);
    } else {
        let p = ps.drop_last();
        let jp = join(p, seq![c]);
        assert(join(ps, seq![c]) == jp + seq![c] + ps.last());
        lemma_split_cat(jp, ps.last(), c);
        let r = split_on(jp, c) + split_on(ps.last(), c);
        if i == ps.len() - 1 {
            lemma_split_absent(ps.last(), c);
            assert(r[r.len() - 1] == ps[i]);
        } else {
            assert(p[i] == ps[i]);
            lemma_split_join_has(p, i, c);
            let k = choose|k: int| 0 <= k < split_on(jp, c).len() && split_on(jp, c)[k] == ps[i];
            assert(r[k] == ps[i]);
        }
    }
}

/// The ticked mount flags reach the planned line: for every draft whose
/// plan succeeds, the line is the share's source, mount point and type
/// followed by an options column in which `_netdev`, `nofail` and
/// `x-systemd.automount` are among the comma-separated options whenever
/// the form ticks them.
pub proof fn law_plan_flags(d: DraftV)
    requires
        plan_spec(d) is Ok,
    ensures
        exists|opts: Seq<char>|
            {
                &&& plan_spec(d)->Ok_0.entry_line == #[trigger] rendered_line(
                    trim(d.source),
                    trim(d.mount_point),
                    trim(d.protocol),
                    opts,
                )
                &&& d.netdev ==> split_on(opts, ',').contains("_netdev"@)
                &&& d.nofail ==> split_on(opts, ',').contains("nofail"@)
                &&& d.automount ==> split_on(opts, ',').contains("x-systemd.automount"@)
            },
{
    reveal_strlit("_netdev");
    reveal_strlit("nofail");
    reveal_strlit("x-systemd.automount");
    let cp = cred_path_spec(d);
    let opts = build_options_spec(d, cp);
    let parts = all_opts(d, cp);
    let f = flag_opts(d);
    let pre = parts.subrange(0, parts.len() - f.len());
    assert(parts =~= pre + f);
    assert(entry_line_spec(d) =~= rendered_line(trim(d.source), trim(d.mount_point), trim(d.protocol), opts));
    let n: Seq<Seq<char>> = if d.netdev { seq!["_netdev"@] } else { Seq::empty() };
    let nf: Seq<Seq<char>> = if d.nofail { seq!["nofail"@] } else { Seq::empty() };
    let rest = f.subrange((n.len() + nf.len()) as int, f.len() as int);
    assert(f =~= n + nf + rest);
    if d.netdev {
        let i = pre.len() as int;
        assert(parts[i] == "_netdev"@);
        lemma_split_join_has(parts, i, ',');
    }
    if d.nofail {
        let i = (pre.len() + n.len()) as int;
        assert(parts[i] == "nofail"@);
        lemma_split_join_has(parts, i, ',');
    }
    if d.automount {
        let i = (pre.len() + n.len() + nf.len()) as int;
        assert(rest[0] == "x-systemd.automount"@);
        assert(parts[i] == "x-systemd.automount"@);
        lemma_split_join_has(parts, i, ',');
    }
    assert(plan_spec(d)->Ok_0.entry_line == rendered_line(trim(d.source), trim(d.mount_point), trim(d.protocol), opts));
}

} // verus!
