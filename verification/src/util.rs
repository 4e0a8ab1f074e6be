//! Small text helpers for device names and D-Bus byte strings.

use vstd::prelude::*;
use vstd::string::*;
use vstd::utf8::*;

use crate::text::{before, chars_of, slice_of, string_from, trim, trimmed};

verus! {

/// The text after the last `/` (all of it when there is none).
pub open spec fn after_last_slash(s: Seq<char>) -> Seq<char>
    decreases s.len(),
{
    if s.len() == 0 {
        s
    } else if s.last() == '/' {
        Seq::empty()
    } else {
        after_last_slash(s.drop_last()).push(s.last())
    }
}

/// Index just past the last `/`, or 0.
pub fn last_slash_end(v: &[char]) -> (k: usize)
    ensures
        k <= v@.len(),
        v@.subrange(k as int, v@.len() as int) == after_last_slash(v@),
{
    let n = v.len();
    let mut k = n;
    while k > 0 && v[k - 1] != '/'
        invariant
            k <= n == v@.len(),
            forall|j: int| k <= j < n ==> v@[j] != '/',
        decreases k,
    {
        k = k - 1;
    }
    proof {
        lemma_after_last_slash(v@, k as int);
    }
    k
}

proof fn lemma_after_last_slash(s: Seq<char>, k: int)
    requires
        0 <= k <= s.len(),
        forall|j: int| k <= j < s.len() ==> s[j] != '/',
        k == 0 || s[k - 1] == '/',
    ensures
        s.subrange(k, s.len() as int) == after_last_slash(s),
    decreases s.len(),
{
    if s.len() == 0 {
        assert(s.subrange(k, 0) =~= s);
    } else if k == s.len() {
        assert(s.last() == '/');
        assert(s.subrange(k, s.len() as int) =~= Seq::<char>::empty());
    } else {
        let t = s.drop_last();
        lemma_after_last_slash(t, k);
        assert(s.subrange(k, s.len() as int) =~= t.subrange(k, t.len() as int).push(s.last()));
    }
}

/// The kernel name of a device path, such as `nvme0n1p2` for `/dev/nvme0n1p2`.
pub fn kernel_name(device: &str) -> (r: &str)
    ensures
        r@ == after_last_slash(device@),
{
    let v = chars_of(device);
    let k = last_slash_end(v.as_slice());
    device.substring_char(k, v.len())
}

/// What `String::from_utf8_lossy` makes of a byte string.
pub uninterp spec fn lossy_utf8(b: Seq<u8>) -> Seq<char>;

/// Calls `String::from_utf8_lossy`. The contract names the result and
/// states what its documentation promises: valid UTF-8 is decoded as is.
/// What it makes of invalid input is left to the name.
#[verifier::external_body]
fn from_utf8_lossy(b: &[u8]) -> (s: String)
    ensures
        s@ == lossy_utf8(b@),
        valid_utf8(b@) ==> s@ == decode_utf8(b@),
{
    String::from_utf8_lossy(b).into_owned()
}

/// The bytes before the first NUL.
pub open spec fn before_nul(b: Seq<u8>) -> Seq<u8>
    decreases b.len(),
{
    if b.len() == 0 {
        b
    } else if b[0] == 0 {
        Seq::empty()
    } else {
        seq![b[0]] + before_nul(b.drop_first())
    }
}

/// A C string from D-Bus: the text before the first NUL.
pub fn c_string(bytes: &[u8]) -> (r: String)
    ensures
        r@ == lossy_utf8(before_nul(bytes@)),
        valid_utf8(before_nul(bytes@)) ==> r@ == decode_utf8(before_nul(bytes@)),
{
    let mut end: usize = 0;
    proof {
        assert(bytes@.skip(0) =~= bytes@);
    }
    while end < bytes.len() && bytes[end] != 0
        invariant
            end <= bytes@.len(),
            before_nul(bytes@) == bytes@.subrange(0, end as int) + before_nul(bytes@.skip(end as int)),
        decreases bytes@.len() - end,
    {
        let ghost t = bytes@.skip(end as int);
        assert(t[0] == bytes@[end as int]);
        assert(t.drop_first() =~= bytes@.skip(end + 1));
        assert(bytes@.subrange(0, end as int) + (seq![t[0]] + before_nul(t.drop_first()))
            =~= bytes@.subrange(0, end + 1) + before_nul(bytes@.skip(end + 1)));
        end = end + 1;
    }
    if end < bytes.len() {
        assert(bytes@.skip(end as int)[0] == 0);
    }
    assert(bytes@.subrange(0, end as int) + Seq::<u8>::empty() =~= bytes@.subrange(0, end as int));
    let prefix = slice_u8(bytes, end);
    from_utf8_lossy(prefix.as_slice())
}

fn slice_u8(b: &[u8], end: usize) -> (v: Vec<u8>)
    requires
        end <= b@.len(),
    ensures
        v@ == b@.subrange(0, end as int),
{
    let mut v: Vec<u8> = Vec::new();
    let mut i: usize = 0;
    while i < end
        invariant
            i <= end <= b@.len(),
            v@ == b@.subrange(0, i as int),
        decreases end - i,
    {
        v.push(b[i]);
        i = i + 1;
        assert(v@ =~= b@.subrange(0, i as int));
    }
    v
}

/// The UTF-8 bytes of the text with a NUL after them, as D-Bus wants.
pub fn with_nul(text: &str) -> (r: Vec<u8>)
    ensures
        r@ == encode_utf8(text@).push(0),
{
    let mut bytes = text.as_bytes_vec();
    bytes.push(0);
    bytes
}

/// The first line, trimmed, cut to 160 characters.
pub open spec fn brief_spec(text: Seq<char>) -> Seq<char> {
    let line = trim(before(text, '\n'));
    if line.len() <= 160 {
        line
    } else {
        line.subrange(0, 160)
    }
}

/// A one-line summary of an error text.
pub fn brief(text: &str) -> (r: String)
    ensures
        r@ == brief_spec(text@),
{
    let v = chars_of(text);
    let first = crate::text::before_chars(v.as_slice(), '\n');
    let line = trimmed(first.as_slice());
    let n = if line.len() <= 160 {
        line.len()
    } else {
        160
    };
    let cut = slice_of(line.as_slice(), 0, n);
    assert(line@.len() <= 160 ==> line@.subrange(0, n as int) =~= line@);
    string_from(cut.as_slice())
}

proof fn lemma_scalar_no_zero(c: u32)
    requires
        c != 0,
    ensures
        forall|i: int| 0 <= i < encode_scalar(c).len() ==> #[trigger] encode_scalar(c)[i] != 0,
{
    let l1 = leading_byte_width_1(c);
    let l2 = leading_byte_width_2(c);
    let l3 = leading_byte_width_3(c);
    let l4 = leading_byte_width_4(c);
    let k1 = last_continuation_byte(c);
    let k2 = second_last_continuation_byte(c);
    let k3 = third_last_continuation_byte(c);
    if has_width_1_encoding(c) {
        assert((c & 0x7F) as u8 != 0) by (bit_vector)
            requires
                c != 0,
                c <= 0x7F,
        ;
    }
    assert(0xC0u8 | ((c >> 6) & 0x1F) as u8 != 0) by (bit_vector);
    assert(0xE0u8 | ((c >> 12) & 0x0F) as u8 != 0) by (bit_vector);
    assert(0xF0u8 | ((c >> 18) & 0x7) as u8 != 0) by (bit_vector);
    assert(0x80u8 | (c & 0x3F) as u8 != 0) by (bit_vector);
    assert(0x80u8 | ((c >> 6) & 0x3F) as u8 != 0) by (bit_vector);
    assert(0x80u8 | ((c >> 12) & 0x3F) as u8 != 0) by (bit_vector);
}

proof fn lemma_encode_no_zero(t: Seq<char>)
    requires
        forall|i: int| 0 <= i < t.len() ==> t[i] != '\0',
    ensures
        forall|i: int| 0 <= i < encode_utf8(t).len() ==> #[trigger] encode_utf8(t)[i] != 0,
    decreases t.len(),
{
    if t.len() > 0 {
        let r = t.drop_first();
        assert forall|i: int| 0 <= i < r.len() implies r[i] != '\0' by {
            assert(r[i] == t[i + 1]);
        }
        lemma_encode_no_zero(r);
        assert(t[0] != '\0');
        char_u32_cast(t[0], t[0] as u32);
        assert((0u32 as char) == '\0');
        assert((t[0] as u32) != 0);
        lemma_scalar_no_zero(t[0] as u32);
        let a = encode_scalar(t[0] as u32);
        let b = encode_utf8(r);
        assert forall|i: int| 0 <= i < (a + b).len() implies #[trigger] (a + b)[i] != 0 by {
            if i < a.len() {
                assert((a + b)[i] == a[i]);
            } else {
                assert((a + b)[i] == b[i - a.len()]);
            }
        }
    }
}

proof fn lemma_before_nul_push(b: Seq<u8>)
    requires
        forall|i: int| 0 <= i < b.len() ==> b[i] != 0,
    ensures
        before_nul(b.push(0)) == b,
    decreases b.len(),
{
    let x = b.push(0);
    if b.len() == 0 {
        assert(x[0] == 0);
    } else {
        let r = b.drop_first();
        assert forall|i: int| 0 <= i < r.len() implies r[i] != 0 by {
            assert(r[i] == b[i + 1]);
        }
        lemma_before_nul_push(r);
        assert(x[0] == b[0]);
        assert(x.drop_first() =~= r.push(0));
        assert(seq![b[0]] + r =~= b);
    }
}

/// A NUL-free text written with `with_nul` is read back by `c_string`: the
/// bytes before the NUL are the text's UTF-8, which decodes to the text
/// (and `c_string` decodes valid UTF-8 as is).
pub proof fn law_c_string_with_nul(text: Seq<char>)
    requires
        forall|i: int| 0 <= i < text.len() ==> text[i] != '\0',
    ensures
        before_nul(encode_utf8(text).push(0)) == encode_utf8(text),
        valid_utf8(encode_utf8(text)),
        decode_utf8(encode_utf8(text)) == text,
{
    lemma_encode_no_zero(text);
    lemma_before_nul_push(encode_utf8(text));
    encode_utf8_decode_utf8(text);
    encode_utf8_valid_utf8(text);
}

} // verus!
