//! Text for and from the web.

use vstd::prelude::*;
use vstd::utf8::encode_utf8;

use crate::text::{chars_of, trim, trimmed};

verus! {

/// Whether the first `k` characters end inside a tag.
pub open spec fn tag_open(s: Seq<char>, k: int) -> bool
    decreases k,
{
    if k <= 0 {
        false
    } else if s[k - 1] == '<' {
        true
    } else if s[k - 1] == '>' {
        false
    } else {
        tag_open(s, k - 1)
    }
}

/// What the first `k` characters hold outside of tags.
pub open spec fn outside_tags(s: Seq<char>, k: int) -> Seq<char>
    decreases k,
{
    if k <= 0 {
        Seq::empty()
    } else if s[k - 1] == '<' || s[k - 1] == '>' || tag_open(s, k - 1) {
        outside_tags(s, k - 1)
    } else {
        outside_tags(s, k - 1).push(s[k - 1])
    }
}

/// A fragment without its tags.
pub open spec fn untagged(s: Seq<char>) -> Seq<char> {
    trimmed(outside_tags(s, s.len() as int))
}

/// Leaves the tags of a small fragment out.
pub fn strip_html(s: &str) -> (r: String)
    ensures
        r@ == untagged(s@),
{
    let v = chars_of(s);
    let mut out = String::new();
    let mut in_tag = false;
    let mut i: usize = 0;
    assert(out@ =~= outside_tags(s@, 0));
    while i < v.len()
        invariant
            0 <= i <= v@.len(),
            v@ == s@,
            in_tag == tag_open(s@, i as int),
            out@ == outside_tags(s@, i as int),
        decreases v@.len() - i,
    {
        let c = v[i];
        if c == '<' {
            in_tag = true;
        } else if c == '>' {
            in_tag = false;
        } else if !in_tag {
            out.push(c);
        }
        i = i + 1;
    }
    trim(out.as_str())
}

/// No angle bracket is left.
pub proof fn law_no_tags_are_left(s: Seq<char>, k: int)
    requires
        0 <= k <= s.len(),
    ensures
        forall|i: int|
            0 <= i < outside_tags(s, k).len() ==> (#[trigger] outside_tags(s, k)[i]) != '<'
                && outside_tags(s, k)[i] != '>',
    decreases k,
{
    if k > 0 {
        law_no_tags_are_left(s, k - 1);
        let before = outside_tags(s, k - 1);
        let after = outside_tags(s, k);
        assert forall|i: int| 0 <= i < after.len() implies (#[trigger] after[i]) != '<' && after[i]
            != '>' by {
            if i < before.len() {
                assert(after[i] == before[i]);
            }
        }
    }
}

/// Bytes that stand for themselves in a query.
pub open spec fn unreserved(b: u8) -> bool {
    65 <= b <= 90 || 97 <= b <= 122 || 48 <= b <= 57 || b == 45 || b == 95 || b == 46 || b == 126
}

/// An upper-case hexadecimal digit.
pub open spec fn upper_hex(n: u8) -> char {
    if n < 10 {
        (48 + n) as u8 as char
    } else {
        (55 + n) as u8 as char
    }
}

/// A byte in a query.
pub open spec fn query_byte(b: u8) -> Seq<char> {
    if unreserved(b) {
        seq![b as char]
    } else if b == 32 {
        seq!['+']
    } else {
        seq!['%', upper_hex(b / 16), upper_hex(b % 16)]
    }
}

/// The first `k` bytes in a query.
pub open spec fn query_bytes(bytes: Seq<u8>, k: int) -> Seq<char>
    decreases k,
{
    if k <= 0 {
        Seq::empty()
    } else {
        query_bytes(bytes, k - 1) + query_byte(bytes[k - 1])
    }
}

/// A text as the value of a query.
pub open spec fn query_value(s: Seq<char>) -> Seq<char> {
    query_bytes(encode_utf8(s), encode_utf8(s).len() as int)
}

/// Writes an upper-case hexadecimal digit.
fn hex_digit(n: u8) -> (r: char)
    requires
        n < 16,
    ensures
        r == upper_hex(n),
{
    if n < 10 {
        (48 + n) as char
    } else {
        (55 + n) as char
    }
}

/// Encodes a text as the value of a query.
pub fn urlencoding_encode(s: &str) -> (r: String)
    ensures
        r@ == query_value(s@),
{
    let bytes = s.as_bytes();
    let mut out = String::new();
    let mut i: usize = 0;
    assert(out@ =~= query_bytes(bytes@, 0));
    while i < bytes.len()
        invariant
            0 <= i <= bytes@.len(),
            bytes@ == encode_utf8(s@),
            out@ =~= query_bytes(bytes@, i as int),
        decreases bytes@.len() - i,
    {
        let b: u8 = bytes[i];
        if (65 <= b && b <= 90) || (97 <= b && b <= 122) || (48 <= b && b <= 57) || b == 45 || b
            == 95 || b == 46 || b == 126 {
            out.push(b as char);
        } else if b == 32 {
            out.push('+');
        } else {
            out.push('%');
            out.push(hex_digit(b / 16));
            out.push(hex_digit(b % 16));
        }
        i = i + 1;
    }
    out
}

/// A text without angle brackets stays, and a tag is cut out of it with its brackets.
pub proof fn law_tags_are_cut_out(before: Seq<char>, tag: Seq<char>, after: Seq<char>, k: int)
    requires
        forall|i: int| 0 <= i < before.len() ==> (#[trigger] before[i]) != '<' && before[i] != '>',
        forall|i: int| 0 <= i < tag.len() ==> (#[trigger] tag[i]) != '<' && tag[i] != '>',
        forall|i: int| 0 <= i < after.len() ==> (#[trigger] after[i]) != '<' && after[i] != '>',
        0 <= k <= before.len() + 1 + tag.len() + 1 + after.len(),
    ensures
        ({
            let s = before + seq!['<'] + tag + seq!['>'] + after;
            let b = before.len();
            let t = tag.len();
            &&& k <= b ==> outside_tags(s, k) == before.take(k) && !tag_open(s, k)
            &&& b < k <= b + 1 + t ==> outside_tags(s, k) == before && tag_open(s, k)
            &&& k > b + 1 + t ==> outside_tags(s, k) == before + after.take(k - b - t - 2) && !tag_open(s, k)
        }),
    decreases k,
{
    let s = before + seq!['<'] + tag + seq!['>'] + after;
    let b = before.len();
    let t = tag.len();
    if k > 0 {
        law_tags_are_cut_out(before, tag, after, k - 1);
        if k <= b {
            assert(s[k - 1] == before[k - 1]);
            assert(before.take(k) =~= before.take(k - 1).push(before[k - 1]));
        } else if k == b + 1 {
            assert(s[k - 1] == '<');
            assert(before.take(k - 1) =~= before);
        } else if k <= b + 1 + t {
            assert(s[k - 1] == tag[k - 2 - b]);
        } else if k == b + t + 2 {
            assert(s[k - 1] == '>');
            assert(before + after.take(0) =~= before);
        } else {
            let j = k - b - t - 2;
            assert(s[k - 1] == after[j - 1]);
            assert(before + after.take(j) =~= (before + after.take(j - 1)).push(after[j - 1]));
        }
    } else {
        assert(before.take(0) =~= Seq::empty());
    }
}

/// Letters, digits and four marks stand for themselves in a query, a space is a plus, and any other byte is a
/// percent sign with two digits.
pub proof fn law_queries_are_encoded(b: u8, bytes: Seq<u8>, k: int)
    requires
        0 <= k < bytes.len(),
    ensures
        65 <= b <= 90 || 97 <= b <= 122 || 48 <= b <= 57 ==> query_byte(b) == seq![b as char],
        b == 45 || b == 95 || b == 46 || b == 126 ==> query_byte(b) == seq![b as char],
        query_byte(32) == seq!['+'],
        query_byte(38) == seq!['%', '2', '6'],
        query_byte(37) == seq!['%', '2', '5'],
        query_byte(43) == seq!['%', '2', 'B'],
        b >= 128 ==> query_byte(b).len() == 3 && query_byte(b)[0] == '%' && query_byte(b)[1]
            == "0123456789ABCDEF"@[b as int / 16] && query_byte(b)[2] == "0123456789ABCDEF"@[b as int % 16],
        query_bytes(bytes, k + 1) == query_bytes(bytes, k) + query_byte(bytes[k]),
        query_bytes(bytes, 0) == Seq::<char>::empty(),
{
    reveal_strlit("0123456789ABCDEF");
    if b >= 128 {
        let h = b / 16;
        let l = b % 16;
        assert(8 <= h < 16);
        assert(l < 16);
        assert(upper_hex(h) == "0123456789ABCDEF"@[h as int]);
        assert(upper_hex(l) == "0123456789ABCDEF"@[l as int]);
    }
}

}
