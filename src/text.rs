//! Small text utilities shared by the table parsers.

use vstd::prelude::*;
use vstd::utf8::{decode_utf8, valid_utf8};

verus! {

/// Whitespace as it appears in the kernel's text tables: the six ASCII
/// blanks. Those tables are ASCII, so Unicode-only spaces (which
/// `str::split_whitespace` would also split on) are kept inside a field.
pub open spec fn is_blank(c: char) -> bool {
    c == ' ' || c == '\t' || c == '\n' || c == '\r' || c == '\x0b' || c == '\x0c'
}

/// Splits `s` into maximal runs of non-blank characters, scanning from `i`,
/// where the run in progress started at `start` and `acc` holds the runs
/// already closed.
pub open spec fn fields_from(s: Seq<char>, i: int, start: int, acc: Seq<Seq<char>>) -> Seq<Seq<char>>
    decreases s.len() - i,
{
    if i >= s.len() {
        if start < s.len() { acc.push(s.subrange(start, s.len() as int)) } else { acc }
    } else if is_blank(s[i]) {
        let acc2 = if start < i { acc.push(s.subrange(start, i)) } else { acc };
        fields_from(s, i + 1, i + 1, acc2)
    } else {
        fields_from(s, i + 1, start, acc)
    }
}

/// The whitespace-separated fields of a line.
pub open spec fn fields_of(s: Seq<char>) -> Seq<Seq<char>> {
    fields_from(s, 0, 0, Seq::empty())
}

/// Splits a line into its whitespace-separated fields.
pub fn split_fields(s: &str) -> (r: Vec<String>)
    ensures
        r@.map_values(|f: String| f@) == fields_of(s@),
{
    let n = s.unicode_len();
    let mut acc: Vec<String> = Vec::new();
    let mut i: usize = 0;
    let mut start: usize = 0;
    assert(acc@.map_values(|f: String| f@) =~= Seq::<Seq<char>>::empty());
    while i < n
        invariant
            n == s@.len(),
            start <= i <= n,
            fields_from(s@, i as int, start as int, acc@.map_values(|f: String| f@)) == fields_of(s@),
        decreases n - i,
    {
        let c = s.get_char(i);
        if is_blank_char(c) {
            if start < i {
                let piece = s.substring_char(start, i);
                let f = String::from_str(piece);
                proof {
                    let old_acc = acc@.map_values(|f: String| f@);
                    assert(old_acc.push(f@) =~= acc@.push(f).map_values(|f: String| f@));
                }
                acc.push(f);
            }
            start = i + 1;
        }
        i = i + 1;
    }
    if start < n {
        let piece = s.substring_char(start, n);
        let f = String::from_str(piece);
        proof {
            let old_acc = acc@.map_values(|f: String| f@);
            assert(old_acc.push(f@) =~= acc@.push(f).map_values(|f: String| f@));
        }
        acc.push(f);
    }
    acc
}

/// Decides `is_blank`.
pub fn is_blank_char(c: char) -> (r: bool)
    ensures
        r == is_blank(c),
{
    c == ' ' || c == '\t' || c == '\n' || c == '\r' || c == '\x0b' || c == '\x0c'
}

/// Character-wise equality of two strings.
pub fn str_equal(a: &str, b: &str) -> (r: bool)
    ensures
        r == (a@ == b@),
{
    let n = a.unicode_len();
    let m = b.unicode_len();
    if n != m {
        return false;
    }
    let mut i: usize = 0;
    while i < n
        invariant
            n == a@.len(),
            m == b@.len(),
            n == m,
            i <= n,
            forall|k: int| 0 <= k < i ==> a@[k] == b@[k],
        decreases n - i,
    {
        if a.get_char(i) != b.get_char(i) {
            return false;
        }
        i = i + 1;
    }
    assert(a@ =~= b@);
    true
}

/// Whether every character is an ASCII decimal digit.
pub open spec fn all_digits(s: Seq<char>) -> bool {
    forall|k: int| 0 <= k < s.len() ==> '0' <= #[trigger] s[k] <= '9'
}

/// The number written in decimal by a string of digits.
pub open spec fn decimal_value(s: Seq<char>) -> nat
    decreases s.len(),
{
    if s.len() == 0 {
        0
    } else {
        decimal_value(s.drop_last()) * 10 + ((s.last() as nat) - ('0' as nat)) as nat
    }
}

/// Parses an unsigned decimal number that fits in 64 bits.
pub fn parse_decimal(s: &str) -> (r: Option<u64>)
    ensures
        r is Some <==> (s@.len() > 0 && all_digits(s@) && decimal_value(s@) <= u64::MAX),
        r is Some ==> r->0 == decimal_value(s@),
{
    let n = s.unicode_len();
    if n == 0 {
        return None;
    }
    let mut v: u64 = 0;
    let mut i: usize = 0;
    while i < n
        invariant
            n == s@.len(),
            i <= n,
            all_digits(s@.subrange(0, i as int)),
            v == decimal_value(s@.subrange(0, i as int)),
        decreases n - i,
    {
        let c = s.get_char(i);
        proof {
            assert(s@.subrange(0, i as int + 1).drop_last() =~= s@.subrange(0, i as int));
        }
        if c < '0' || c > '9' {
            proof {
                assert(s@[i as int] == c);
            }
            return None;
        }
        let d: u64 = (c as u32 - '0' as u32) as u64;
        if v > (u64::MAX - d) / 10 {
            proof {
                assert(decimal_value(s@.subrange(0, i as int + 1)) == v * 10 + d);
                if all_digits(s@) {
                    lemma_decimal_prefix_grows(s@, i as int + 1);
                }
            }
            return None;
        }
        v = v * 10 + d;
        i = i + 1;
        proof {
            assert(all_digits(s@.subrange(0, i as int)));
        }
    }
    assert(s@.subrange(0, n as int) =~= s@);
    Some(v)
}

/// The value of a digit string never decreases when more digits follow.
proof fn lemma_decimal_prefix_grows(s: Seq<char>, i: int)
    requires
        0 <= i <= s.len(),
        all_digits(s),
    ensures
        decimal_value(s.subrange(0, i)) <= decimal_value(s),
    decreases s.len() - i,
{
    if i < s.len() {
        lemma_decimal_prefix_grows(s, i + 1);
        assert(s.subrange(0, i + 1).drop_last() =~= s.subrange(0, i));
    } else {
        assert(s.subrange(0, i) =~= s);
    }
}

/// Index of the first NUL byte of `f` at or after `i`, or its length.
pub open spec fn first_nul_from(f: Seq<u8>, i: int) -> int
    decreases f.len() - i,
{
    if i >= f.len() {
        f.len() as int
    } else if f[i] == 0 {
        i
    } else {
        first_nul_from(f, i + 1)
    }
}

/// The text of a NUL-terminated field, without the terminator and padding.
pub open spec fn c_text(f: Seq<u8>) -> Seq<u8> {
    f.subrange(0, first_nul_from(f, 0))
}

/// Relies on `String::from_utf8`: succeeds exactly on valid UTF-8 and then
/// holds the decoded characters.
#[verifier::external_body]
fn utf8_text(bytes: Vec<u8>) -> (r: Option<String>)
    ensures
        r is Some <==> valid_utf8(bytes@),
        r is Some ==> r->0@ == decode_utf8(bytes@),
{
    String::from_utf8(bytes).ok()
}

/// The text of a NUL-terminated field, if it is valid UTF-8.
pub open spec fn c_field_text(f: Seq<u8>) -> Option<Seq<char>> {
    if valid_utf8(c_text(f)) { Some(decode_utf8(c_text(f))) } else { None }
}

/// Decodes the NUL-terminated text in the `len` bytes of `data` at `start`;
/// `None` if it is not valid UTF-8.
pub fn read_c_text(data: &Vec<u8>, start: usize, len: usize) -> (r: Option<String>)
    requires
        start + len <= data@.len(),
    ensures
        r is Some <==> c_field_text(data@.subrange(start as int, start + len)) is Some,
        r is Some ==> r->0@ == c_field_text(data@.subrange(start as int, start + len))->0,
{
    let ghost f = data@.subrange(start as int, start + len);
    let dl = data.len();
    let mut bytes: Vec<u8> = Vec::new();
    let mut i: usize = 0;
    while i < len && data[start + i] != 0
        invariant
            dl == data@.len(),
            start + len <= data@.len(),
            f == data@.subrange(start as int, start + len),
            i <= len,
            first_nul_from(f, i as int) == first_nul_from(f, 0),
            bytes@ == f.subrange(0, i as int),
        decreases len - i,
    {
        bytes.push(data[start + i]);
        i = i + 1;
        assert(bytes@ =~= f.subrange(0, i as int));
    }
    assert(first_nul_from(f, i as int) == i);
    utf8_text(bytes)
}

} // verus!
