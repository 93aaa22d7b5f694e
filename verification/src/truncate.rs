use vstd::prelude::*;
use vstd::utf8::{decode_utf8, encode_utf8, encode_utf8_decode_utf8, is_char_boundary};
use unicode_width::UnicodeWidthChar;

verus! {

/// The display width that the `unicode-width` crate gives a character, or
/// `None` for a control character.
pub uninterp spec fn unicode_char_width(c: char) -> Option<usize>;

/// `UnicodeWidthChar::width` of `unicode-width`: its result is named
/// `unicode_char_width`; its source gives `None` for the control codes
/// below U+0020 and from U+007F to U+009F, 1 for the printable ASCII
/// characters, and at most 3 for any character.
#[verifier::external_body]
fn char_width(c: char) -> (r: Option<usize>)
    ensures
        r == unicode_char_width(c),
        (c as int) < 0x20 ==> r is None,
        0x20 <= (c as int) < 0x7F ==> r == Some(1usize),
        0x7F <= (c as int) < 0xA0 ==> r is None,
        r matches Some(w) ==> w <= 3,
{
    c.width()
}

/// The columns a character takes, a control character none.
pub open spec fn columns(c: char) -> nat {
    match unicode_char_width(c) {
        Some(w) => w as nat,
        None => 0,
    }
}

/// The columns the first `k` characters of `s` take.
pub open spec fn prefix_columns(s: Seq<char>, k: int) -> nat
    decreases k,
{
    if k <= 0 {
        0
    } else {
        prefix_columns(s, k - 1) + columns(s[k - 1])
    }
}

/// The number of leading characters of `s` that fit in `width` columns,
/// taken one by one until the next would not fit.
pub open spec fn fitting_prefix_len(s: Seq<char>, width: nat, k: int) -> bool {
    &&& 0 <= k <= s.len()
    &&& forall|j: int| 0 <= j <= k ==> prefix_columns(s, j) <= width
    &&& k < s.len() ==> prefix_columns(s, k + 1) > width
}

/// The leading characters of `s` that fit in `width` columns.
pub open spec fn fitting_prefix(s: Seq<char>, width: nat) -> Seq<char> {
    s.take(choose|k: int| fitting_prefix_len(s, width, k))
}

/// The trailing characters of `s` that fit in `width` columns.
pub open spec fn fitting_suffix(s: Seq<char>, width: nat) -> Seq<char> {
    fitting_prefix(s.reverse(), width).reverse()
}

pub proof fn lemma_prefix_columns_monotone(s: Seq<char>, a: int, b: int)
    requires
        a <= b,
    ensures
        prefix_columns(s, a) <= prefix_columns(s, b),
    decreases b - a,
{
    if a < b {
        lemma_prefix_columns_monotone(s, a, b - 1);
    }
}

/// There is just one count of leading characters that fit.
pub proof fn lemma_fitting_prefix_len_unique(s: Seq<char>, width: nat, k1: int, k2: int)
    requires
        fitting_prefix_len(s, width, k1),
        fitting_prefix_len(s, width, k2),
    ensures
        k1 == k2,
{
    if k1 < k2 {
        assert(prefix_columns(s, k1 + 1) <= width);
    } else if k2 < k1 {
        assert(prefix_columns(s, k2 + 1) <= width);
    }
}

/// Counts the leading characters of `s` that fit in `width` columns.
fn fitting_count(s: &str, width: usize) -> (k: usize)
    ensures
        fitting_prefix_len(s@, width as nat, k as int),
{
    let n = s.unicode_len();
    let mut used: usize = 0;
    let mut k: usize = 0;
    while k < n
        invariant
            n == s@.len(),
            k <= n,
            used == prefix_columns(s@, k as int),
            used <= width,
            forall|j: int| 0 <= j <= k ==> prefix_columns(s@, j) <= width,
        decreases n - k,
    {
        let c = s.get_char(k);
        let w = match char_width(c) {
            Some(w) => w,
            None => 0,
        };
        if w > width - used {
            return k;
        }
        used = used + w;
        proof {
            assert forall|j: int| 0 <= j <= k + 1 implies prefix_columns(s@, j) <= width by {
                if j == k + 1 {
                } else {
                    assert(0 <= j <= k);
                }
            }
        }
        k = k + 1;
    }
    k
}

/// Counts the trailing characters of `s` that fit in `width` columns.
fn fitting_count_from_end(s: &str, width: usize) -> (k: usize)
    ensures
        fitting_prefix_len(s@.reverse(), width as nat, k as int),
{
    let n = s.unicode_len();
    let ghost r = s@.reverse();
    let mut used: usize = 0;
    let mut k: usize = 0;
    while k < n
        invariant
            n == s@.len(),
            r == s@.reverse(),
            k <= n,
            used == prefix_columns(r, k as int),
            used <= width,
            forall|j: int| 0 <= j <= k ==> prefix_columns(r, j) <= width,
        decreases n - k,
    {
        let c = s.get_char(n - 1 - k);
        assert(r[k as int] == c);
        let w = match char_width(c) {
            Some(w) => w,
            None => 0,
        };
        if w > width - used {
            return k;
        }
        used = used + w;
        proof {
            assert forall|j: int| 0 <= j <= k + 1 implies prefix_columns(r, j) <= width by {
                if j == k + 1 {
                } else {
                    assert(0 <= j <= k);
                }
            }
        }
        k = k + 1;
    }
    k
}

/// The leading characters of `row` that fit in `width` columns: characters
/// are taken while the columns taken so far stay within `width`.
pub fn truncate_iter_to_unicode_width(row: &str, width: usize) -> (r: String)
    ensures
        r@ == fitting_prefix(row@, width as nat),
{
    let k = fitting_count(row, width);
    proof {
        let c = choose|c: int| fitting_prefix_len(row@, width as nat, c);
        lemma_fitting_prefix_len_unique(row@, width as nat, c, k as int);
    }
    let head = row.substring_char(0, k);
    assert(head@ =~= row@.take(k as int));
    head.to_owned()
}

/// The trailing characters of `row` that fit in `width` columns.
fn truncate_end_to_unicode_width(row: &str, width: usize) -> (r: String)
    ensures
        r@ == fitting_suffix(row@, width as nat),
{
    let k = fitting_count_from_end(row, width);
    let n = row.unicode_len();
    proof {
        let c = choose|c: int| fitting_prefix_len(row@.reverse(), width as nat, c);
        lemma_fitting_prefix_len_unique(row@.reverse(), width as nat, c, k as int);
    }
    let tail = row.substring_char(n - k, n);
    assert(tail@ =~= row@.reverse().take(k as int).reverse());
    tail.to_owned()
}

/// What `truncate_middle` makes of a row.
pub open spec fn truncated_middle(row: Seq<char>, max_length: u16) -> Seq<char> {
    if max_length < 6 {
        fitting_prefix(row, max_length as nat)
    } else if ((encode_utf8(row).len() as usize) as u16) > max_length {
        let split_point = (max_length / 2 - 2) as nat;
        let marker = if max_length % 2 == 0 { seq!['[', '.', '.', '.', ']'] } else { seq!['[', '.', '.', ']'] };
        fitting_prefix(row, split_point) + marker + fitting_suffix(row, split_point)
    } else {
        row
    }
}

/// Shortens `row` for `max_length` columns by cutting out its middle: the
/// leading and trailing characters that fit in half the space, less two
/// columns each, around `[...]` (`[..]` when `max_length` is odd). A row
/// whose byte length, cut to 16 bits, is within `max_length` stays whole; below
/// six columns only the leading characters that fit are kept.
pub fn truncate_middle(row: &str, max_length: u16) -> (r: String)
    ensures
        r@ == truncated_middle(row@, max_length),
{
    if max_length < 6 {
        truncate_iter_to_unicode_width(row, max_length as usize)
    } else if row.len() as u16 > max_length {
        let split_point = (max_length as usize / 2) - 2;
        let first_slice = truncate_iter_to_unicode_width(row, split_point);
        let second_slice = truncate_end_to_unicode_width(row, split_point);
        let mut result = first_slice;
        if max_length % 2 == 0 {
            proof {
                reveal_strlit("[...]");
            }
            result.append("[...]");
        } else {
            proof {
                reveal_strlit("[..]");
            }
            result.append("[..]");
        }
        result.append(second_slice.as_str());
        proof {
            let marker = if max_length % 2 == 0 { seq!['[', '.', '.', '.', ']'] } else { seq!['[', '.', '.', ']'] };
            assert(split_point == (max_length / 2 - 2) as nat);
            assert(result@ == fitting_prefix(row@, split_point as nat) + marker + fitting_suffix(row@, split_point as nat));
        }
        result
    } else {
        row.to_owned()
    }
}

/// What `truncate_end` makes of a row that is cut: the characters of its
/// first `max_len - 3` bytes, and `...`.
pub open spec fn truncated_end(row: Seq<char>, max_len: u16) -> Seq<char> {
    if row.len() > max_len {
        decode_utf8(encode_utf8(row).subrange(0, max_len - 3)) + seq!['.', '.', '.']
    } else {
        row
    }
}

/// Shortens `row` to its first `max_len - 3` bytes and `...` when it has
/// more than `max_len` characters. The cut must fall on a character
/// boundary.
pub fn truncate_end(row: &str, max_len: u16) -> (r: String)
    requires
        row@.len() > max_len ==> max_len >= 3 && is_char_boundary(encode_utf8(row@), max_len - 3),
    ensures
        r@ == truncated_end(row@, max_len),
{
    if row.unicode_len() > max_len as usize {
        let (head, _) = row.split_at(max_len as usize - 3);
        proof {
            encode_utf8_decode_utf8(head@);
        }
        let mut truncated = head.to_owned();
        proof {
            reveal_strlit("...");
        }
        truncated.append("...");
        truncated
    } else {
        row.to_owned()
    }
}

/// A text has no more characters than its UTF-8 bytes.
pub proof fn lemma_chars_within_bytes(s: Seq<char>)
    ensures
        s.len() <= encode_utf8(s).len(),
    decreases s.len(),
{
    if s.len() > 0 {
        lemma_chars_within_bytes(s.drop_first());
    }
}

/// What `truncate_end` gives has at most `max_len` characters.
pub proof fn lemma_truncated_end_len(row: Seq<char>, max_len: u16)
    requires
        row.len() > max_len ==> max_len >= 3 && is_char_boundary(encode_utf8(row), max_len - 3),
    ensures
        truncated_end(row, max_len).len() <= max_len,
{
    if row.len() > max_len {
        let bytes = encode_utf8(row);
        let head = bytes.subrange(0, max_len - 3);
        vstd::utf8::encode_utf8_valid_utf8(row);
        vstd::utf8::valid_utf8_split(bytes, max_len - 3);
        vstd::utf8::decode_utf8_encode_utf8(head);
        lemma_chars_within_bytes(decode_utf8(head));
    }
}

} // verus!
