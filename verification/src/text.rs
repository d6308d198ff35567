//! Text primitives for the flat diagnostic listing: splitting on a separator
//! character, decimal parsing, and substring search.

use vstd::prelude::*;
use vstd::string::*;

verus! {

/// The fields of `s` split on the separator `sep`. Splitting the empty
/// sequence yields one empty field; every occurrence of `sep` ends a field,
/// so the result always holds one more field than there are separators.
pub open spec fn split_text(s: Seq<char>, sep: char) -> Seq<Seq<char>>
    decreases s.len(),
{
    if s.len() == 0 {
        seq![Seq::<char>::empty()]
    } else {
        let prev = split_text(s.drop_last(), sep);
        if s.last() == sep {
            prev.push(Seq::<char>::empty())
        } else {
            prev.update(prev.len() - 1, prev.last().push(s.last()))
        }
    }
}

pub proof fn lemma_split_text_nonempty(s: Seq<char>, sep: char)
    ensures
        split_text(s, sep).len() >= 1,
    decreases s.len(),
{
    if s.len() != 0 {
        lemma_split_text_nonempty(s.drop_last(), sep);
    }
}

/// The views of a sequence of owned strings.
pub open spec fn str_views(v: Seq<String>) -> Seq<Seq<char>> {
    v.map_values(|t: String| t@)
}

/// Splits `s` on the character `sep`, keeping empty fields.
pub fn split_on(s: &str, sep: char) -> (r: Vec<String>)
    ensures
        str_views(r@) == split_text(s@, sep),
{
    let n = s.unicode_len();
    let mut fields: Vec<String> = Vec::new();
    let mut start: usize = 0;
    let mut i: usize = 0;
    proof {
        assert(str_views(fields@).push(s@.subrange(0, 0)) =~~= split_text(
            s@.subrange(0, 0),
            sep,
        ));
    }
    while i < n
        invariant
            start <= i <= n,
            n == s@.len(),
            str_views(fields@).push(s@.subrange(start as int, i as int)) == split_text(
                s@.subrange(0, i as int),
                sep,
            ),
        decreases n - i,
    {
        let ghost pre = s@.subrange(0, i as int);
        let ghost old_fields = fields@;
        let ghost old_start = start as int;
        let c = s.get_char(i);
        if c == sep {
            let f = s.substring_char(start, i);
            fields.push(String::from_str(f));
            start = i + 1;
        }
        i = i + 1;
        proof {
            let post = s@.subrange(0, i as int);
            assert(post.drop_last() =~= pre);
            assert(post.last() == s@[i - 1]);
            lemma_split_text_nonempty(pre, sep);
            if c == sep {
                assert(str_views(fields@) =~~= str_views(old_fields).push(
                    pre.subrange(old_start, pre.len() as int),
                ));
                assert(s@.subrange(old_start, i - 1) =~= pre.subrange(old_start, pre.len() as int));
                assert(s@.subrange(start as int, i as int) =~= Seq::<char>::empty());
                assert(str_views(fields@).push(s@.subrange(start as int, i as int)) =~~=
                    split_text(post, sep));
            } else {
                let prev = split_text(pre, sep);
                assert(prev.last() == s@.subrange(old_start, i - 1));
                assert(s@.subrange(old_start, i - 1).push(s@[i - 1]) =~= s@.subrange(
                    old_start,
                    i as int,
                ));
                assert(str_views(fields@).push(s@.subrange(start as int, i as int)) =~~=
                    split_text(post, sep));
            }
        }
    }
    let f = s.substring_char(start, n);
    fields.push(String::from_str(f));
    proof {
        assert(s@.subrange(0, n as int) =~= s@);
        assert(str_views(fields@) =~~= split_text(s@, sep));
    }
    fields
}

/// A decimal digit.
pub open spec fn is_digit(c: char) -> bool {
    48 <= c as u32 && c as u32 <= 57
}

/// The numeric value of one decimal digit character.
pub open spec fn digit_value(c: char) -> int {
    c as u32 - 48
}

pub open spec fn all_digits(s: Seq<char>) -> bool {
    forall|i: int| 0 <= i < s.len() ==> is_digit(s[i])
}

/// The value of `s` read as a decimal numeral, most significant digit first.
pub open spec fn dec_value(s: Seq<char>) -> int
    decreases s.len(),
{
    if s.len() == 0 {
        0
    } else {
        dec_value(s.drop_last()) * 10 + digit_value(s.last())
    }
}

/// `s` denotes an unsigned 64-bit value: non-empty, all digits, in range.
pub open spec fn valid_u64(s: Seq<char>) -> bool {
    s.len() > 0 && all_digits(s) && dec_value(s) <= u64::MAX
}

pub proof fn lemma_dec_value_nonneg(s: Seq<char>)
    requires
        all_digits(s),
    ensures
        dec_value(s) >= 0,
    decreases s.len(),
{
    if s.len() != 0 {
        assert(all_digits(s.drop_last())) by {
            assert(forall|i: int|
                0 <= i < s.len() - 1 ==> s.drop_last()[i] == s[i] && is_digit(s[i]));
        }
        lemma_dec_value_nonneg(s.drop_last());
    }
}

pub proof fn lemma_dec_value_prefix(s: Seq<char>, j: int)
    requires
        all_digits(s),
        0 <= j <= s.len(),
    ensures
        dec_value(s.subrange(0, j)) <= dec_value(s),
    decreases s.len(),
{
    if j == s.len() {
        assert(s.subrange(0, j) =~= s);
    } else {
        let t = s.drop_last();
        assert(all_digits(t)) by {
            assert(forall|i: int| 0 <= i < t.len() ==> t[i] == s[i] && is_digit(s[i]));
        }
        assert(s.subrange(0, j) =~= t.subrange(0, j));
        lemma_dec_value_prefix(t, j);
        lemma_dec_value_nonneg(t);
    }
}

/// Parses `s` as an unsigned 64-bit decimal numeral; `None` on an empty
/// string, a non-digit character, or a value over the 64-bit range.
pub fn parse_u64(s: &str) -> (r: Option<u64>)
    ensures
        r == if valid_u64(s@) {
            Some(dec_value(s@) as u64)
        } else {
            None::<u64>
        },
{
    let n = s.unicode_len();
    if n == 0 {
        return None;
    }
    let mut acc: u64 = 0;
    let mut i: usize = 0;
    proof {
        assert(s@.subrange(0, 0) =~= Seq::<char>::empty());
    }
    while i < n
        invariant
            i <= n,
            n == s@.len(),
            all_digits(s@.subrange(0, i as int)),
            acc as int == dec_value(s@.subrange(0, i as int)),
        decreases n - i,
    {
        let ghost pre = s@.subrange(0, i as int);
        let c = s.get_char(i);
        let u = c as u32;
        if u < 48 || u > 57 {
            proof {
                assert(!is_digit(s@[i as int]));
            }
            return None;
        }
        let d = (u - 48) as u64;
        let limit = (u64::MAX - d) / 10;
        proof {
            let post = s@.subrange(0, i + 1);
            assert(post.drop_last() =~= pre);
            assert(post.last() == s@[i as int]);
            if acc > limit {
                assert(acc * 10 + d > u64::MAX) by {
                    let x = u64::MAX - d;
                    assert(10 * (x as int / 10) + x as int % 10 == x as int);
                    assert(acc as int * 10 >= (limit as int + 1) * 10);
                };
                assert(dec_value(post) > u64::MAX);
                if all_digits(s@) {
                    lemma_dec_value_prefix(s@, i + 1);
                    assert(!valid_u64(s@));
                } else {
                    assert(!valid_u64(s@));
                }
            } else {
                assert(acc * 10 + d <= u64::MAX) by {
                    let x = u64::MAX - d;
                    assert(10 * (x as int / 10) + x as int % 10 == x as int);
                    assert(acc as int * 10 <= limit as int * 10);
                };
            }
        }
        if acc > limit {
            return None;
        }
        acc = acc * 10 + d;
        i = i + 1;
        proof {
            assert(acc as int == dec_value(s@.subrange(0, i as int)));
        }
    }
    proof {
        assert(s@.subrange(0, n as int) =~= s@);
    }
    Some(acc)
}

/// `needle` occurs in `hay` starting at position `i`.
pub open spec fn contains_at(hay: Seq<char>, needle: Seq<char>, i: int) -> bool {
    0 <= i && i + needle.len() <= hay.len() && hay.subrange(i, i + needle.len()) == needle
}

/// `needle` occurs somewhere in `hay` as a contiguous run.
pub open spec fn seq_contains(hay: Seq<char>, needle: Seq<char>) -> bool {
    exists|i: int| contains_at(hay, needle, i)
}

/// Substring search: whether `needle` occurs contiguously in `hay`.
pub fn str_contains(hay: &str, needle: &str) -> (r: bool)
    ensures
        r == seq_contains(hay@, needle@),
{
    let n = hay.unicode_len();
    let m = needle.unicode_len();
    if m > n {
        proof {
            assert(forall|i: int| !contains_at(hay@, needle@, i));
        }
        return false;
    }
    if m == 0 {
        proof {
            assert(hay@.subrange(0, 0) =~= needle@);
            assert(contains_at(hay@, needle@, 0));
        }
        return true;
    }
    let mut i: usize = 0;
    while i <= n - m
        invariant
            0 < m <= n,
            n == hay@.len(),
            m == needle@.len(),
            i <= n - m + 1,
            forall|k: int| 0 <= k < i ==> !contains_at(hay@, needle@, k),
        decreases n - i,
    {
        let mut j: usize = 0;
        let mut mismatch = false;
        while j < m
            invariant
                m <= n,
                i <= n - m,
                n == hay@.len(),
                m == needle@.len(),
                j <= m,
                !mismatch ==> forall|k: int| 0 <= k < j ==> hay@[i + k] == needle@[k],
                mismatch ==> !contains_at(hay@, needle@, i as int),
            decreases m - j,
        {
            let hc = hay.get_char(i + j);
            let nc = needle.get_char(j);
            if hc != nc {
                proof {
                    assert(hay@.subrange(i as int, i + m) != needle@) by {
                        assert(hay@.subrange(i as int, i + m)[j as int] == hay@[i + j]);
                    }
                }
                mismatch = true;
                j = m;
            } else {
                j = j + 1;
            }
        }
        if !mismatch {
            proof {
                assert(hay@.subrange(i as int, i + m) =~= needle@);
                assert(contains_at(hay@, needle@, i as int));
            }
            return true;
        }
        i = i + 1;
    }
    proof {
        assert(forall|k: int| 0 <= k < i ==> !contains_at(hay@, needle@, k));
        assert(forall|k: int| i <= k ==> !contains_at(hay@, needle@, k));
    }
    false
}

} // verus!
