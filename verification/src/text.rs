//! Character-level utilities over paths and names.
//!
//! File paths are plain strings with `/` as the separator. The derivations
//! here assume the validated form that callers of the synthesizer hand in:
//! single separators, no trailing separator, no `.` or `..` components.
use vstd::prelude::*;

verus! {

/// `.` becomes `-`; every other character is kept.
pub open spec fn spec_dash_for_dot(s: Seq<char>) -> Seq<char> {
    s.map_values(|c: char| if c == '.' { '-' } else { c })
}

/// `.` and `/` become `-`; every other character is kept.
pub open spec fn spec_name_chars(s: Seq<char>) -> Seq<char> {
    s.map_values(|c: char| if c == '.' || c == '/' { '-' } else { c })
}

/// Index of the last `/` in `s`, or `-1` if there is none.
pub open spec fn spec_last_slash(s: Seq<char>) -> int
    decreases s.len(),
{
    if s.len() == 0 {
        -1
    } else if s.last() == '/' {
        s.len() - 1
    } else {
        spec_last_slash(s.drop_last())
    }
}

/// The directory part of a path: everything before the last separator,
/// `/` itself for a child of the root, and the empty string for a path
/// without a separator.
pub open spec fn spec_parent(s: Seq<char>) -> Seq<char> {
    let i = spec_last_slash(s);
    if i == -1 {
        Seq::empty()
    } else if i == 0 {
        seq!['/']
    } else {
        s.take(i)
    }
}

/// The final segment of a path: everything after the last separator.
pub open spec fn spec_base_name(s: Seq<char>) -> Seq<char> {
    s.skip(spec_last_slash(s) + 1)
}

/// The volume name a directory of secret files gets: the path without its
/// leading separator, with `/` and `.` turned into `-`.
pub open spec fn spec_dir_volume_name(s: Seq<char>) -> Seq<char> {
    if s.len() > 0 && s[0] == '/' {
        spec_name_chars(s.skip(1))
    } else {
        spec_name_chars(s)
    }
}

/// The secret data key of a file: its base name with `.` turned into `-`.
pub open spec fn spec_file_key(s: Seq<char>) -> Seq<char> {
    spec_dash_for_dot(spec_base_name(s))
}

pub open spec fn spec_is_digit(c: char) -> bool {
    48 <= c as u32 <= 57
}

pub open spec fn spec_all_digits(s: Seq<char>) -> bool {
    forall|i: int| 0 <= i < s.len() ==> spec_is_digit(#[trigger] s[i])
}

/// The number a sequence of decimal digits denotes.
pub open spec fn spec_digits_val(s: Seq<char>) -> int
    decreases s.len(),
{
    if s.len() == 0 {
        0
    } else {
        spec_digits_val(s.drop_last()) * 10 + (s.last() as u32 - 48)
    }
}

pub proof fn lemma_digits_val_nonneg(s: Seq<char>)
    requires
        spec_all_digits(s),
    ensures
        spec_digits_val(s) >= 0,
    decreases s.len(),
{
    if s.len() > 0 {
        assert(spec_all_digits(s.drop_last())) by {
            assert(forall|i: int|
                0 <= i < s.len() - 1 ==> spec_is_digit(#[trigger] s.drop_last()[i]));
        }
        lemma_digits_val_nonneg(s.drop_last());
    }
}

/// Appending further digits never shrinks the denoted number.
pub proof fn lemma_digits_val_prefix(s: Seq<char>, j: int)
    requires
        spec_all_digits(s),
        0 <= j <= s.len(),
    ensures
        spec_digits_val(s.take(j)) <= spec_digits_val(s),
    decreases s.len() - j,
{
    if j < s.len() {
        assert(spec_all_digits(s.take(j))) by {
            assert(forall|i: int|
                0 <= i < j ==> spec_is_digit(#[trigger] s.take(j)[i]));
        }
        lemma_digits_val_nonneg(s.take(j));
        assert(s.take(j + 1).drop_last() =~= s.take(j));
        assert(spec_digits_val(s.take(j + 1)) == spec_digits_val(s.take(j)) * 10 + (
        s[j] as u32 - 48));
        lemma_digits_val_prefix(s, j + 1);
    } else {
        assert(s.take(j) =~= s);
    }
}

/// Index of the last `/`, as the executable side of [`spec_last_slash`].
pub fn find_last_slash(s: &str) -> (r: Option<usize>)
    ensures
        match r {
            Some(i) => spec_last_slash(s@) == i && i < s@.len(),
            None => spec_last_slash(s@) == -1,
        },
{
    let n = s.unicode_len();
    let mut i: usize = 0;
    let mut found: Option<usize> = None;
    proof {
        assert(s@.take(0) =~= Seq::<char>::empty());
    }
    while i < n
        invariant
            i <= n,
            n == s@.len(),
            match found {
                Some(k) => spec_last_slash(s@.take(i as int)) == k && k < i,
                None => spec_last_slash(s@.take(i as int)) == -1,
            },
        decreases n - i,
    {
        let c = s.get_char(i);
        proof {
            assert(s@.take(i + 1).drop_last() =~= s@.take(i as int));
            assert(s@.take(i + 1).last() == s@[i as int]);
        }
        if c == '/' {
            found = Some(i);
        }
        i += 1;
    }
    proof {
        assert(s@.take(n as int) =~= s@);
    }
    found
}

/// Executable side of [`spec_dash_for_dot`].
pub fn dash_for_dot(s: &str) -> (r: String)
    ensures
        r@ == spec_dash_for_dot(s@),
{
    let n = s.unicode_len();
    let mut r = String::new();
    let mut i: usize = 0;
    proof {
        assert(spec_dash_for_dot(s@.take(0)) =~= Seq::<char>::empty());
    }
    while i < n
        invariant
            i <= n,
            n == s@.len(),
            r@ == spec_dash_for_dot(s@.take(i as int)),
        decreases n - i,
    {
        let c = s.get_char(i);
        if c == '.' {
            r.append("-");
            proof {
                reveal_strlit("-");
            }
        } else {
            let piece = s.substring_char(i, i + 1);
            r.append(piece);
        }
        proof {
            assert(spec_dash_for_dot(s@.take(i + 1)) =~= spec_dash_for_dot(
                s@.take(i as int)) + spec_dash_for_dot(seq![s@[i as int]]));
            assert(spec_dash_for_dot(seq![s@[i as int]]) =~= seq![
                if s@[i as int] == '.' {
                    '-'
                } else {
                    s@[i as int]
                },
            ]);
            assert(s@.subrange(i as int, i + 1) =~= seq![s@[i as int]]);
        }
        i += 1;
    }
    proof {
        assert(s@.take(n as int) =~= s@);
    }
    r
}

/// Executable side of [`spec_dir_volume_name`].
pub fn dir_volume_name(s: &str) -> (r: String)
    ensures
        r@ == spec_dir_volume_name(s@),
{
    let n = s.unicode_len();
    let start: usize = if n > 0 && s.get_char(0) == '/' {
        1
    } else {
        0
    };
    let ghost tail = if start == 1 {
        s@.skip(1)
    } else {
        s@
    };
    let mut r = String::new();
    let mut i: usize = start;
    proof {
        assert(spec_name_chars(tail.take(0)) =~= Seq::<char>::empty());
        assert(tail =~= s@.skip(start as int));
    }
    while i < n
        invariant
            start <= i <= n,
            n == s@.len(),
            tail =~= s@.skip(start as int),
            r@ == spec_name_chars(tail.take(i - start)),
        decreases n - i,
    {
        let c = s.get_char(i);
        if c == '.' || c == '/' {
            r.append("-");
            proof {
                reveal_strlit("-");
            }
        } else {
            let piece = s.substring_char(i, i + 1);
            r.append(piece);
        }
        proof {
            assert(spec_name_chars(tail.take(i + 1 - start)) =~= spec_name_chars(
                tail.take(i - start)) + seq![
                if tail[i - start] == '.' || tail[i - start] == '/' {
                    '-'
                } else {
                    tail[i - start]
                },
            ]);
            assert(tail[i - start] == s@[i as int]);
            assert(s@.subrange(i as int, i + 1) =~= seq![s@[i as int]]);
        }
        i += 1;
    }
    proof {
        assert(tail.take(n - start) =~= tail);
        if n > 0 && s@[0] == '/' {
            assert(r@ == spec_dir_volume_name(s@));
        } else {
            assert(tail =~= s@);
        }
    }
    r
}

/// Executable side of [`spec_parent`].
pub fn parent_dir(s: &str) -> (r: String)
    ensures
        r@ == spec_parent(s@),
{
    match find_last_slash(s) {
        None => String::new(),
        Some(i) => {
            if i == 0 {
                let r = String::from_str("/");
                proof {
                    reveal_strlit("/");
                    assert(r@ =~= seq!['/']);
                }
                r
            } else {
                let n = s.unicode_len();
                let piece = s.substring_char(0, i);
                proof {
                    assert(s@.subrange(0, i as int) =~= s@.take(i as int));
                }
                String::from_str(piece)
            }
        },
    }
}

/// Executable side of [`spec_base_name`].
pub fn base_name(s: &str) -> (r: String)
    ensures
        r@ == spec_base_name(s@),
{
    let n = s.unicode_len();
    let start: usize = match find_last_slash(s) {
        None => 0,
        Some(i) => i + 1,
    };
    let piece = s.substring_char(start, n);
    proof {
        assert(s@.subrange(start as int, n as int) =~= s@.skip(spec_last_slash(s@) + 1));
    }
    String::from_str(piece)
}

/// Parses a non-empty all-digit string into a `u64`; `None` when a character
/// is not a digit or the number does not fit.
pub fn parse_u64_digits(s: &str) -> (r: Option<u64>)
    ensures
        match r {
            Some(v) => s@.len() > 0 && spec_all_digits(s@) && v == spec_digits_val(s@),
            None => s@.len() == 0 || !spec_all_digits(s@) || spec_digits_val(s@) > u64::MAX,
        },
{
    let n = s.unicode_len();
    if n == 0 {
        return None;
    }
    let mut acc: u64 = 0;
    let mut i: usize = 0;
    proof {
        assert(s@.take(0) =~= Seq::<char>::empty());
    }
    while i < n
        invariant
            i <= n,
            n == s@.len(),
            spec_all_digits(s@.take(i as int)),
            acc == spec_digits_val(s@.take(i as int)),
        decreases n - i,
    {
        let c = s.get_char(i);
        let u = c as u32;
        proof {
            assert(s@.take(i + 1).drop_last() =~= s@.take(i as int));
        }
        if u < 48 || u > 57 {
            return None;
        }
        let d = (u - 48) as u64;
        let shifted = match acc.checked_mul(10) {
            Some(x) => x,
            None => {
                proof {
                    overflow_means_too_big(s@, i as int);
                }
                return None;
            },
        };
        acc = match shifted.checked_add(d) {
            Some(x) => x,
            None => {
                proof {
                    overflow_means_too_big(s@, i as int);
                }
                return None;
            },
        };
        proof {
            assert(forall|k: int|
                0 <= k < i + 1 ==> spec_is_digit(#[trigger] s@.take(i + 1)[k]));
        }
        i += 1;
    }
    proof {
        assert(s@.take(n as int) =~= s@);
    }
    Some(acc)
}

/// When one more digit no longer fits in a `u64`, the whole digit string
/// denotes a number above `u64::MAX`.
proof fn overflow_means_too_big(s: Seq<char>, i: int)
    requires
        0 <= i < s.len(),
        spec_all_digits(s.take(i)),
        spec_is_digit(s[i]),
        spec_digits_val(s.take(i + 1)) > u64::MAX,
    ensures
        !spec_all_digits(s) || spec_digits_val(s) > u64::MAX,
{
    if spec_all_digits(s) {
        lemma_digits_val_prefix(s, i + 1);
    }
}

} // verus!
