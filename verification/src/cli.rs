//! The string computations behind the command line: `key=value` token
//! splitting, block-size magnitudes with K/M/G suffixes, hash-algorithm
//! selection, and composing the timestamped output and report paths.

use crate::hash::HashAlgo;
use vstd::prelude::*;
use vstd::string::StrSliceExecFns;
use vstd::string::StringExecFns;

verus! {

/// Index of the first occurrence of `c` in `cs`, or `cs.len()` when absent.
pub open spec fn first_index_of(cs: Seq<char>, c: char) -> int
    decreases cs.len(),
{
    if cs.len() == 0 {
        0
    } else if cs[0] == c {
        0
    } else {
        1 + first_index_of(cs.drop_first(), c)
    }
}

/// `first_index_of` is a position in `[0, len]`; it carries `c` when inside,
/// and nothing before it does.
pub proof fn lemma_first_index_of(cs: Seq<char>, c: char)
    ensures
        0 <= first_index_of(cs, c) <= cs.len(),
        first_index_of(cs, c) < cs.len() ==> cs[first_index_of(cs, c)] == c,
        forall|j: int| 0 <= j < first_index_of(cs, c) ==> cs[j] != c,
    decreases cs.len(),
{
    if cs.len() > 0 && cs[0] != c {
        lemma_first_index_of(cs.drop_first(), c);
        let f = first_index_of(cs, c);
        assert forall|j: int| 0 <= j < f implies cs[j] != c by {
            if j > 0 {
                assert(cs.drop_first()[j - 1] == cs[j]);
            }
        }
        if f < cs.len() {
            assert(cs.drop_first()[f - 1] == cs[f]);
        }
    }
}

/// Index of the last occurrence of `c` in `cs`, or `-1` when absent.
pub open spec fn last_index_of(cs: Seq<char>, c: char) -> int
    decreases cs.len(),
{
    if cs.len() == 0 {
        -1
    } else if cs[cs.len() - 1] == c {
        cs.len() - 1
    } else {
        last_index_of(cs.drop_last(), c)
    }
}

/// `last_index_of` is `-1` or a position carrying `c`, and nothing after it
/// carries `c`.
pub proof fn lemma_last_index_of(cs: Seq<char>, c: char)
    ensures
        -1 <= last_index_of(cs, c) < cs.len(),
        last_index_of(cs, c) >= 0 ==> cs[last_index_of(cs, c)] == c,
        forall|j: int| last_index_of(cs, c) < j < cs.len() ==> cs[j] != c,
    decreases cs.len(),
{
    if cs.len() > 0 && cs[cs.len() - 1] != c {
        lemma_last_index_of(cs.drop_last(), c);
        let f = last_index_of(cs, c);
        if f >= 0 {
            assert(cs.drop_last()[f] == cs[f]);
        }
        assert forall|j: int| f < j < cs.len() implies cs[j] != c by {
            if j < cs.len() - 1 {
                assert(cs.drop_last()[j] == cs[j]);
            }
        }
    }
}

/// Position of the first `c` in `s`, or its length when `s` has none.
fn find_first(s: &str, c: char) -> (r: usize)
    ensures
        r == first_index_of(s@, c),
{
    proof {
        lemma_first_index_of(s@, c);
    }
    let n = s.unicode_len();
    let mut i: usize = 0;
    while i < n
        invariant
            0 <= i <= n,
            n == s@.len(),
            forall|j: int| 0 <= j < i ==> s@[j] != c,
        decreases n - i,
    {
        if s.get_char(i) == c {
            proof {
                lemma_first_index_of(s@, c);
            }
            return i;
        }
        i = i + 1;
    }
    proof {
        lemma_first_index_of(s@, c);
    }
    i
}

/// Position of the last `c` in `s`, or `None` when `s` has none.
fn find_last(s: &str, c: char) -> (r: Option<usize>)
    ensures
        match r {
            Some(i) => i == last_index_of(s@, c),
            None => last_index_of(s@, c) == -1,
        },
{
    let n = s.unicode_len();
    let mut i: usize = n;
    while i > 0
        invariant
            0 <= i <= n,
            n == s@.len(),
            forall|j: int| i <= j < n ==> s@[j] != c,
        decreases i,
    {
        i = i - 1;
        if s.get_char(i) == c {
            proof {
                lemma_last_index_of(s@, c);
            }
            return Some(i);
        }
    }
    proof {
        lemma_last_index_of(s@, c);
    }
    None
}

/// Splits a `KEY=value` token at its first `=`. A token without `=` is
/// rejected with a diagnostic that quotes it.
pub fn parse_key_val(s: &str) -> (r: Result<(String, String), String>)
    ensures
        first_index_of(s@, '=') < s@.len() ==> (r matches Ok(kv) && kv.0@ == s@.subrange(
            0,
            first_index_of(s@, '='),
        ) && kv.1@ == s@.subrange(first_index_of(s@, '=') + 1, s@.len() as int)),
        first_index_of(s@, '=') == s@.len() ==> (r matches Err(e) && e@
            == "invalid KEY=value: no `=` found in `"@ + s@ + "`"@),
{
    proof {
        lemma_first_index_of(s@, '=');
    }
    let n = s.unicode_len();
    let pos = find_first(s, '=');
    if pos < n {
        let key = s.substring_char(0, pos).to_owned();
        let value = s.substring_char(pos + 1, n).to_owned();
        Ok((key, value))
    } else {
        let mut msg = "invalid KEY=value: no `=` found in `".to_owned();
        msg.append(s);
        msg.append("`");
        Err(msg)
    }
}

/// The leading directory part of a path, through its last `/` (empty when
/// the path has none).
pub open spec fn spec_dir_prefix(cs: Seq<char>) -> Seq<char> {
    cs.subrange(0, last_index_of(cs, '/') + 1)
}

/// The final path component, after the last `/`.
pub open spec fn spec_file_name(cs: Seq<char>) -> Seq<char> {
    cs.subrange(last_index_of(cs, '/') + 1, cs.len() as int)
}

/// A file name without its extension: everything before the last `.`,
/// except that a name whose only `.` is its first character keeps it.
pub open spec fn spec_file_stem(f: Seq<char>) -> Seq<char> {
    if last_index_of(f, '.') > 0 {
        f.subrange(0, last_index_of(f, '.'))
    } else {
        f
    }
}

/// The output path: directory part, then the stem with `_timestamp`
/// appended, then `.ext`.
pub open spec fn spec_timestamped_path(base: Seq<char>, ts: Seq<char>, ext: Seq<char>) -> Seq<
    char,
> {
    spec_dir_prefix(base) + spec_file_stem(spec_file_name(base)) + seq!['_'] + ts + seq!['.']
        + ext
}

/// Composes the destination (or report) path from the requested output path:
/// the timestamp is folded into the file name and the extension replaced.
pub fn append_timestamp_to_path(base_path: &str, timestamp: &str, ext: &str) -> (r: String)
    ensures
        r@ == spec_timestamped_path(base_path@, timestamp@, ext@),
{
    proof {
        lemma_last_index_of(base_path@, '/');
    }
    let n = base_path.unicode_len();
    let slash = find_last(base_path, '/');
    let cut: usize = match slash {
        Some(i) => i + 1,
        None => 0,
    };
    let prefix = base_path.substring_char(0, cut);
    let fname = base_path.substring_char(cut, n);
    proof {
        lemma_last_index_of(fname@, '.');
    }
    let fn_len = fname.unicode_len();
    let dot = find_last(fname, '.');
    let stem_end: usize = match dot {
        Some(d) => if d > 0 {
            d
        } else {
            fn_len
        },
        None => fn_len,
    };
    let stem = fname.substring_char(0, stem_end);
    let mut out = prefix.to_owned();
    out.append(stem);
    out.append("_");
    out.append(timestamp);
    out.append(".");
    out.append(ext);
    proof {
        reveal_strlit("_");
        reveal_strlit(".");
        assert("_"@ =~= seq!['_']);
        assert("."@ =~= seq!['.']);
        assert(fname@ == spec_file_name(base_path@));
        assert(stem@ =~= spec_file_stem(spec_file_name(base_path@)));
        assert(out@ =~= spec_timestamped_path(base_path@, timestamp@, ext@));
    }
    out
}

/// Whether `c` is a decimal digit.
pub open spec fn spec_is_digit(c: char) -> bool {
    48 <= c as u32 <= 57
}

/// The value of a string of decimal digits.
pub open spec fn spec_digits_value(cs: Seq<char>) -> nat
    decreases cs.len(),
{
    if cs.len() == 0 {
        0
    } else {
        spec_digits_value(cs.drop_last()) * 10 + ((cs[cs.len() - 1] as u32 - 48) as nat)
    }
}

/// `cs` with its trailing non-digit characters removed.
pub open spec fn spec_trim_trailing_non_digits(cs: Seq<char>) -> Seq<char>
    decreases cs.len(),
{
    if cs.len() > 0 && !spec_is_digit(cs[cs.len() - 1]) {
        spec_trim_trailing_non_digits(cs.drop_last())
    } else {
        cs
    }
}

/// Whether every character of `cs` is a decimal digit.
pub open spec fn spec_all_digits(cs: Seq<char>) -> bool {
    forall|i: int| 0 <= i < cs.len() ==> spec_is_digit(cs[i])
}

/// The numeric magnitude of a block-size token: its trailing non-digits
/// removed, an optional single leading `+` allowed; a missing or malformed
/// or oversized number falls back to the 4 MiB default.
pub open spec fn spec_numeric_part_value(cs: Seq<char>) -> nat {
    let t = spec_trim_trailing_non_digits(cs);
    let t2 = if t.len() > 0 && t[0] == '+' {
        t.drop_first()
    } else {
        t
    };
    if t2.len() > 0 && spec_all_digits(t2) && spec_digits_value(t2) <= usize::MAX as nat {
        spec_digits_value(t2)
    } else {
        4194304
    }
}

/// The unit multiplier given by a `K`, `M` or `G` suffix (powers of 1024).
pub open spec fn spec_multiplier(cs: Seq<char>) -> nat {
    if cs.len() > 0 && cs[cs.len() - 1] == 'K' {
        1024
    } else if cs.len() > 0 && cs[cs.len() - 1] == 'M' {
        1048576
    } else if cs.len() > 0 && cs[cs.len() - 1] == 'G' {
        1073741824
    } else {
        1
    }
}

/// The block size a token denotes: magnitude times unit, saturated at the
/// machine's limit.
pub open spec fn spec_block_size(cs: Seq<char>) -> nat {
    let v = spec_numeric_part_value(cs) * spec_multiplier(cs);
    if v <= usize::MAX as nat {
        v
    } else {
        usize::MAX as nat
    }
}

/// A digit string's value only grows as the string extends.
proof fn lemma_digits_value_monotone(cs: Seq<char>, i: int)
    requires
        0 <= i <= cs.len(),
    ensures
        spec_digits_value(cs) >= spec_digits_value(cs.take(i)),
    decreases cs.len() - i,
{
    if i < cs.len() {
        lemma_digits_value_monotone(cs, i + 1);
        assert(cs.take(i + 1).drop_last() =~= cs.take(i));
        assert(spec_digits_value(cs.take(i + 1)) == spec_digits_value(cs.take(i)) * 10 + ((
        cs.take(i + 1)[i] as u32 - 48) as nat));
    } else {
        assert(cs.take(i) =~= cs);
    }
}

/// `spec_trim_trailing_non_digits` is the prefix that ends at the last
/// digit.
proof fn lemma_trim_is_take(cs: Seq<char>, end: int)
    requires
        0 <= end <= cs.len(),
        forall|j: int| end <= j < cs.len() ==> !spec_is_digit(cs[j]),
        end > 0 ==> spec_is_digit(cs[end - 1]),
    ensures
        spec_trim_trailing_non_digits(cs) == cs.take(end),
    decreases cs.len(),
{
    if cs.len() == 0 {
        assert(cs.take(end) =~= cs);
    } else if end == cs.len() {
        assert(cs.take(end) =~= cs);
    } else {
        assert(!spec_is_digit(cs[cs.len() - 1]));
        lemma_trim_is_take(cs.drop_last(), end);
        assert(cs.drop_last().take(end) =~= cs.take(end));
    }
}

/// Reads a block-size token: a decimal magnitude with an optional `K`, `M`
/// or `G` suffix (powers of 1024); an unreadable magnitude falls back to the
/// 4 MiB default, and the product saturates at the machine's limit.
pub fn parse_block_size(s: &str) -> (r: usize)
    ensures
        r == spec_block_size(s@),
{
    let n = s.unicode_len();

    // Strip the trailing non-digits (the unit suffix among them).
    let mut end: usize = n;
    while end > 0 && !is_digit_char(s.get_char(end - 1))
        invariant
            0 <= end <= n,
            n == s@.len(),
            forall|j: int| end <= j < n ==> !spec_is_digit(s@[j]),
        decreases end,
    {
        end = end - 1;
    }
    proof {
        lemma_trim_is_take(s@, end as int);
    }
    let ghost t = s@.take(end as int);

    // An optional single leading sign.
    let start: usize = if end > 0 && s.get_char(0) == '+' {
        1
    } else {
        0
    };
    let ghost t2 = if t.len() > 0 && t[0] == '+' {
        t.drop_first()
    } else {
        t
    };
    assert(t2 =~= s@.subrange(start as int, end as int));

    // The magnitude, or the default when it is missing, malformed or too
    // large.
    let mut value: usize = 4194304;
    if end > start {
        let mut all_digits = true;
        let mut i: usize = start;
        while i < end
            invariant
                start <= i <= end <= n,
                n == s@.len(),
                all_digits == forall|j: int| start <= j < i ==> spec_is_digit(s@[j]),
            decreases end - i,
        {
            if !is_digit_char(s.get_char(i)) {
                all_digits = false;
            }
            i = i + 1;
        }
        proof {
            if all_digits {
                assert forall|j: int| 0 <= j < t2.len() implies spec_is_digit(t2[j]) by {
                    assert(t2[j] == s@[start + j]);
                }
            } else {
                let j = choose|j: int| start <= j < end && !spec_is_digit(s@[j]);
                assert(t2[j - start] == s@[j]);
                assert(!spec_all_digits(t2));
            }
        }
        if all_digits {
            assert(spec_all_digits(t2));
            let mut acc: u128 = 0;
            let mut k: usize = start;
            let mut too_big = false;
            while k < end && !too_big
                invariant
                    start <= k <= end <= n,
                    n == s@.len(),
                    t2 =~= s@.subrange(start as int, end as int),
                    spec_all_digits(t2),
                    !too_big ==> acc == spec_digits_value(t2.take(k - start)),
                    !too_big ==> acc <= usize::MAX as u128,
                    too_big ==> spec_digits_value(t2) > usize::MAX as nat,
                decreases end - k,
            {
                let c = s.get_char(k);
                assert(t2[k - start] == s@[k as int]);
                let d = (c as u32 - 48) as u128;
                acc = acc * 10 + d;
                proof {
                    assert(t2.take(k - start + 1).drop_last() =~= t2.take(k - start));
                    assert(spec_digits_value(t2.take(k - start + 1)) == spec_digits_value(
                        t2.take(k - start),
                    ) * 10 + ((t2[k - start] as u32 - 48) as nat));
                }
                if acc > usize::MAX as u128 {
                    too_big = true;
                    proof {
                        lemma_digits_value_monotone(t2, k - start + 1);
                    }
                }
                k = k + 1;
            }
            if !too_big {
                assert(t2.take(k - start) =~= t2);
                value = acc as usize;
            }
        }
    } else {
        assert(t2.len() == 0);
    }
    assert(value == spec_numeric_part_value(s@));

    // The unit suffix.
    let multiplier: usize = if n > 0 {
        let last = s.get_char(n - 1);
        if last == 'K' {
            1024
        } else if last == 'M' {
            1048576
        } else if last == 'G' {
            1073741824
        } else {
            1
        }
    } else {
        1
    };
    assert(multiplier == spec_multiplier(s@));

    // Saturating product.
    proof {
        assert((value as int) * (multiplier as int) <= (u64::MAX as int) * 1073741824int)
            by (nonlinear_arith)
            requires
                0 <= value as int <= u64::MAX as int,
                0 <= multiplier as int <= 1073741824int,
        ;
    }
    let wide: u128 = (value as u128) * (multiplier as u128);
    if wide > usize::MAX as u128 {
        usize::MAX
    } else {
        wide as usize
    }
}

/// Whether `c` is a decimal digit.
fn is_digit_char(c: char) -> (r: bool)
    ensures
        r == spec_is_digit(c),
{
    let u = c as u32;
    48 <= u && u <= 57
}

/// Selects the digest algorithm a (lowercased) name denotes.
pub fn algo_of_name(name: &str) -> (r: Option<HashAlgo>)
    ensures
        name@ == "sha256"@ ==> r == Some(HashAlgo::Sha256),
        name@ == "sha512"@ ==> r == Some(HashAlgo::Sha512),
        name@ != "sha256"@ && name@ != "sha512"@ ==> r is None,
{
    proof {
        reveal_strlit("sha256");
        reveal_strlit("sha512");
        assert("sha256"@ != "sha512"@) by {
            assert("sha256"@[3] == '2');
            assert("sha512"@[3] == '5');
        }
    }
    let owned = name.to_owned();
    if owned == "sha256".to_owned() {
        Some(HashAlgo::Sha256)
    } else if owned == "sha512".to_owned() {
        Some(HashAlgo::Sha512)
    } else {
        None
    }
}

} // verus!
