//! Pure text model of the path operations the filter pipeline relies on:
//! base-name and extension extraction, ASCII lowercasing, digit runs and
//! unsigned-number parsing, line splitting, and prefix remapping.
//!
//! Paths are plain strings; a `/` separates components.

use vstd::prelude::*;

verus! {

// --- characters ---

/// An ASCII decimal digit.
pub open spec fn is_digit(c: char) -> bool {
    48 <= c as u32 && c as u32 <= 57
}

/// Numeric value of one ASCII digit.
pub open spec fn digit_val(c: char) -> nat
    recommends
        is_digit(c),
{
    (c as u32 - 48) as nat
}

/// ASCII lowercasing of one character; anything but `A`..`Z` is unchanged.
pub open spec fn lower_char(c: char) -> char {
    if 65 <= c as u32 && c as u32 <= 90 {
        ((c as u8) + 32) as char
    } else {
        c
    }
}

/// ASCII lowercasing of a character sequence.
pub open spec fn lower_seq(s: Seq<char>) -> Seq<char> {
    s.map_values(|c: char| lower_char(c))
}

/// Exec mirror of [`is_digit`].
pub fn char_is_digit(c: char) -> (r: bool)
    ensures
        r == is_digit(c),
{
    let u = c as u32;
    u >= 48 && u <= 57
}

/// Exec mirror of [`lower_char`].
pub fn char_to_lower(c: char) -> (r: char)
    ensures
        r == lower_char(c),
{
    let u = c as u32;
    if u >= 65 && u <= 90 {
        ((c as u8) + 32) as char
    } else {
        c
    }
}

// --- searching for the last occurrence of a character ---

/// Index of the last occurrence of `c` in `s`, or `-1` if there is none.
pub open spec fn last_index_of(s: Seq<char>, c: char) -> int
    decreases s.len(),
{
    if s.len() == 0 {
        -1
    } else if s.last() == c {
        s.len() - 1
    } else {
        last_index_of(s.drop_last(), c)
    }
}

/// `last_index_of` finds an occurrence with nothing after it, or reports none.
pub proof fn lemma_last_index_of(s: Seq<char>, c: char)
    ensures
        -1 <= last_index_of(s, c) < s.len(),
        last_index_of(s, c) >= 0 ==> s[last_index_of(s, c)] == c,
        forall|i: int| last_index_of(s, c) < i < s.len() ==> s[i] != c,
    decreases s.len(),
{
    if s.len() > 0 && s.last() != c {
        lemma_last_index_of(s.drop_last(), c);
        assert(forall|i: int|
            0 <= i < s.len() - 1 ==> s[i] == s.drop_last()[i]);
    }
}

/// The characterization in [`lemma_last_index_of`] pins the index down.
pub proof fn lemma_last_index_of_from_facts(s: Seq<char>, c: char, j: int)
    requires
        0 <= j < s.len(),
        s[j] == c,
        forall|i: int| j < i < s.len() ==> s[i] != c,
    ensures
        last_index_of(s, c) == j,
    decreases s.len(),
{
    if j < s.len() - 1 {
        assert(s.last() != c);
        assert(forall|i: int|
            0 <= i < s.len() - 1 ==> s[i] == s.drop_last()[i]);
        lemma_last_index_of_from_facts(s.drop_last(), c, j);
    }
}

/// When `c` occurs nowhere in `s`, `last_index_of` reports none.
pub proof fn lemma_last_index_of_absent(s: Seq<char>, c: char)
    requires
        forall|i: int| 0 <= i < s.len() ==> s[i] != c,
    ensures
        last_index_of(s, c) == -1,
    decreases s.len(),
{
    if s.len() > 0 {
        assert(forall|i: int|
            0 <= i < s.len() - 1 ==> s[i] == s.drop_last()[i]);
        lemma_last_index_of_absent(s.drop_last(), c);
    }
}

/// Index of the last occurrence of `c`, as an exec search from the end.
pub fn find_last(s: &str, c: char) -> (r: Option<usize>)
    ensures
        match r {
            Some(j) => j < s@.len() && last_index_of(s@, c) == j as int,
            None => last_index_of(s@, c) == -1,
        },
{
    let n = s.unicode_len();
    let mut i = n;
    while i > 0
        invariant
            i <= n,
            n == s@.len(),
            forall|k: int| i <= k < n ==> s@[k] != c,
        decreases i,
    {
        i = i - 1;
        if s.get_char(i) == c {
            proof {
                lemma_last_index_of_from_facts(s@, c, i as int);
            }
            return Some(i);
        }
    }
    proof {
        lemma_last_index_of_absent(s@, c);
    }
    None
}

// --- base name and extension ---

/// The part of a path after its last `/`: the whole path when it holds no
/// `/`, and empty when the path ends with `/`.
pub open spec fn file_name_spec(path: Seq<char>) -> Seq<char> {
    path.subrange(last_index_of(path, '/') + 1, path.len() as int)
}

/// Base file name of a path, or `None` when the path has none (it is empty
/// or ends with a `/`, as a directory path does).
pub fn file_name(path: &str) -> (r: Option<&str>)
    ensures
        match r {
            Some(name) => name@ == file_name_spec(path@) && name@.len() > 0,
            None => file_name_spec(path@).len() == 0,
        },
{
    proof {
        lemma_last_index_of(path@, '/');
    }
    let n = path.unicode_len();
    let start = match find_last(path, '/') {
        Some(j) => j + 1,
        None => 0,
    };
    if start == n {
        None
    } else {
        Some(path.substring_char(start, n))
    }
}

/// The extension of a base file name: the part after its last `.`, unless
/// the only `.` is the leading character (a hidden file) or there is none.
pub open spec fn extension_spec(name: Seq<char>) -> Option<Seq<char>> {
    let j = last_index_of(name, '.');
    if j <= 0 {
        None
    } else {
        Some(name.subrange(j + 1, name.len() as int))
    }
}

/// Extension of a base file name, per [`extension_spec`].
pub fn extension_of(name: &str) -> (r: Option<&str>)
    ensures
        match r {
            Some(ext) => extension_spec(name@) == Some(ext@),
            None => extension_spec(name@) is None,
        },
{
    let n = name.unicode_len();
    match find_last(name, '.') {
        Some(j) if j > 0 => Some(name.substring_char(j + 1, n)),
        _ => None,
    }
}

// --- digit runs and their values ---

/// Every character of `s` is an ASCII digit.
pub open spec fn all_digits(s: Seq<char>) -> bool {
    forall|i: int| 0 <= i < s.len() ==> is_digit(#[trigger] s[i])
}

/// The number that a sequence of ASCII digits denotes, most significant
/// digit first; the empty sequence denotes zero.
pub open spec fn digits_val(s: Seq<char>) -> nat
    decreases s.len(),
{
    if s.len() == 0 {
        0
    } else {
        digits_val(s.drop_last()) * 10 + digit_val(s.last())
    }
}

/// Index of the last ASCII digit in `s`, or `-1` if there is none.
pub open spec fn last_digit_index(s: Seq<char>) -> int
    decreases s.len(),
{
    if s.len() == 0 {
        -1
    } else if is_digit(s.last()) {
        s.len() - 1
    } else {
        last_digit_index(s.drop_last())
    }
}

/// Start of the maximal digit run that ends just before position `e`:
/// walking left from `e` over digits.
pub open spec fn run_begin(s: Seq<char>, e: int) -> int
    recommends
        0 <= e <= s.len(),
    decreases e,
{
    if e <= 0 {
        0
    } else if is_digit(s[e - 1]) {
        run_begin(s, e - 1)
    } else {
        e
    }
}

/// The last maximal run of ASCII digits anywhere in `s`, or `None` when `s`
/// holds no digit.
pub open spec fn last_digit_run(s: Seq<char>) -> Option<Seq<char>> {
    let e = last_digit_index(s);
    if e < 0 {
        None
    } else {
        Some(s.subrange(run_begin(s, e + 1), e + 1))
    }
}

/// A file name matches the number `num` iff its last digit run denotes
/// `num`; a name with no digits matches no number.
pub open spec fn matches_number_spec(name: Seq<char>, num: u32) -> bool {
    match last_digit_run(name) {
        Some(run) => digits_val(run) == num as nat,
        None => false,
    }
}

/// A digit with no digit after it is the last digit: this characterization
/// pins `last_digit_index` down.
pub proof fn lemma_last_digit_index_from_facts(s: Seq<char>, j: int)
    requires
        0 <= j < s.len(),
        is_digit(s[j]),
        forall|i: int| j < i < s.len() ==> !is_digit(s[i]),
    ensures
        last_digit_index(s) == j,
    decreases s.len(),
{
    if j < s.len() - 1 {
        assert(!is_digit(s.last()));
        assert(forall|i: int|
            0 <= i < s.len() - 1 ==> s[i] == s.drop_last()[i]);
        lemma_last_digit_index_from_facts(s.drop_last(), j);
    }
}

/// When `s` holds no digit at all, `last_digit_index` reports none.
pub proof fn lemma_last_digit_index_absent(s: Seq<char>)
    requires
        forall|i: int| 0 <= i < s.len() ==> !is_digit(s[i]),
    ensures
        last_digit_index(s) == -1,
    decreases s.len(),
{
    if s.len() > 0 {
        assert(forall|i: int|
            0 <= i < s.len() - 1 ==> s[i] == s.drop_last()[i]);
        lemma_last_digit_index_absent(s.drop_last());
    }
}

/// `run_begin` lands on a digit run: everything from it up to `e` is a
/// digit, and it is either the start of `s` or preceded by a non-digit.
pub proof fn lemma_run_begin(s: Seq<char>, e: int)
    requires
        0 <= e <= s.len(),
    ensures
        0 <= run_begin(s, e) <= e,
        forall|i: int| run_begin(s, e) <= i < e ==> is_digit(s[i]),
        run_begin(s, e) > 0 ==> !is_digit(s[run_begin(s, e) - 1]),
    decreases e,
{
    if e > 0 && is_digit(s[e - 1]) {
        lemma_run_begin(s, e - 1);
    }
}

/// Unfolding step for the value of a growing digit prefix.
pub proof fn lemma_digits_val_step(s: Seq<char>, b: int, k: int)
    requires
        0 <= b <= k < s.len(),
    ensures
        digits_val(s.subrange(b, k + 1)) == digits_val(s.subrange(b, k)) * 10
            + digit_val(s[k]),
{
    let w = s.subrange(b, k + 1);
    assert(w.drop_last() =~= s.subrange(b, k));
    assert(w.last() == s[k]);
}

/// Appending digits never shrinks the denoted value.
pub proof fn lemma_digits_val_monotonic(s: Seq<char>, b: int, m: int, k: int)
    requires
        0 <= b <= m <= k <= s.len(),
    ensures
        digits_val(s.subrange(b, m)) <= digits_val(s.subrange(b, k)),
    decreases k - m,
{
    if m < k {
        lemma_digits_val_monotonic(s, b, m, k - 1);
        lemma_digits_val_step(s, b, k - 1);
        assert(digits_val(s.subrange(b, k - 1)) * 10
            >= digits_val(s.subrange(b, k - 1)));
    }
}

/// Value of the last digit run of `name`: `None` when there is no digit,
/// and the run's value, or `None` again inside, when it exceeds `u32`.
#[verifier::loop_isolation(false)]
pub fn last_digit_run_value(name: &str) -> (r: Option<Option<u32>>)
    ensures
        match r {
            None => last_digit_run(name@) is None,
            Some(v) => last_digit_run(name@) matches Some(run) && (match v {
                Some(x) => digits_val(run) == x as nat,
                None => digits_val(run) > u32::MAX,
            }),
        },
{
    let n = name.unicode_len();
    // Find the last digit.
    let mut i = n;
    while i > 0
        invariant
            i <= n,
            forall|k: int| i <= k < n ==> !is_digit(name@[k]),
        decreases i,
    {
        i = i - 1;
        if char_is_digit(name.get_char(i)) {
            proof {
                lemma_last_digit_index_from_facts(name@, i as int);
            }
            // Walk left to the start of the run.
            let e = i + 1;
            let mut b = i;
            while b > 0 && char_is_digit(name.get_char(b - 1))
                invariant
                    b <= i,
                    run_begin(name@, e as int) == run_begin(name@, b as int),
                decreases b,
            {
                b = b - 1;
            }
            assert(run_begin(name@, e as int) == b as int);
            proof {
                lemma_run_begin(name@, e as int);
            }
            let ghost run = name@.subrange(b as int, e as int);
            assert(last_digit_run(name@) == Some(run));
            // Accumulate the run's value, giving up past u32::MAX.
            let mut acc: u64 = 0;
            let mut k = b;
            while k < e
                invariant
                    b <= k <= e,
                    acc == digits_val(name@.subrange(b as int, k as int)),
                    acc <= u32::MAX,
                decreases e - k,
            {
                let c = name.get_char(k);
                assert(is_digit(name@[k as int]));
                let d = (c as u32) - 48;
                let next: u64 = acc * 10 + (d as u64);
                proof {
                    lemma_digits_val_step(name@, b as int, k as int);
                }
                if next > u32::MAX as u64 {
                    proof {
                        lemma_digits_val_monotonic(
                            name@, b as int, k as int + 1, e as int);
                    }
                    return Some(None);
                }
                acc = next;
                k = k + 1;
            }
            assert(name@.subrange(b as int, k as int) == run);
            return Some(Some(acc as u32));
        }
    }
    proof {
        lemma_last_digit_index_absent(name@);
    }
    None
}

/// Whether the last digit run of `filename` denotes exactly `num`.
pub fn matches_number_str(filename: &str, num: u32) -> (r: bool)
    ensures
        r == matches_number_spec(filename@, num),
{
    match last_digit_run_value(filename) {
        Some(Some(v)) => v == num,
        _ => false,
    }
}

// --- keep-list lines ---

/// The digit part of a keep-list line: an optional leading `+` is dropped.
pub open spec fn keep_line_digits(l: Seq<char>) -> Seq<char> {
    if l.len() > 0 && l[0] == '+' {
        l.subrange(1, l.len() as int)
    } else {
        l
    }
}

/// A keep-list line is valid when, after an optional leading `+`, it is one
/// or more ASCII digits denoting a value that fits in a `u32`.
pub open spec fn valid_keep_line(l: Seq<char>) -> bool {
    let d = keep_line_digits(l);
    d.len() > 0 && all_digits(d) && digits_val(d) <= u32::MAX
}

/// The number a valid keep-list line denotes.
pub open spec fn keep_line_value(l: Seq<char>) -> nat {
    digits_val(keep_line_digits(l))
}

/// Parse one keep-list line as an unsigned integer, rejecting anything that
/// is not a number or does not fit in a `u32`.
#[verifier::loop_isolation(false)]
pub fn parse_keep_line(line: &str) -> (r: Option<u32>)
    ensures
        match r {
            Some(v) => valid_keep_line(line@) && v as nat == keep_line_value(line@),
            None => !valid_keep_line(line@),
        },
{
    let n = line.unicode_len();
    let start: usize = if n > 0 && line.get_char(0) == '+' {
        1
    } else {
        0
    };
    let ghost d = keep_line_digits(line@);
    assert(d =~= line@.subrange(start as int, n as int));
    if start == n {
        return None;
    }
    let mut acc: u64 = 0;
    let mut k = start;
    while k < n
        invariant
            start <= k <= n,
            acc == digits_val(line@.subrange(start as int, k as int)),
            acc <= u32::MAX,
            forall|t: int| start <= t < k ==> is_digit(line@[t]),
        decreases n - k,
    {
        let c = line.get_char(k);
        if !char_is_digit(c) {
            assert(d[k - start] == line@[k as int]);
            return None;
        }
        let dd = (c as u32) - 48;
        let next: u64 = acc * 10 + (dd as u64);
        proof {
            lemma_digits_val_step(line@, start as int, k as int);
        }
        if next > u32::MAX as u64 {
            proof {
                lemma_digits_val_monotonic(
                    line@, start as int, k as int + 1, n as int);
            }
            return None;
        }
        acc = next;
        k = k + 1;
    }
    assert(forall|t: int| 0 <= t < d.len() ==> is_digit(#[trigger] d[t]));
    Some(acc as u32)
}

// --- line splitting ---

/// Index of the first occurrence of `c` in `s`, or `-1` if there is none.
pub open spec fn first_index_of(s: Seq<char>, c: char) -> int
    decreases s.len(),
{
    if s.len() == 0 {
        -1
    } else if s[0] == c {
        0
    } else {
        let r = first_index_of(s.subrange(1, s.len() as int), c);
        if r == -1 {
            -1
        } else {
            r + 1
        }
    }
}

/// `first_index_of` stays in range and finds an occurrence when it reports
/// one.
pub proof fn lemma_first_index_of(s: Seq<char>, c: char)
    ensures
        -1 <= first_index_of(s, c) < s.len(),
        first_index_of(s, c) >= 0 ==> s[first_index_of(s, c)] == c,
    decreases s.len(),
{
    if s.len() > 0 && s[0] != c {
        lemma_first_index_of(s.subrange(1, s.len() as int), c);
    }
}

/// The characterization of a first occurrence pins the index down.
pub proof fn lemma_first_index_of_from_facts(s: Seq<char>, c: char, j: int)
    requires
        0 <= j < s.len(),
        s[j] == c,
        forall|i: int| 0 <= i < j ==> s[i] != c,
    ensures
        first_index_of(s, c) == j,
    decreases s.len(),
{
    if j > 0 {
        let tail = s.subrange(1, s.len() as int);
        assert(forall|i: int| 0 <= i < tail.len() ==> tail[i] == s[i + 1]);
        lemma_first_index_of_from_facts(tail, c, j - 1);
    }
}

/// When `c` occurs nowhere in `s`, `first_index_of` reports none.
pub proof fn lemma_first_index_of_absent(s: Seq<char>, c: char)
    requires
        forall|i: int| 0 <= i < s.len() ==> s[i] != c,
    ensures
        first_index_of(s, c) == -1,
    decreases s.len(),
{
    if s.len() > 0 {
        let tail = s.subrange(1, s.len() as int);
        assert(forall|i: int| 0 <= i < tail.len() ==> tail[i] == s[i + 1]);
        lemma_first_index_of_absent(tail, c);
    }
}

/// A segment before a newline, with one trailing carriage return stripped.
pub open spec fn strip_cr(l: Seq<char>) -> Seq<char> {
    if l.len() > 0 && l.last() == '\r' {
        l.drop_last()
    } else {
        l
    }
}

/// The lines of a text: segments split at `\n`, each with a trailing `\r`
/// stripped; a final newline does not open an extra empty line.
pub open spec fn split_lines_spec(s: Seq<char>) -> Seq<Seq<char>>
    decreases s.len(),
    via split_lines_spec_decreases
{
    if s.len() == 0 {
        seq![]
    } else {
        let i = first_index_of(s, '\n');
        if i < 0 {
            seq![s]
        } else {
            seq![strip_cr(s.subrange(0, i))]
                + split_lines_spec(s.subrange(i + 1, s.len() as int))
        }
    }
}

#[via_fn]
proof fn split_lines_spec_decreases(s: Seq<char>) {
    lemma_first_index_of(s, '\n');
}

/// Split a text into its lines, per [`split_lines_spec`].
#[verifier::loop_isolation(false)]
pub fn split_lines(s: &str) -> (r: Vec<String>)
    ensures
        r.deep_view() == split_lines_spec(s@),
{
    let n = s.unicode_len();
    let mut out: Vec<String> = Vec::new();
    let mut pos: usize = 0;
    assert(s@.subrange(0, n as int) =~= s@);
    assert(out.deep_view() + split_lines_spec(s@) =~= split_lines_spec(s@));
    while pos < n
        invariant
            pos <= n,
            split_lines_spec(s@) == out.deep_view()
                + split_lines_spec(s@.subrange(pos as int, n as int)),
        decreases n - pos,
    {
        let ghost suffix = s@.subrange(pos as int, n as int);
        let ghost prev = out.deep_view();
        // Scan for the next newline.
        let mut j = pos;
        while j < n && s.get_char(j) != '\n'
            invariant
                pos <= j <= n,
                forall|k: int| pos <= k < j ==> s@[k] != '\n',
            decreases n - j,
        {
            j = j + 1;
        }
        if j == n {
            // Final segment without a newline: taken whole.
            proof {
                assert(forall|k: int|
                    0 <= k < suffix.len() ==> suffix[k] == s@[pos + k]);
                lemma_first_index_of_absent(suffix, '\n');
            }
            let line = s.substring_char(pos, n).to_owned();
            out.push(line);
            assert(out.deep_view() =~= prev.push(suffix));
            assert(split_lines_spec(suffix) == seq![suffix]);
            pos = n;
            assert(s@.subrange(pos as int, n as int) =~= Seq::<char>::empty());
            assert(split_lines_spec(s@.subrange(pos as int, n as int))
                == Seq::<Seq<char>>::empty());
            assert(prev.push(suffix) + Seq::<Seq<char>>::empty()
                =~= prev + split_lines_spec(suffix));
        } else {
            proof {
                assert(forall|k: int|
                    0 <= k < suffix.len() ==> suffix[k] == s@[pos + k]);
                lemma_first_index_of_from_facts(suffix, '\n', j - pos);
            }
            let ghost seg = strip_cr(suffix.subrange(0, j - pos));
            let line = if j > pos && s.get_char(j - 1) == '\r' {
                s.substring_char(pos, j - 1).to_owned()
            } else {
                s.substring_char(pos, j).to_owned()
            };
            assert(line@ =~= seg);
            out.push(line);
            assert(out.deep_view() =~= prev.push(seg));
            assert(suffix.subrange(j - pos + 1, suffix.len() as int)
                =~= s@.subrange(j + 1, n as int));
            let ghost rest = split_lines_spec(s@.subrange(j + 1, n as int));
            assert(split_lines_spec(suffix) == seq![seg] + rest);
            assert(prev.push(seg) + rest =~= prev + (seq![seg] + rest));
            pos = j + 1;
        }
    }
    assert(split_lines_spec(s@.subrange(pos as int, n as int)) =~= seq![]);
    assert(out.deep_view() =~= split_lines_spec(s@));
    out
}

// --- prefix stripping and destination remapping ---

/// Strip a directory prefix from a path: the part after `dir` and the
/// separating `/`, or `None` when `src` does not lie under `dir`.
pub open spec fn strip_dir_prefix_spec(src: Seq<char>, dir: Seq<char>) -> Option<
    Seq<char>,
> {
    if dir.len() < src.len() && src.subrange(0, dir.len() as int) == dir {
        if dir.len() > 0 && dir.last() == '/' {
            Some(src.subrange(dir.len() as int, src.len() as int))
        } else if src[dir.len() as int] == '/' {
            Some(src.subrange(dir.len() as int + 1, src.len() as int))
        } else {
            None
        }
    } else {
        None
    }
}

/// Join a relative path onto a destination directory.
pub open spec fn join_spec(dir: Seq<char>, rel: Seq<char>) -> Seq<char> {
    if dir.len() == 0 {
        rel
    } else if dir.last() == '/' {
        dir + rel
    } else {
        dir + seq!['/'] + rel
    }
}

/// Where a path moves when its source-directory prefix is replaced by a
/// destination directory, keeping the relative subpath; `None` when the
/// path does not lie under the source directory.
pub open spec fn remap_spec(
    src: Seq<char>,
    src_dir: Seq<char>,
    dest_dir: Seq<char>,
) -> Option<Seq<char>> {
    match strip_dir_prefix_spec(src, src_dir) {
        Some(rel) => Some(join_spec(dest_dir, rel)),
        None => None,
    }
}

/// Compute the destination path for `src`, per [`remap_spec`].
#[verifier::loop_isolation(false)]
pub fn remap(src: &str, src_dir: &str, dest_dir: &str) -> (r: Option<String>)
    ensures
        match r {
            Some(to) => remap_spec(src@, src_dir@, dest_dir@) == Some(to@),
            None => remap_spec(src@, src_dir@, dest_dir@) is None,
        },
{
    let n_src = src.unicode_len();
    let n_dir = src_dir.unicode_len();
    if n_dir >= n_src {
        return None;
    }
    let mut i: usize = 0;
    while i < n_dir
        invariant
            i <= n_dir,
            forall|k: int| 0 <= k < i ==> src@[k] == src_dir@[k],
        decreases n_dir - i,
    {
        if src.get_char(i) != src_dir.get_char(i) {
            assert(src@.subrange(0, n_dir as int)[i as int] != src_dir@[i as int]);
            return None;
        }
        i = i + 1;
    }
    assert(src@.subrange(0, n_dir as int) =~= src_dir@);
    let rel = if n_dir > 0 && src_dir.get_char(n_dir - 1) == '/' {
        src.substring_char(n_dir, n_src)
    } else if src.get_char(n_dir) == '/' {
        src.substring_char(n_dir + 1, n_src)
    } else {
        return None;
    };
    let n_dest = dest_dir.unicode_len();
    if n_dest == 0 {
        Some(rel.to_owned())
    } else if dest_dir.get_char(n_dest - 1) == '/' {
        let to = String::from_str(dest_dir).concat(rel);
        Some(to)
    } else {
        let to = String::from_str(dest_dir).concat("/").concat(rel);
        proof {
            reveal_strlit("/");
        }
        assert(to@ =~= dest_dir@ + seq!['/'] + rel@);
        Some(to)
    }
}

/// Compare `a`, lowercased, against `b`.
pub fn eq_lowercase(a: &str, b: &str) -> (r: bool)
    ensures
        r == (lower_seq(a@) == b@),
{
    let na = a.unicode_len();
    let nb = b.unicode_len();
    if na != nb {
        assert(lower_seq(a@).len() == a@.len());
        return false;
    }
    let mut i: usize = 0;
    while i < na
        invariant
            i <= na,
            na == a@.len(),
            na == b@.len(),
            forall|k: int| 0 <= k < i ==> lower_char(a@[k]) == b@[k],
        decreases na - i,
    {
        if char_to_lower(a.get_char(i)) != b.get_char(i) {
            assert(lower_seq(a@)[i as int] == lower_char(a@[i as int]));
            return false;
        }
        i = i + 1;
    }
    assert(lower_seq(a@) =~= b@);
    true
}

} // verus!
