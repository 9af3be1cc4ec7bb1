//! The resident set size of the process, read out of the text in which the
//! operating system reports it:
//!
//! - **Linux**: the `VmRSS` line of `/proc/self/status`, in kB;
//! - **macOS**: the active and wired-down page counts printed by `vm_stat`,
//!   times the page size given in its header line.
//!
//! Reading the file or running `vm_stat` is left to the caller; these
//! functions take the text as UTF-8 bytes. Whitespace is Unicode
//! `White_Space`, as `str::split_whitespace` and `str::trim` see it.

use vstd::prelude::*;

verus! {

/// The UTF-8 bytes `a b c` encode a three-byte whitespace character:
/// U+1680, U+2000 to U+200A, U+2028, U+2029, U+202F, U+205F or U+3000.
pub open spec fn is_wide_space(a: u8, b: u8, c: u8) -> bool {
    ||| a == 0xE1u8 && b == 0x9Au8 && c == 0x80u8
    ||| a == 0xE2u8 && b == 0x80u8 && (0x80u8 <= c <= 0x8Au8 || c == 0xA8u8 || c == 0xA9u8
        || c == 0xAFu8)
    ||| a == 0xE2u8 && b == 0x81u8 && c == 0x9Fu8
    ||| a == 0xE3u8 && b == 0x80u8 && c == 0x80u8
}

/// `b` is an ASCII whitespace byte: tab, line feed, vertical tab, form
/// feed, carriage return or space.
pub open spec fn is_ascii_space(b: u8) -> bool {
    b == 0x20u8 || 0x09u8 <= b <= 0x0Du8
}

/// The length of the whitespace character whose encoding starts at `i` in
/// `s`, or 0 where none does.
pub open spec fn space_len_at(s: Seq<u8>, i: int) -> int {
    if !(0 <= i < s.len()) {
        0
    } else if is_ascii_space(s[i]) {
        1
    } else if i + 1 < s.len() && s[i] == 0xC2u8 && (s[i + 1] == 0x85u8 || s[i + 1] == 0xA0u8) {
        2
    } else if i + 2 < s.len() && is_wide_space(s[i], s[i + 1], s[i + 2]) {
        3
    } else {
        0
    }
}

/// The length of the whitespace character whose encoding ends just before
/// `j` in `s`, or 0 where none does.
pub open spec fn space_len_before(s: Seq<u8>, j: int) -> int {
    if !(1 <= j <= s.len()) {
        0
    } else if is_ascii_space(s[j - 1]) {
        1
    } else if j >= 2 && s[j - 2] == 0xC2u8 && (s[j - 1] == 0x85u8 || s[j - 1] == 0xA0u8) {
        2
    } else if j >= 3 && is_wide_space(s[j - 3], s[j - 2], s[j - 1]) {
        3
    } else {
        0
    }
}

/// The first position at or after `i` where no whitespace character starts.
pub open spec fn skip_spaces(s: Seq<u8>, i: int) -> int
    decreases s.len() - i,
{
    if 0 <= i < s.len() && space_len_at(s, i) > 0 {
        skip_spaces(s, i + space_len_at(s, i))
    } else {
        i
    }
}

/// The end of the run of bytes from `i` in which no whitespace character
/// starts.
pub open spec fn word_end(s: Seq<u8>, i: int) -> int
    decreases s.len() - i,
{
    if 0 <= i < s.len() && space_len_at(s, i) == 0 {
        word_end(s, i + 1)
    } else {
        i
    }
}

/// The first whitespace-separated word of `s`, as
/// `str::split_whitespace().next()` gives it.
pub open spec fn first_word(s: Seq<u8>) -> Option<Seq<u8>> {
    let start = skip_spaces(s, 0);
    if start < s.len() {
        Some(s.subrange(start, word_end(s, start)))
    } else {
        None
    }
}

/// The last position at or before `j`, and not before `lo`, where no
/// whitespace character ends.
pub open spec fn trim_end_from(s: Seq<u8>, lo: int, j: int) -> int
    decreases j - lo,
{
    if lo < j && space_len_before(s, j) > 0 && j - space_len_before(s, j) >= lo {
        trim_end_from(s, lo, j - space_len_before(s, j))
    } else {
        j
    }
}

/// `s` without leading and trailing whitespace, as `str::trim` leaves it.
pub open spec fn trim_spaces(s: Seq<u8>) -> Seq<u8> {
    let start = skip_spaces(s, 0);
    s.subrange(start, trim_end_from(s, start, s.len() as int))
}

/// `s` without its trailing `.` bytes.
pub open spec fn trim_end_dots(s: Seq<u8>) -> Seq<u8>
    decreases s.len(),
{
    if s.len() > 0 && s.last() == 0x2Eu8 {
        trim_end_dots(s.drop_last())
    } else {
        s
    }
}

/// Every byte of `s` is an ASCII digit.
pub open spec fn all_digits(s: Seq<u8>) -> bool {
    forall|i: int| 0 <= i < s.len() ==> 0x30u8 <= #[trigger] s[i] <= 0x39u8
}

/// The number that the decimal digits `s` write.
pub open spec fn digits_value(s: Seq<u8>) -> nat
    decreases s.len(),
{
    if s.len() == 0 {
        0
    } else {
        digits_value(s.drop_last()) * 10 + (s.last() - 0x30u8) as nat
    }
}

/// `s` without the `+` sign it may start with.
pub open spec fn unsigned_digits(s: Seq<u8>) -> Seq<u8> {
    if s.len() > 0 && s[0] == 0x2Bu8 {
        s.drop_first()
    } else {
        s
    }
}

/// `s` read as a `u64` the way `str::parse::<u64>` reads it: an optional
/// `+`, then one or more ASCII digits, with a value that fits.
pub open spec fn parse_u64(s: Seq<u8>) -> Option<u64> {
    let digits = unsigned_digits(s);
    if digits.len() > 0 && all_digits(digits) && digits_value(digits) <= u64::MAX {
        Some(digits_value(digits) as u64)
    } else {
        None
    }
}

/// The end of the line that runs from `i`: the first line feed at or after
/// `i`, or the end of `s`.
pub open spec fn line_end(s: Seq<u8>, i: int) -> int
    decreases s.len() - i,
{
    if 0 <= i < s.len() && s[i] != 0x0Au8 {
        line_end(s, i + 1)
    } else {
        i
    }
}

/// A line of `s` starts at `i` and begins with `prefix`.
pub open spec fn line_with_prefix_at(s: Seq<u8>, prefix: Seq<u8>, i: int) -> bool {
    &&& 0 <= i
    &&& i == 0 || s[i - 1] == 0x0Au8
    &&& i + prefix.len() <= s.len()
    &&& s.subrange(i, i + prefix.len()) == prefix
}

/// What follows `prefix` on the line that starts at `i`.
pub open spec fn line_rest(s: Seq<u8>, prefix: Seq<u8>, i: int) -> Seq<u8> {
    s.subrange(i + prefix.len(), line_end(s, i + prefix.len()))
}

/// The start of the first line at or after `i` that begins with `prefix`.
pub open spec fn first_line_with(s: Seq<u8>, prefix: Seq<u8>, i: int) -> Option<int>
    decreases s.len() + 1 - i,
{
    if i < 0 || i > s.len() {
        None
    } else if line_with_prefix_at(s, prefix, i) {
        Some(i)
    } else {
        first_line_with(s, prefix, i + 1)
    }
}

/// The start of the last line before `j` that begins with `prefix`.
pub open spec fn last_line_with(s: Seq<u8>, prefix: Seq<u8>, j: int) -> Option<int>
    decreases j,
{
    if j <= 0 {
        None
    } else if line_with_prefix_at(s, prefix, j - 1) {
        Some(j - 1)
    } else {
        last_line_with(s, prefix, j - 1)
    }
}

/// The first position at or after `i` where `pattern` occurs in `s`.
pub open spec fn find_from(s: Seq<u8>, pattern: Seq<u8>, i: int) -> Option<int>
    decreases s.len() + 1 - i,
{
    if i < 0 || i + pattern.len() > s.len() {
        None
    } else if s.subrange(i, i + pattern.len()) == pattern {
        Some(i)
    } else {
        find_from(s, pattern, i + 1)
    }
}

/// `VmRSS:`
pub open spec fn vmrss_prefix() -> Seq<u8> {
    seq![0x56u8, 0x6Du8, 0x52u8, 0x53u8, 0x53u8, 0x3Au8]
}

/// `Pages active:`
pub open spec fn active_prefix() -> Seq<u8> {
    seq![
        0x50u8, 0x61u8, 0x67u8, 0x65u8, 0x73u8, 0x20u8, 0x61u8, 0x63u8, 0x74u8, 0x69u8, 0x76u8,
        0x65u8, 0x3Au8,
    ]
}

/// `Pages wired down:`
pub open spec fn wired_prefix() -> Seq<u8> {
    seq![
        0x50u8, 0x61u8, 0x67u8, 0x65u8, 0x73u8, 0x20u8, 0x77u8, 0x69u8, 0x72u8, 0x65u8, 0x64u8,
        0x20u8, 0x64u8, 0x6Fu8, 0x77u8, 0x6Eu8, 0x3Au8,
    ]
}

/// `page size of `
pub open spec fn page_size_marker() -> Seq<u8> {
    seq![
        0x70u8, 0x61u8, 0x67u8, 0x65u8, 0x20u8, 0x73u8, 0x69u8, 0x7Au8, 0x65u8, 0x20u8, 0x6Fu8,
        0x66u8, 0x20u8,
    ]
}

/// ` bytes`
pub open spec fn bytes_marker() -> Seq<u8> {
    seq![0x20u8, 0x62u8, 0x79u8, 0x74u8, 0x65u8, 0x73u8]
}

/// The resident set size that `/proc/self/status` reports: the first word
/// after `VmRSS:` on the first line that begins with it, read as a number
/// of kB. `None` where there is no such line or word, where the word is no
/// number, or where the size in bytes does not fit in a `u64`.
pub open spec fn spec_rss_from_proc_status(status: Seq<u8>) -> Option<u64> {
    match first_line_with(status, vmrss_prefix(), 0) {
        None => None,
        Some(i) => match first_word(line_rest(status, vmrss_prefix(), i)) {
            None => None,
            Some(word) => match parse_u64(word) {
                None => None,
                Some(kb) => if kb * 1024 <= u64::MAX {
                    Some((kb * 1024) as u64)
                } else {
                    None
                },
            },
        },
    }
}

/// The page size that the header line of `vm_stat` gives in
/// `page size of N bytes`; 4096 where it gives none.
pub open spec fn vm_stat_page_size(text: Seq<u8>) -> u64 {
    let header = text.subrange(0, line_end(text, 0));
    match find_from(header, page_size_marker(), 0) {
        None => 4096,
        Some(a) => {
            let rest = header.subrange(a + page_size_marker().len(), header.len() as int);
            match find_from(rest, bytes_marker(), 0) {
                None => 4096,
                Some(b) => match parse_u64(rest.subrange(0, b)) {
                    Some(n) => n,
                    None => 4096,
                },
            }
        },
    }
}

/// The page count on the last line of `vm_stat` that begins with `prefix`:
/// what follows the prefix, trimmed and without its final dots; 0 where
/// there is no such line or no number there.
pub open spec fn vm_stat_pages(text: Seq<u8>, prefix: Seq<u8>) -> u64 {
    pages_on_line(text, prefix, last_line_with(text, prefix, text.len() + 1 as int))
}

/// The page count on the line of `text` that starts at `line` and begins
/// with `prefix`; 0 where there is no line or no number there.
pub open spec fn pages_on_line(text: Seq<u8>, prefix: Seq<u8>, line: Option<int>) -> u64 {
    match line {
        None => 0,
        Some(i) => match parse_u64(trim_end_dots(trim_spaces(line_rest(text, prefix, i)))) {
            Some(n) => n,
            None => 0,
        },
    }
}

/// The resident set size that `vm_stat` reports: active plus wired-down
/// pages, times the page size; `None` where that does not fit in a `u64`.
pub open spec fn spec_rss_from_vm_stat(text: Seq<u8>) -> Option<u64> {
    let total = (vm_stat_pages(text, active_prefix()) + vm_stat_pages(text, wired_prefix()))
        * vm_stat_page_size(text);
    if total <= u64::MAX {
        Some(total as u64)
    } else {
        None
    }
}

/// The length of the whitespace character whose encoding starts at `i`.
fn space_len(s: &[u8], i: usize) -> (n: usize)
    ensures
        n == space_len_at(s@, i as int),
{
    if i >= s.len() {
        return 0;
    }
    let a = s[i];
    if a == 0x20 || 0x09 <= a && a <= 0x0D {
        return 1;
    }
    if i + 1 < s.len() && a == 0xC2 && (s[i + 1] == 0x85 || s[i + 1] == 0xA0) {
        return 2;
    }
    if s.len() - i > 2 {
        let b = s[i + 1];
        let c = s[i + 2];
        if a == 0xE1 && b == 0x9A && c == 0x80 || a == 0xE2 && b == 0x80 && (0x80 <= c && c
            <= 0x8A || c == 0xA8 || c == 0xA9 || c == 0xAF) || a == 0xE2 && b == 0x81 && c == 0x9F
            || a == 0xE3 && b == 0x80 && c == 0x80 {
            return 3;
        }
    }
    0
}

/// The length of the whitespace character whose encoding ends just before
/// `j`.
fn space_len_ending(s: &[u8], j: usize) -> (n: usize)
    ensures
        n == space_len_before(s@, j as int),
{
    if j < 1 || j > s.len() {
        return 0;
    }
    let c = s[j - 1];
    if c == 0x20 || 0x09 <= c && c <= 0x0D {
        return 1;
    }
    if j >= 2 && s[j - 2] == 0xC2 && (c == 0x85 || c == 0xA0) {
        return 2;
    }
    if j >= 3 {
        let a = s[j - 3];
        let b = s[j - 2];
        if a == 0xE1 && b == 0x9A && c == 0x80 || a == 0xE2 && b == 0x80 && (0x80 <= c && c
            <= 0x8A || c == 0xA8 || c == 0xA9 || c == 0xAF) || a == 0xE2 && b == 0x81 && c == 0x9F
            || a == 0xE3 && b == 0x80 && c == 0x80 {
            return 3;
        }
    }
    0
}

/// The first position at or after `i` where no whitespace character starts.
fn skip_spaces_from(s: &[u8], i: usize) -> (r: usize)
    requires
        i <= s.len(),
    ensures
        r == skip_spaces(s@, i as int),
        i <= r <= s.len(),
{
    let mut k = i;
    while k < s.len()
        invariant
            i <= k <= s.len(),
            skip_spaces(s@, k as int) == skip_spaces(s@, i as int),
        ensures
            i <= k <= s.len(),
            skip_spaces(s@, k as int) == skip_spaces(s@, i as int),
            skip_spaces(s@, k as int) == k,
        decreases s.len() - k,
    {
        let n = space_len(s, k);
        if n == 0 {
            break;
        }
        k = k + n;
    }
    k
}

/// The end of the run of bytes from `i` in which no whitespace character
/// starts.
fn word_end_from(s: &[u8], i: usize) -> (r: usize)
    requires
        i <= s.len(),
    ensures
        r == word_end(s@, i as int),
        i <= r <= s.len(),
{
    let mut k = i;
    while k < s.len()
        invariant
            i <= k <= s.len(),
            word_end(s@, k as int) == word_end(s@, i as int),
        ensures
            i <= k <= s.len(),
            word_end(s@, k as int) == word_end(s@, i as int),
            word_end(s@, k as int) == k,
        decreases s.len() - k,
    {
        if space_len(s, k) != 0 {
            break;
        }
        k = k + 1;
    }
    k
}

/// The last position at or before `j`, and not before `lo`, where no
/// whitespace character ends.
fn trim_end_to(s: &[u8], lo: usize, j: usize) -> (r: usize)
    requires
        lo <= j <= s.len(),
    ensures
        r == trim_end_from(s@, lo as int, j as int),
        lo <= r <= j,
{
    let mut k = j;
    while lo < k
        invariant
            lo <= k <= j,
            trim_end_from(s@, lo as int, k as int) == trim_end_from(s@, lo as int, j as int),
        ensures
            lo <= k <= j,
            trim_end_from(s@, lo as int, k as int) == trim_end_from(s@, lo as int, j as int),
            trim_end_from(s@, lo as int, k as int) == k,
        decreases k,
    {
        let n = space_len_ending(s, k);
        if n == 0 || k - n < lo {
            break;
        }
        k = k - n;
    }
    k
}

/// `s` without leading and trailing whitespace.
fn trimmed(s: &[u8]) -> (r: &[u8])
    ensures
        r@ == trim_spaces(s@),
{
    let start = skip_spaces_from(s, 0);
    let end = trim_end_to(s, start, s.len());
    &s[start..end]
}

/// `s` without its trailing `.` bytes.
fn without_trailing_dots(s: &[u8]) -> (r: &[u8])
    ensures
        r@ == trim_end_dots(s@),
{
    let mut k = s.len();
    assert(s@.subrange(0, k as int) =~= s@);
    while k > 0 && s[k - 1] == 0x2E
        invariant
            k <= s.len(),
            trim_end_dots(s@.subrange(0, k as int)) == trim_end_dots(s@),
        decreases k,
    {
        assert(s@.subrange(0, k as int).drop_last() =~= s@.subrange(0, k - 1));
        k = k - 1;
    }
    &s[0..k]
}

/// The decimal value of a prefix of digits is at most that of the digits.
proof fn lemma_digits_value_of_prefix(s: Seq<u8>, k: int)
    requires
        all_digits(s),
        0 <= k <= s.len(),
    ensures
        digits_value(s.subrange(0, k)) <= digits_value(s),
    decreases s.len(),
{
    if k < s.len() {
        assert(s.drop_last().subrange(0, k) =~= s.subrange(0, k));
        lemma_digits_value_of_prefix(s.drop_last(), k);
    } else {
        assert(s.subrange(0, k) =~= s);
    }
}

/// `s` read as a `u64` the way `str::parse::<u64>` reads it.
fn parse_u64_bytes(s: &[u8]) -> (r: Option<u64>)
    ensures
        r == parse_u64(s@),
{
    let start: usize = if s.len() > 0 && s[0] == 0x2B {
        1
    } else {
        0
    };
    let digits = &s[start..s.len()];
    assert(digits@ =~= unsigned_digits(s@));
    if digits.len() == 0 {
        return None;
    }
    let mut value: u64 = 0;
    let mut k: usize = 0;
    while k < digits.len()
        invariant
            digits@ == unsigned_digits(s@),
            k <= digits.len(),
            all_digits(digits@.subrange(0, k as int)),
            value == digits_value(digits@.subrange(0, k as int)),
        decreases digits.len() - k,
    {
        let b = digits[k];
        let ghost next = digits@.subrange(0, k + 1);
        assert(next.drop_last() =~= digits@.subrange(0, k as int));
        if b < 0x30 || b > 0x39 {
            assert(!all_digits(digits@));
            assert(parse_u64(s@) is None);
            return None;
        }
        assert(all_digits(next));
        let d = (b - 0x30) as u64;
        assert(digits_value(next) == value * 10 + d);
        match value.checked_mul(10) {
            None => {
                proof {
                    if all_digits(digits@) {
                        lemma_digits_value_of_prefix(digits@, k + 1);
                    }
                }
                return None;
            },
            Some(tens) => match tens.checked_add(d) {
                None => {
                    proof {
                        if all_digits(digits@) {
                            lemma_digits_value_of_prefix(digits@, k + 1);
                        }
                    }
                    return None;
                },
                Some(v) => {
                    value = v;
                },
            },
        }
        k = k + 1;
    }
    assert(digits@.subrange(0, k as int) =~= digits@);
    Some(value)
}

/// The end of the line that runs from `i`.
fn line_end_from(s: &[u8], i: usize) -> (e: usize)
    requires
        i <= s.len(),
    ensures
        e == line_end(s@, i as int),
        i <= e <= s.len(),
        forall|k: int| i <= k < e ==> s@[k] != 0x0Au8,
        e < s.len() ==> s@[e as int] == 0x0Au8,
{
    let mut k = i;
    while k < s.len() && s[k] != 0x0A
        invariant
            i <= k <= s.len(),
            line_end(s@, k as int) == line_end(s@, i as int),
            forall|m: int| i <= m < k ==> s@[m] != 0x0Au8,
        decreases s.len() - k,
    {
        k = k + 1;
    }
    k
}

/// `pattern` occurs in `s` at `i`.
fn occurs_at(s: &[u8], i: usize, pattern: &[u8]) -> (r: bool)
    ensures
        r == (i + pattern.len() <= s.len() && s@.subrange(i as int, i + pattern.len())
            == pattern@),
{
    if i > s.len() || pattern.len() > s.len() - i {
        return false;
    }
    let mut k: usize = 0;
    while k < pattern.len()
        invariant
            k <= pattern.len(),
            i + pattern.len() <= s.len(),
            forall|m: int| 0 <= m < k ==> s@[i + m] == pattern@[m],
        decreases pattern.len() - k,
    {
        if s[i + k] != pattern[k] {
            assert(s@.subrange(i as int, i + pattern.len())[k as int] != pattern@[k as int]);
            return false;
        }
        k = k + 1;
    }
    assert(s@.subrange(i as int, i + pattern.len()) =~= pattern@);
    true
}

/// The first position at which `pattern` occurs in `s`.
fn find_pattern(s: &[u8], pattern: &[u8]) -> (r: Option<usize>)
    requires
        pattern@.len() > 0,
    ensures
        r matches Some(i) ==> find_from(s@, pattern@, 0) == Some(i as int),
        r matches Some(i) ==> i + pattern@.len() <= s@.len(),
        r is None ==> find_from(s@, pattern@, 0) is None,
{
    let mut i: usize = 0;
    while i <= s.len()
        invariant
            pattern@.len() > 0,
            find_from(s@, pattern@, i as int) == find_from(s@, pattern@, 0),
        decreases s.len() + 1 - i,
    {
        if pattern.len() > s.len() - i {
            return None;
        }
        if occurs_at(s, i, pattern) {
            return Some(i);
        }
        i = i + 1;
    }
    None
}

/// No line starts strictly after `a` and at or before `b` when no line feed
/// lies in `[a, b)`: the first line with a prefix after `a` lies after `b`.
proof fn lemma_first_line_skips(s: Seq<u8>, prefix: Seq<u8>, a: int, b: int)
    requires
        0 <= a <= b <= s.len(),
        forall|k: int| a <= k < b ==> s[k] != 0x0Au8,
    ensures
        first_line_with(s, prefix, a + 1) == first_line_with(s, prefix, b + 1),
    decreases b - a,
{
    if a < b {
        assert(!line_with_prefix_at(s, prefix, a + 1));
        lemma_first_line_skips(s, prefix, a + 1, b);
    }
}

/// No line starts strictly after `a` and at or before `b` when no line feed
/// lies in `[a, b)`: the last line with a prefix before `b + 1` starts at or
/// before `a`.
proof fn lemma_last_line_skips(s: Seq<u8>, prefix: Seq<u8>, a: int, b: int)
    requires
        0 <= a <= b <= s.len(),
        forall|k: int| a <= k < b ==> s[k] != 0x0Au8,
    ensures
        last_line_with(s, prefix, b + 1) == last_line_with(s, prefix, a + 1),
    decreases b - a,
{
    if a < b {
        assert(!line_with_prefix_at(s, prefix, b));
        lemma_last_line_skips(s, prefix, a, b - 1);
    }
}

/// The resident set size that `/proc/self/status` reports, in bytes: the
/// `VmRSS` figure in kB times 1024. `None` where the text has no `VmRSS`
/// line, where no number follows it, or where the size does not fit in a
/// `u64`.
pub fn rss_from_proc_status(status: &[u8]) -> (r: Option<u64>)
    ensures
        r == spec_rss_from_proc_status(status@),
{
    let prefix: Vec<u8> = vec![0x56, 0x6D, 0x52, 0x53, 0x53, 0x3A];
    assert(prefix@ =~= vmrss_prefix());
    let mut p: usize = 0;
    while p <= status.len()
        invariant
            prefix@ == vmrss_prefix(),
            p == 0 || (p <= status.len() && status@[p - 1] == 0x0Au8),
            first_line_with(status@, vmrss_prefix(), p as int) == first_line_with(
                status@,
                vmrss_prefix(),
                0,
            ),
        decreases status.len() + 1 - p,
    {
        if occurs_at(status, p, prefix.as_slice()) {
            assert(line_with_prefix_at(status@, vmrss_prefix(), p as int));
            let start = p + 6;
            let end = line_end_from(status, start);
            let rest = &status[start..end];
            let word_start = skip_spaces_from(rest, 0);
            if word_start >= rest.len() {
                return None;
            }
            let word_stop = word_end_from(rest, word_start);
            let word = &rest[word_start..word_stop];
            return match parse_u64_bytes(word) {
                None => None,
                Some(kb) => kb.checked_mul(1024),
            };
        }
        let e = line_end_from(status, p);
        proof {
            lemma_first_line_skips(status@, vmrss_prefix(), p as int, e as int);
        }
        if e >= status.len() {
            return None;
        }
        p = e + 1;
    }
    None
}

/// The page count on a `vm_stat` line after its label: the text trimmed,
/// without its final dots, read as a number; 0 where it is none.
fn pages_from(rest: &[u8]) -> (n: u64)
    ensures
        n == (match parse_u64(trim_end_dots(trim_spaces(rest@))) {
            Some(v) => v,
            None => 0,
        }),
{
    match parse_u64_bytes(without_trailing_dots(trimmed(rest))) {
        Some(v) => v,
        None => 0,
    }
}

/// The page size that the header line of `vm_stat` gives; 4096 where it
/// gives none.
fn page_size_from(text: &[u8]) -> (n: u64)
    ensures
        n == vm_stat_page_size(text@),
{
    let header = &text[0..line_end_from(text, 0)];
    let marker: Vec<u8> = vec![
        0x70,
        0x61,
        0x67,
        0x65,
        0x20,
        0x73,
        0x69,
        0x7A,
        0x65,
        0x20,
        0x6F,
        0x66,
        0x20,
    ];
    let unit: Vec<u8> = vec![0x20, 0x62, 0x79, 0x74, 0x65, 0x73];
    assert(marker@ =~= page_size_marker());
    assert(unit@ =~= bytes_marker());
    match find_pattern(header, marker.as_slice()) {
        None => 4096,
        Some(a) => {
            let rest = &header[a + 13..header.len()];
            match find_pattern(rest, unit.as_slice()) {
                None => 4096,
                Some(b) => match parse_u64_bytes(&rest[0..b]) {
                    Some(n) => n,
                    None => 4096,
                },
            }
        },
    }
}

/// The resident set size that `vm_stat` reports, in bytes: active plus
/// wired-down pages (each from the last line that gives it), times the page
/// size from the header line (4096 where it gives none). `None` where the
/// size does not fit in a `u64`.
pub fn rss_from_vm_stat(text: &[u8]) -> (r: Option<u64>)
    ensures
        r == spec_rss_from_vm_stat(text@),
{
    let page_size = page_size_from(text);
    let active_label: Vec<u8> = vec![
        0x50,
        0x61,
        0x67,
        0x65,
        0x73,
        0x20,
        0x61,
        0x63,
        0x74,
        0x69,
        0x76,
        0x65,
        0x3A,
    ];
    let wired_label: Vec<u8> = vec![
        0x50,
        0x61,
        0x67,
        0x65,
        0x73,
        0x20,
        0x77,
        0x69,
        0x72,
        0x65,
        0x64,
        0x20,
        0x64,
        0x6F,
        0x77,
        0x6E,
        0x3A,
    ];
    assert(active_label@ =~= active_prefix());
    assert(wired_label@ =~= wired_prefix());
    let mut active: u64 = 0;
    let mut wired: u64 = 0;
    let mut p: usize = 0;
    loop
        invariant_except_break
            active == pages_on_line(
                text@,
                active_prefix(),
                last_line_with(text@, active_prefix(), p as int),
            ),
            wired == pages_on_line(
                text@,
                wired_prefix(),
                last_line_with(text@, wired_prefix(), p as int),
            ),
        invariant
            active_label@ == active_prefix(),
            wired_label@ == wired_prefix(),
            p <= text.len(),
            p == 0 || text@[p - 1] == 0x0Au8,
        ensures
            active == vm_stat_pages(text@, active_prefix()),
            wired == vm_stat_pages(text@, wired_prefix()),
        decreases text.len() - p,
    {
        let e = line_end_from(text, p);
        if occurs_at(text, p, active_label.as_slice()) {
            assert(line_with_prefix_at(text@, active_prefix(), p as int));
            assert(text@[p + 6] == 0x61u8);
            assert(!line_with_prefix_at(text@, wired_prefix(), p as int)) by {
                if p + 17 <= text.len() {
                    assert(text@.subrange(p as int, p + 17)[6] == text@[p + 6]);
                }
            }
            let end = line_end_from(text, p + 13);
            active = pages_from(&text[p + 13..end]);
        } else if occurs_at(text, p, wired_label.as_slice()) {
            assert(line_with_prefix_at(text@, wired_prefix(), p as int));
            let end = line_end_from(text, p + 17);
            wired = pages_from(&text[p + 17..end]);
        }
        proof {
            lemma_last_line_skips(text@, active_prefix(), p as int, e as int);
            lemma_last_line_skips(text@, wired_prefix(), p as int, e as int);
        }
        if e >= text.len() {
            break;
        }
        p = e + 1;
    }
    let ghost total: int = (active + wired) * page_size;
    match active.checked_add(wired) {
        Some(pages) => pages.checked_mul(page_size),
        None => {
            if page_size == 0 {
                assert(total == 0) by (nonlinear_arith)
                    requires
                        page_size == 0,
                        total == (active + wired) * page_size,
                ;
                Some(0)
            } else {
                assert(total >= active + wired) by (nonlinear_arith)
                    requires
                        page_size >= 1,
                        active + wired >= 0,
                        total == (active + wired) * page_size,
                ;
                None
            }
        },
    }
}

} // verus!
