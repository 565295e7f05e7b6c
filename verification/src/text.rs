//! Character, string and decimal/hexadecimal rendering utilities shared by
//! the migration model, the loader and the version store.
use vstd::prelude::*;
use vstd::string::*;

verus! {

/// ASCII lower-casing of a single character; everything outside 'A'..'Z'
/// is left as it is.
pub open spec fn spec_lower_char(c: char) -> char {
    if 'A' <= c && c <= 'Z' {
        ((c as u8) + 32) as char
    } else {
        c
    }
}

/// ASCII lower-casing of a character sequence.
pub open spec fn spec_lower(s: Seq<char>) -> Seq<char> {
    s.map_values(|c: char| spec_lower_char(c))
}

pub fn lower_char(c: char) -> (r: char)
    ensures
        r == spec_lower_char(c),
{
    if 'A' <= c && c <= 'Z' {
        ((c as u8) + 32) as char
    } else {
        c
    }
}

/// The characters stripped by trimming: ASCII whitespace.
pub open spec fn spec_is_ws(c: char) -> bool {
    c == ' ' || c == '\t' || c == '\n' || c == '\r' || c == '\x0b' || c == '\x0c'
}

pub fn is_ws(c: char) -> (r: bool)
    ensures
        r == spec_is_ws(c),
{
    c == ' ' || c == '\t' || c == '\n' || c == '\r' || c == '\x0b' || c == '\x0c'
}

/// A sequence with leading and trailing whitespace removed.
pub open spec fn spec_trim(s: Seq<char>) -> Seq<char>
    decreases s.len(),
{
    if s.len() == 0 {
        s
    } else if spec_is_ws(s.first()) {
        spec_trim(s.drop_first())
    } else if spec_is_ws(s.last()) {
        spec_trim(s.drop_last())
    } else {
        s
    }
}

proof fn lemma_trim_is_subrange(s: Seq<char>, a: int, b: int)
    requires
        0 <= a <= b <= s.len(),
        forall|i: int| 0 <= i < a ==> spec_is_ws(#[trigger] s[i]),
        forall|i: int| b <= i < s.len() ==> spec_is_ws(#[trigger] s[i]),
        a < b ==> !spec_is_ws(s[a]) && !spec_is_ws(s[b - 1]),
    ensures
        spec_trim(s) == s.subrange(a, b),
    decreases s.len(),
{
    if s.len() == 0 {
        assert(spec_trim(s) =~= s.subrange(a, b));
    } else if a == b {
        // every character is whitespace
        assert(spec_is_ws(s.first()));
        lemma_trim_is_subrange(s.drop_first(), 0, 0);
        assert(spec_trim(s) =~= s.subrange(a, b));
    } else if a > 0 {
        assert(spec_is_ws(s.first()));
        lemma_trim_is_subrange(s.drop_first(), a - 1, b - 1);
        assert(s.drop_first().subrange(a - 1, b - 1) =~= s.subrange(a, b));
    } else if b < s.len() {
        assert(spec_is_ws(s.last()));
        assert(!spec_is_ws(s.first()));
        lemma_trim_is_subrange(s.drop_last(), a, b);
        assert(s.drop_last().subrange(a, b) =~= s.subrange(a, b));
    } else {
        assert(spec_trim(s) == s);
        assert(s.subrange(0, s.len() as int) =~= s);
    }
}

/// Removes leading and trailing whitespace.
pub fn trim_string(s: &str) -> (r: String)
    ensures
        r@ == spec_trim(s@),
{
    let n = s.unicode_len();
    let mut a: usize = 0;
    while a < n && is_ws(s.get_char(a))
        invariant
            0 <= a <= n,
            n == s@.len(),
            forall|i: int| 0 <= i < a ==> spec_is_ws(#[trigger] s@[i]),
        decreases n - a,
    {
        a = a + 1;
    }
    let mut b: usize = n;
    while b > a && is_ws(s.get_char(b - 1))
        invariant
            a <= b <= n,
            n == s@.len(),
            forall|i: int| b <= i < n ==> spec_is_ws(#[trigger] s@[i]),
        decreases b,
    {
        b = b - 1;
    }
    proof {
        lemma_trim_is_subrange(s@, a as int, b as int);
    }
    let piece = s.substring_char(a, b);
    piece.to_owned()
}

/// Whether `marker` occurs in `content` at position `i`, compared
/// ASCII-case-insensitively.
pub open spec fn spec_match_at(content: Seq<char>, marker: Seq<char>, i: int) -> bool {
    &&& 0 <= i
    &&& i + marker.len() <= content.len()
    &&& spec_lower(content.subrange(i, i + marker.len())) == spec_lower(marker)
}

/// The least position `>= from` at which `marker` occurs in `content`
/// (ASCII-case-insensitively), if any.
pub open spec fn spec_find_ci(content: Seq<char>, marker: Seq<char>, from: int) -> Option<int>
    decreases content.len() - from,
{
    if from < 0 || from + marker.len() > content.len() {
        None
    } else if spec_match_at(content, marker, from) {
        Some(from)
    } else if from >= content.len() {
        None
    } else {
        spec_find_ci(content, marker, from + 1)
    }
}

/// Whether the characters of `marker` match `content` at `at`, ignoring
/// ASCII case.
fn match_at(content: &str, marker: &str, at: usize) -> (r: bool)
    requires
        at + marker@.len() <= content@.len(),
        content@.len() <= usize::MAX,
    ensures
        r == spec_match_at(content@, marker@, at as int),
{
    let m = marker.unicode_len();
    let mut j: usize = 0;
    while j < m
        invariant
            0 <= j <= m,
            m == marker@.len(),
            at + m <= content@.len() <= usize::MAX,
            forall|k: int|
                0 <= k < j ==> spec_lower_char(#[trigger] content@[at + k]) == spec_lower_char(
                    marker@[k],
                ),
        decreases m - j,
    {
        if lower_char(content.get_char(at + j)) != lower_char(marker.get_char(j)) {
            proof {
                let sub = content@.subrange(at as int, at + m);
                assert(spec_lower(sub)[j as int] == spec_lower_char(content@[at + j]));
                assert(spec_lower(marker@)[j as int] == spec_lower_char(marker@[j as int]));
            }
            return false;
        }
        j = j + 1;
    }
    proof {
        let sub = content@.subrange(at as int, at + m);
        assert forall|k: int| 0 <= k < m implies spec_lower(sub)[k] == spec_lower(marker@)[k] by {
            assert(sub[k] == content@[at + k]);
        }
        assert(spec_lower(sub) =~= spec_lower(marker@));
    }
    true
}

/// The least position `>= from` at which `marker` occurs in `content`,
/// ignoring ASCII case.
pub fn find_ci(content: &str, marker: &str, from: usize) -> (r: Option<usize>)
    ensures
        match r {
            Some(i) => spec_find_ci(content@, marker@, from as int) == Some(i as int),
            None => spec_find_ci(content@, marker@, from as int) is None,
        },
{
    let n = content.unicode_len();
    let m = marker.unicode_len();
    if from > n || m > n - from {
        return None;
    }
    if m == 0 {
        proof {
            let sub = content@.subrange(from as int, from as int);
            assert(spec_lower(sub) =~= spec_lower(marker@));
        }
        return Some(from);
    }
    let last = n - m;
    let mut i: usize = from;
    while i <= last
        invariant
            from <= i,
            i <= last + 1,
            last == n - m,
            1 <= m <= n,
            n == content@.len(),
            m == marker@.len(),
            spec_find_ci(content@, marker@, from as int) == spec_find_ci(
                content@,
                marker@,
                i as int,
            ),
        decreases last + 1 - i,
    {
        if match_at(content, marker, i) {
            return Some(i);
        }
        i = i + 1;
    }
    None
}

/// A found position lies at or after `from` and the whole marker fits.
pub proof fn lemma_find_ci_bounds(content: Seq<char>, marker: Seq<char>, from: int)
    ensures
        spec_find_ci(content, marker, from) matches Some(i) ==> from <= i && i + marker.len()
            <= content.len(),
    decreases content.len() - from,
{
    if from >= 0 && from + marker.len() <= content.len() && !spec_match_at(content, marker, from)
        && from < content.len() {
        lemma_find_ci_bounds(content, marker, from + 1);
    }
}

/// Case-insensitive containment.
pub fn contains_ci(content: &str, marker: &str) -> (r: bool)
    ensures
        r == (spec_find_ci(content@, marker@, 0) is Some),
{
    match find_ci(content, marker, 0) {
        Some(_) => true,
        None => false,
    }
}

/// Whether `marker` occurs in `content` at position `i`, exactly.
pub open spec fn spec_match_exact_at(content: Seq<char>, marker: Seq<char>, i: int) -> bool {
    &&& 0 <= i
    &&& i + marker.len() <= content.len()
    &&& content.subrange(i, i + marker.len()) == marker
}

/// The least position `>= from` at which `marker` occurs exactly.
pub open spec fn spec_find_sub(content: Seq<char>, marker: Seq<char>, from: int) -> Option<int>
    decreases content.len() - from,
{
    if from < 0 || from + marker.len() > content.len() {
        None
    } else if spec_match_exact_at(content, marker, from) {
        Some(from)
    } else if from >= content.len() {
        None
    } else {
        spec_find_sub(content, marker, from + 1)
    }
}

fn match_exact_at(content: &str, marker: &str, at: usize) -> (r: bool)
    requires
        at + marker@.len() <= content@.len(),
        content@.len() <= usize::MAX,
    ensures
        r == spec_match_exact_at(content@, marker@, at as int),
{
    let m = marker.unicode_len();
    let mut j: usize = 0;
    while j < m
        invariant
            0 <= j <= m,
            m == marker@.len(),
            at + m <= content@.len() <= usize::MAX,
            forall|k: int| 0 <= k < j ==> #[trigger] content@[at + k] == marker@[k],
        decreases m - j,
    {
        if content.get_char(at + j) != marker.get_char(j) {
            proof {
                let sub = content@.subrange(at as int, at + m);
                assert(sub[j as int] != marker@[j as int]);
            }
            return false;
        }
        j = j + 1;
    }
    proof {
        let sub = content@.subrange(at as int, at + m);
        assert forall|k: int| 0 <= k < m implies sub[k] == marker@[k] by {
            assert(content@[at + k] == marker@[k]);
        }
        assert(sub =~= marker@);
    }
    true
}

/// Exact (case-sensitive) containment.
pub fn contains_sub(content: &str, marker: &str) -> (r: bool)
    ensures
        r == (spec_find_sub(content@, marker@, 0) is Some),
{
    let n = content.unicode_len();
    let m = marker.unicode_len();
    if m > n {
        return false;
    }
    if m == 0 {
        proof {
            assert(content@.subrange(0, 0) =~= marker@);
        }
        return true;
    }
    let last = n - m;
    let mut i: usize = 0;
    while i <= last
        invariant
            0 <= i,
            i <= last + 1,
            last == n - m,
            1 <= m <= n,
            n == content@.len(),
            m == marker@.len(),
            spec_find_sub(content@, marker@, 0) == spec_find_sub(content@, marker@, i as int),
        decreases last + 1 - i,
    {
        if match_exact_at(content, marker, i) {
            return true;
        }
        i = i + 1;
    }
    false
}

// ---- decimal and hexadecimal rendering ----
/// The character for one decimal digit.
pub open spec fn spec_dec_digit(d: nat) -> char {
    ((48 + d) as u8) as char
}

/// The digits of `n` in base ten, with no leading zero; empty for zero.
pub open spec fn spec_dec_rec(n: nat) -> Seq<char>
    decreases n,
{
    if n == 0 {
        Seq::empty()
    } else {
        spec_dec_rec(n / 10).push(spec_dec_digit(n % 10))
    }
}

/// The decimal rendering of `n`, as Rust's formatter writes it.
pub open spec fn spec_dec(n: nat) -> Seq<char> {
    if n == 0 {
        seq!['0']
    } else {
        spec_dec_rec(n)
    }
}

fn digit_str(d: u8) -> (r: &'static str)
    requires
        d < 10,
    ensures
        r@ =~= seq![spec_dec_digit(d as nat)],
{
    proof {
        reveal_strlit("0");
        reveal_strlit("1");
        reveal_strlit("2");
        reveal_strlit("3");
        reveal_strlit("4");
        reveal_strlit("5");
        reveal_strlit("6");
        reveal_strlit("7");
        reveal_strlit("8");
        reveal_strlit("9");
    }
    match d {
        0 => "0",
        1 => "1",
        2 => "2",
        3 => "3",
        4 => "4",
        5 => "5",
        6 => "6",
        7 => "7",
        8 => "8",
        _ => "9",
    }
}

fn u32_dec_rec(n: u32) -> (r: String)
    requires
        n > 0,
    ensures
        r@ == spec_dec_rec(n as nat),
    decreases n,
{
    let d = (n % 10) as u8;
    let q = n / 10;
    let mut s = if q == 0 {
        String::new()
    } else {
        u32_dec_rec(q)
    };
    let ghost before = s@;
    s.append(digit_str(d));
    proof {
        assert(before == spec_dec_rec((n / 10) as nat));
        assert(spec_dec_rec(n as nat) == spec_dec_rec((n as nat) / 10).push(
            spec_dec_digit((n as nat) % 10),
        ));
        assert((n / 10) as nat == (n as nat) / 10) by (nonlinear_arith);
        assert((n % 10) as nat == (n as nat) % 10) by (nonlinear_arith);
        assert(d as nat == (n as nat) % 10);
        assert(s@ =~= spec_dec_rec(n as nat));
    }
    s
}

/// Renders `n` in decimal.
pub fn u32_to_string(n: u32) -> (r: String)
    ensures
        r@ == spec_dec(n as nat),
{
    if n == 0 {
        proof {
            reveal_strlit("0");
        }
        let r = String::from_str("0");
        proof {
            assert(r@ =~= seq!['0']);
        }
        r
    } else {
        u32_dec_rec(n)
    }
}

fn u64_dec_rec(n: u64) -> (r: String)
    requires
        n > 0,
    ensures
        r@ == spec_dec_rec(n as nat),
    decreases n,
{
    let d = (n % 10) as u8;
    let q = n / 10;
    let mut s = if q == 0 {
        String::new()
    } else {
        u64_dec_rec(q)
    };
    let ghost before = s@;
    s.append(digit_str(d));
    proof {
        assert(before == spec_dec_rec((n / 10) as nat));
        assert(spec_dec_rec(n as nat) == spec_dec_rec((n as nat) / 10).push(
            spec_dec_digit((n as nat) % 10),
        ));
        assert((n / 10) as nat == (n as nat) / 10) by (nonlinear_arith);
        assert((n % 10) as nat == (n as nat) % 10) by (nonlinear_arith);
        assert(d as nat == (n as nat) % 10);
        assert(s@ =~= spec_dec_rec(n as nat));
    }
    s
}

/// Renders `n` in decimal.
pub fn u64_to_string(n: u64) -> (r: String)
    ensures
        r@ == spec_dec(n as nat),
{
    if n == 0 {
        proof {
            reveal_strlit("0");
        }
        let r = String::from_str("0");
        proof {
            assert(r@ =~= seq!['0']);
        }
        r
    } else {
        u64_dec_rec(n)
    }
}

/// A run of `k` zero characters.
pub open spec fn spec_zeros(k: nat) -> Seq<char>
    decreases k,
{
    if k == 0 {
        Seq::empty()
    } else {
        spec_zeros((k - 1) as nat).push('0')
    }
}

/// The decimal rendering of `n`, left-padded with zeros to at least four
/// characters, as a `{:04}` format writes it.
pub open spec fn spec_dec_pad4(n: nat) -> Seq<char> {
    if spec_dec(n).len() >= 4 {
        spec_dec(n)
    } else {
        spec_zeros((4 - spec_dec(n).len()) as nat) + spec_dec(n)
    }
}

/// Renders `n` in decimal, zero-padded to at least four characters.
pub fn u32_to_string_pad4(n: u32) -> (r: String)
    ensures
        r@ == spec_dec_pad4(n as nat),
{
    let digits = u32_to_string(n);
    let mut len = digits.as_str().unicode_len();
    if len >= 4 {
        return digits;
    }
    let mut prefix = String::new();
    let mut k: usize = 0;
    while k < 4 - len
        invariant
            spec_dec(n as nat).len() == len < 4,
            0 <= k <= 4 - len,
            prefix@ == spec_zeros(k as nat),
        decreases 4 - len - k,
    {
        prefix.append("0");
        proof {
            reveal_strlit("0");
            assert(prefix@ =~= spec_zeros((k + 1) as nat));
        }
        k = k + 1;
    }
    let r = prefix.concat(digits.as_str());
    r
}

/// The hexadecimal digit character for `d < 16`, lower case.
pub open spec fn spec_hex_digit(d: nat) -> char {
    if d < 10 {
        ((48 + d) as u8) as char
    } else {
        ((87 + d) as u8) as char
    }
}

/// The digits of `n` in base sixteen, with no leading zero; empty for zero.
pub open spec fn spec_hex_rec(n: nat) -> Seq<char>
    decreases n,
{
    if n == 0 {
        Seq::empty()
    } else {
        spec_hex_rec(n / 16).push(spec_hex_digit(n % 16))
    }
}

/// The lower-case hexadecimal rendering of `n`, as a `{:x}` format writes it.
pub open spec fn spec_hex(n: nat) -> Seq<char> {
    if n == 0 {
        seq!['0']
    } else {
        spec_hex_rec(n)
    }
}

fn hex_digit_str(d: u8) -> (r: &'static str)
    requires
        d < 16,
    ensures
        r@ =~= seq![spec_hex_digit(d as nat)],
{
    if d < 10 {
        digit_str(d)
    } else {
        proof {
            reveal_strlit("a");
            reveal_strlit("b");
            reveal_strlit("c");
            reveal_strlit("d");
            reveal_strlit("e");
            reveal_strlit("f");
        }
        match d {
            10 => "a",
            11 => "b",
            12 => "c",
            13 => "d",
            14 => "e",
            _ => "f",
        }
    }
}

fn u64_hex_rec(n: u64) -> (r: String)
    requires
        n > 0,
    ensures
        r@ == spec_hex_rec(n as nat),
    decreases n,
{
    let d = (n % 16) as u8;
    let q = n / 16;
    let mut s = if q == 0 {
        String::new()
    } else {
        u64_hex_rec(q)
    };
    s.append(hex_digit_str(d));
    proof {
        assert(spec_hex_rec(n as nat) == spec_hex_rec((n as nat) / 16).push(
            spec_hex_digit((n as nat) % 16),
        ));
        assert((n / 16) as nat == (n as nat) / 16) by (nonlinear_arith);
        assert((n % 16) as nat == (n as nat) % 16) by (nonlinear_arith);
        assert(d as nat == (n as nat) % 16);
        assert(s@ =~= spec_hex_rec(n as nat));
    }
    s
}

/// Renders `n` in lower-case hexadecimal.
pub fn u64_to_hex_string(n: u64) -> (r: String)
    ensures
        r@ == spec_hex(n as nat),
{
    if n == 0 {
        proof {
            reveal_strlit("0");
        }
        let r = String::from_str("0");
        proof {
            assert(r@ =~= seq!['0']);
        }
        r
    } else {
        u64_hex_rec(n)
    }
}

// ---- parsing an unsigned decimal number ----
pub open spec fn spec_is_digit(c: char) -> bool {
    '0' <= c && c <= '9'
}

pub open spec fn spec_all_digits(s: Seq<char>) -> bool {
    forall|i: int| 0 <= i < s.len() ==> spec_is_digit(#[trigger] s[i])
}

/// The number written by a digit sequence, read left to right.
pub open spec fn spec_dec_val(s: Seq<char>) -> int
    decreases s.len(),
{
    if s.len() == 0 {
        0
    } else {
        spec_dec_val(s.drop_last()) * 10 + (s.last() as u32 - 48)
    }
}

proof fn lemma_dec_val_nonneg(s: Seq<char>)
    requires
        spec_all_digits(s),
    ensures
        spec_dec_val(s) >= 0,
    decreases s.len(),
{
    if s.len() > 0 {
        assert(spec_all_digits(s.drop_last()));
        lemma_dec_val_nonneg(s.drop_last());
        assert(spec_is_digit(s.last()));
    }
}

proof fn lemma_dec_val_prefix_le(s: Seq<char>, i: int)
    requires
        spec_all_digits(s),
        0 <= i <= s.len(),
    ensures
        spec_dec_val(s.take(i)) <= spec_dec_val(s),
    decreases s.len() - i,
{
    if i < s.len() {
        lemma_dec_val_prefix_le(s, i + 1);
        let t = s.take(i + 1);
        assert(t.drop_last() =~= s.take(i));
        assert(spec_all_digits(s.take(i)));
        lemma_dec_val_nonneg(s.take(i));
        assert(spec_is_digit(t.last()));
        assert(spec_dec_val(t) == spec_dec_val(s.take(i)) * 10 + (t.last() as u32 - 48));
        assert(spec_dec_val(s.take(i)) * 10 >= spec_dec_val(s.take(i)));
    } else {
        assert(s.take(i) =~= s);
    }
}

pub fn is_digit(c: char) -> (r: bool)
    ensures
        r == spec_is_digit(c),
{
    '0' <= c && c <= '9'
}

/// Parses a non-empty run of decimal digits into a `u32`; `None` where the
/// text is empty, holds any other character, or names a number above
/// `u32::MAX`.
pub fn parse_u32(s: &str) -> (r: Option<u32>)
    ensures
        r is Some <==> s@.len() > 0 && spec_all_digits(s@) && spec_dec_val(s@) <= u32::MAX,
        r matches Some(v) ==> v as int == spec_dec_val(s@),
{
    let n = s.unicode_len();
    if n == 0 {
        return None;
    }
    let mut acc: u64 = 0;
    let mut i: usize = 0;
    while i < n
        invariant
            0 <= i <= n,
            n == s@.len(),
            forall|k: int| 0 <= k < i ==> spec_is_digit(#[trigger] s@[k]),
            acc as int == spec_dec_val(s@.take(i as int)),
            acc <= u32::MAX,
        decreases n - i,
    {
        let c = s.get_char(i);
        if !is_digit(c) {
            return None;
        }
        let d = (c as u8) - 48;
        let next: u64 = acc * 10 + (d as u64);
        proof {
            assert(s@.take(i + 1).drop_last() =~= s@.take(i as int));
            assert(s@.take(i + 1).last() == s@[i as int]);
        }
        if next > 0xffff_ffff {
            proof {
                assert(spec_all_digits(s@) ==> spec_dec_val(s@.take(i + 1)) <= spec_dec_val(s@))
                    by {
                    if spec_all_digits(s@) {
                        lemma_dec_val_prefix_le(s@, i + 1);
                    }
                }
            }
            return None;
        }
        acc = next;
        i = i + 1;
    }
    proof {
        assert(s@.take(n as int) =~= s@);
    }
    Some(acc as u32)
}

// ---- plain string comparisons ----
/// Equality of two string slices.
pub fn str_eq(a: &str, b: &str) -> (r: bool)
    ensures
        r == (a@ == b@),
{
    let n = a.unicode_len();
    if n != b.unicode_len() {
        return false;
    }
    let mut i: usize = 0;
    while i < n
        invariant
            0 <= i <= n,
            n == a@.len() == b@.len(),
            forall|k: int| 0 <= k < i ==> a@[k] == b@[k],
        decreases n - i,
    {
        if a.get_char(i) != b.get_char(i) {
            return false;
        }
        i = i + 1;
    }
    proof {
        assert(a@ =~= b@);
    }
    true
}

/// Equality of two string slices up to ASCII case.
pub fn str_eq_ci(a: &str, b: &str) -> (r: bool)
    ensures
        r == (spec_lower(a@) == spec_lower(b@)),
{
    let n = a.unicode_len();
    if n != b.unicode_len() {
        assert(spec_lower(a@).len() != spec_lower(b@).len());
        return false;
    }
    let mut i: usize = 0;
    while i < n
        invariant
            0 <= i <= n,
            n == a@.len() == b@.len(),
            forall|k: int|
                0 <= k < i ==> spec_lower_char(#[trigger] a@[k]) == spec_lower_char(b@[k]),
        decreases n - i,
    {
        if lower_char(a.get_char(i)) != lower_char(b.get_char(i)) {
            assert(spec_lower(a@)[i as int] != spec_lower(b@)[i as int]);
            return false;
        }
        i = i + 1;
    }
    proof {
        assert(spec_lower(a@) =~= spec_lower(b@));
    }
    true
}

/// The value `parse_u32` yields, with failures folded to zero.
pub open spec fn spec_parse_u32_or_zero(s: Seq<char>) -> u32 {
    if s.len() > 0 && spec_all_digits(s) && spec_dec_val(s) <= u32::MAX {
        spec_dec_val(s) as u32
    } else {
        0
    }
}

/// Parses a decimal number, yielding zero where the text is not one.
pub fn parse_u32_or_zero(s: &str) -> (r: u32)
    ensures
        r == spec_parse_u32_or_zero(s@),
{
    match parse_u32(s) {
        Some(v) => v,
        None => 0,
    }
}

/// The value an `i32` parse of `s` yields, with failures folded to zero:
/// an optional leading minus sign, then decimal digits, within range.
pub open spec fn spec_parse_i32_or_zero(s: Seq<char>) -> i32 {
    if s.len() > 0 && s.first() == '-' {
        let digits = s.drop_first();
        if digits.len() > 0 && spec_all_digits(digits) && spec_dec_val(digits) <= 0x8000_0000 {
            (-spec_dec_val(digits)) as i32
        } else {
            0
        }
    } else if s.len() > 0 && spec_all_digits(s) && spec_dec_val(s) <= i32::MAX {
        spec_dec_val(s) as i32
    } else {
        0
    }
}

/// Parses a signed decimal number, yielding zero where the text is not one.
pub fn parse_i32_or_zero(s: &str) -> (r: i32)
    ensures
        r == spec_parse_i32_or_zero(s@),
{
    let n = s.unicode_len();
    if n > 0 && s.get_char(0) == '-' {
        let digits = s.substring_char(1, n);
        proof {
            assert(digits@ =~= s@.drop_first());
        }
        match parse_u32(digits) {
            Some(v) => {
                if v <= 0x8000_0000u32 {
                    proof {
                        assert(v as int == spec_dec_val(s@.drop_first()));
                    }
                    if v == 0x8000_0000u32 {
                        -2147483648i32
                    } else {
                        -(v as i32)
                    }
                } else {
                    0
                }
            },
            None => 0,
        }
    } else {
        match parse_u32(s) {
            Some(v) => {
                if v <= 0x7fff_ffffu32 {
                    v as i32
                } else {
                    0
                }
            },
            None => 0,
        }
    }
}

/// The decimal rendering of a signed number.
pub open spec fn spec_dec_i32(t: i32) -> Seq<char> {
    if t >= 0 {
        spec_dec(t as nat)
    } else {
        seq!['-'] + spec_dec((-(t as int)) as nat)
    }
}

/// Renders a signed number in decimal.
pub fn i32_to_string(t: i32) -> (r: String)
    ensures
        r@ == spec_dec_i32(t),
{
    if t >= 0 {
        u32_to_string(t as u32)
    } else {
        let magnitude: u32 = if t == -2147483648i32 {
            0x8000_0000u32
        } else {
            (-t) as u32
        };
        proof {
            reveal_strlit("-");
        }
        let mut s = String::from_str("-");
        s.append(u32_to_string(magnitude).as_str());
        proof {
            assert(s@ =~= spec_dec_i32(t));
        }
        s
    }
}

/// Whether `s` begins with `prefix`.
pub open spec fn spec_starts_with(s: Seq<char>, prefix: Seq<char>) -> bool {
    prefix.len() <= s.len() && s.take(prefix.len() as int) == prefix
}

/// Whether `s` ends with `suffix`.
pub open spec fn spec_ends_with(s: Seq<char>, suffix: Seq<char>) -> bool {
    suffix.len() <= s.len() && s.skip(s.len() - suffix.len()) == suffix
}

pub fn starts_with_str(s: &str, prefix: &str) -> (r: bool)
    ensures
        r == spec_starts_with(s@, prefix@),
{
    let n = s.unicode_len();
    let m = prefix.unicode_len();
    if m > n {
        return false;
    }
    let mut i: usize = 0;
    while i < m
        invariant
            0 <= i <= m <= n,
            n == s@.len(),
            m == prefix@.len(),
            forall|k: int| 0 <= k < i ==> s@[k] == prefix@[k],
        decreases m - i,
    {
        if s.get_char(i) != prefix.get_char(i) {
            assert(s@.take(m as int)[i as int] != prefix@[i as int]);
            return false;
        }
        i = i + 1;
    }
    proof {
        assert(s@.take(m as int) =~= prefix@);
    }
    true
}

pub fn ends_with_str(s: &str, suffix: &str) -> (r: bool)
    ensures
        r == spec_ends_with(s@, suffix@),
{
    let n = s.unicode_len();
    let m = suffix.unicode_len();
    if m > n {
        return false;
    }
    let off = n - m;
    let mut i: usize = 0;
    while i < m
        invariant
            0 <= i <= m <= n,
            off == n - m,
            n == s@.len(),
            m == suffix@.len(),
            forall|k: int| 0 <= k < i ==> s@[off + k] == suffix@[k],
        decreases m - i,
    {
        if s.get_char(off + i) != suffix.get_char(i) {
            assert(s@.skip(off as int)[i as int] != suffix@[i as int]);
            return false;
        }
        i = i + 1;
    }
    proof {
        assert(s@.skip(off as int) =~= suffix@);
    }
    true
}

// ---- lexicographic order on character sequences ----
/// Byte-wise (code-point-wise) lexicographic "less or equal".
pub open spec fn spec_str_le(a: Seq<char>, b: Seq<char>) -> bool
    decreases a.len(),
{
    if a.len() == 0 {
        true
    } else if b.len() == 0 {
        false
    } else if a.first() == b.first() {
        spec_str_le(a.drop_first(), b.drop_first())
    } else {
        (a.first() as u32) < (b.first() as u32)
    }
}

proof fn lemma_char_code_injective(c1: char, c2: char)
    requires
        c1 as u32 == c2 as u32,
    ensures
        c1 == c2,
{
}

pub proof fn lemma_str_le_total(a: Seq<char>, b: Seq<char>)
    ensures
        spec_str_le(a, b) || spec_str_le(b, a),
    decreases a.len(),
{
    if a.len() > 0 && b.len() > 0 {
        if a.first() == b.first() {
            lemma_str_le_total(a.drop_first(), b.drop_first());
        } else {
            assert(a.first() as u32 != b.first() as u32) by {
                if a.first() as u32 == b.first() as u32 {
                    lemma_char_code_injective(a.first(), b.first());
                }
            }
        }
    }
}

pub proof fn lemma_str_le_trans(a: Seq<char>, b: Seq<char>, c: Seq<char>)
    requires
        spec_str_le(a, b),
        spec_str_le(b, c),
    ensures
        spec_str_le(a, c),
    decreases a.len(),
{
    if a.len() > 0 && b.len() > 0 && c.len() > 0 {
        if a.first() == b.first() && b.first() == c.first() {
            lemma_str_le_trans(a.drop_first(), b.drop_first(), c.drop_first());
        }
    }
}

/// Lexicographic "less or equal" on string slices.
pub fn str_le(a: &str, b: &str) -> (r: bool)
    ensures
        r == spec_str_le(a@, b@),
{
    let na = a.unicode_len();
    let nb = b.unicode_len();
    let mut i: usize = 0;
    proof {
        assert(a@.skip(0) =~= a@);
        assert(b@.skip(0) =~= b@);
    }
    loop
        invariant
            0 <= i <= na,
            i <= nb,
            na == a@.len(),
            nb == b@.len(),
            spec_str_le(a@, b@) == spec_str_le(a@.skip(i as int), b@.skip(i as int)),
        decreases na - i,
    {
        if i == na {
            assert(a@.skip(i as int).len() == 0);
            return true;
        }
        if i == nb {
            assert(b@.skip(i as int).len() == 0);
            assert(a@.skip(i as int).len() > 0);
            return false;
        }
        let ca = a.get_char(i);
        let cb = b.get_char(i);
        proof {
            assert(a@.skip(i as int).first() == a@[i as int]);
            assert(b@.skip(i as int).first() == b@[i as int]);
            assert(a@.skip(i as int).drop_first() =~= a@.skip(i + 1));
            assert(b@.skip(i as int).drop_first() =~= b@.skip(i + 1));
        }
        if ca != cb {
            return (ca as u32) < (cb as u32);
        }
        i = i + 1;
    }
}

// ---- splitting on a separator character ----
/// The least position `>= from` of `c` in `s`, if any.
pub open spec fn spec_find_char(s: Seq<char>, c: char, from: int) -> Option<int>
    decreases s.len() - from,
{
    if from < 0 || from >= s.len() {
        None
    } else if s[from] == c {
        Some(from)
    } else {
        spec_find_char(s, c, from + 1)
    }
}

/// A found position lies between `from` and the end of the sequence.
pub proof fn lemma_find_char_bounds(s: Seq<char>, c: char, from: int)
    ensures
        spec_find_char(s, c, from) matches Some(i) ==> from <= i < s.len(),
    decreases s.len() - from,
{
    if 0 <= from < s.len() && s[from] != c {
        lemma_find_char_bounds(s, c, from + 1);
    }
}

/// The pieces of `s` between occurrences of `c`; always non-empty, and
/// `s` itself where `c` does not occur.
pub open spec fn spec_split(s: Seq<char>, c: char) -> Seq<Seq<char>>
    decreases s.len(),
    via spec_split_decreases
{
    match spec_find_char(s, c, 0) {
        None => seq![s],
        Some(i) => seq![s.subrange(0, i)] + spec_split(s.subrange(i + 1, s.len() as int), c),
    }
}

#[via_fn]
proof fn spec_split_decreases(s: Seq<char>, c: char) {
    lemma_find_char_bounds(s, c, 0);
}

/// The pieces joined with a separator between them.
pub open spec fn spec_join(parts: Seq<Seq<char>>, sep: Seq<char>) -> Seq<char>
    decreases parts.len(),
{
    if parts.len() == 0 {
        Seq::empty()
    } else if parts.len() == 1 {
        parts.first()
    } else {
        parts.first() + sep + spec_join(parts.drop_first(), sep)
    }
}

/// Appending one piece extends the joined text by a separator and the
/// piece (or is the piece itself, for the first one).
pub proof fn lemma_join_push(parts: Seq<Seq<char>>, sep: Seq<char>, x: Seq<char>)
    ensures
        spec_join(parts.push(x), sep) == if parts.len() == 0 {
            x
        } else {
            spec_join(parts, sep) + sep + x
        },
    decreases parts.len(),
{
    if parts.len() == 0 {
        assert(parts.push(x).len() == 1);
        assert(spec_join(parts.push(x), sep) == parts.push(x).first());
        assert(parts.push(x).first() == x);
    } else {
        lemma_join_push(parts.drop_first(), sep, x);
        assert(parts.push(x).drop_first() =~= parts.drop_first().push(x));
        assert(parts.push(x).first() == parts.first());
        if parts.len() == 1 {
            assert(parts.drop_first().len() == 0);
            assert(spec_join(parts.push(x), sep) == parts.first() + sep + x);
            assert(spec_join(parts, sep) == parts.first());
        } else {
            assert(spec_join(parts.push(x), sep) == parts.first() + sep + (spec_join(
                parts.drop_first(),
                sep,
            ) + sep + x));
            assert(spec_join(parts, sep) + sep + x =~= parts.first() + sep + (spec_join(
                parts.drop_first(),
                sep,
            ) + sep + x));
        }
    }
}

/// The views of a sequence of strings.
pub open spec fn spec_views(v: Seq<String>) -> Seq<Seq<char>> {
    v.map_values(|t: String| t@)
}

/// The view of an optional string.
pub open spec fn opt_str_view(o: Option<String>) -> Option<Seq<char>> {
    match o {
        Some(s) => Some(s@),
        None => None,
    }
}

pub fn find_char(s: &str, c: char, from: usize) -> (r: Option<usize>)
    requires
        from <= s@.len(),
    ensures
        match r {
            Some(i) => spec_find_char(s@, c, from as int) == Some(i as int) && from <= i < s@.len(),
            None => spec_find_char(s@, c, from as int) is None,
        },
{
    let n = s.unicode_len();
    let mut i: usize = from;
    while i < n
        invariant
            from <= i <= n,
            n == s@.len(),
            spec_find_char(s@, c, from as int) == spec_find_char(s@, c, i as int),
        decreases n - i,
    {
        if s.get_char(i) == c {
            return Some(i);
        }
        i = i + 1;
    }
    None
}

/// Splits `s` on the separator `c`.
pub fn split_char(s: &str, c: char) -> (r: Vec<String>)
    ensures
        spec_views(r@) == spec_split(s@, c),
    decreases s@.len(),
{
    let n = s.unicode_len();
    match find_char(s, c, 0) {
        None => {
            let mut v: Vec<String> = Vec::new();
            v.push(s.to_owned());
            proof {
                assert(spec_views(v@) =~= spec_split(s@, c));
            }
            v
        },
        Some(i) => {
            let head = s.substring_char(0, i).to_owned();
            let rest = s.substring_char(i + 1, n);
            let mut v = split_char(rest, c);
            v.insert(0, head);
            proof {
                assert(spec_views(v@) =~= spec_split(s@, c));
            }
            v
        },
    }
}

} // verus!
