//! Character-level helpers on strings: searching, prefixes, and the decimal
//! and hexadecimal renderings the deployer writes into names and checksums.

use vstd::prelude::*;
use vstd::string::*;

verus! {

/// `needle` occurs in `hay` starting at character position `i`.
pub open spec fn occurs_at(hay: Seq<char>, needle: Seq<char>, i: int) -> bool {
    &&& 0 <= i
    &&& i + needle.len() <= hay.len()
    &&& hay.subrange(i, i + needle.len()) == needle
}

/// `needle` occurs somewhere in `hay` (the empty needle occurs everywhere).
pub open spec fn contains_seq(hay: Seq<char>, needle: Seq<char>) -> bool {
    exists|i: int| occurs_at(hay, needle, i)
}

/// Whether `needle` occurs in `hay`, as `str::contains` answers it.
pub fn str_contains(hay: &str, needle: &str) -> (found: bool)
    ensures
        found == contains_seq(hay@, needle@),
{
    let hl = hay.unicode_len();
    let nl = needle.unicode_len();
    if nl > hl {
        assert forall|i: int| !occurs_at(hay@, needle@, i) by {}
        return false;
    }
    let last = hl - nl;
    let mut i: usize = 0;
    loop
        invariant
            hl == hay@.len(),
            nl == needle@.len(),
            last == hl - nl,
            i <= last,
            forall|k: int| 0 <= k < i ==> !occurs_at(hay@, needle@, k),
        decreases last - i,
    {
        if matches_at(hay, needle, i) {
            return true;
        }
        if i == last {
            assert forall|k: int| !occurs_at(hay@, needle@, k) by {}
            return false;
        }
        i = i + 1;
    }
}

/// Whether `needle` occurs in `hay` at character position `i`.
fn matches_at(hay: &str, needle: &str, i: usize) -> (m: bool)
    requires
        i + needle@.len() <= hay@.len(),
    ensures
        m == occurs_at(hay@, needle@, i as int),
{
    let hl = hay.unicode_len();
    let nl = needle.unicode_len();
    let mut j: usize = 0;
    while j < nl
        invariant
            hl == hay@.len(),
            nl == needle@.len(),
            i + nl <= hl,
            j <= nl,
            forall|m: int| 0 <= m < j ==> hay@[i + m] == needle@[m],
        decreases nl - j,
    {
        if hay.get_char(i + j) != needle.get_char(j) {
            assert(hay@.subrange(i as int, i + nl)[j as int] != needle@[j as int]);
            return false;
        }
        j = j + 1;
    }
    assert(hay@.subrange(i as int, i + nl) =~= needle@);
    true
}


/// Whether `a` and `b` hold the same characters.
pub fn str_equal(a: &str, b: &str) -> (same: bool)
    ensures
        same == (a@ == b@),
{
    let al = a.unicode_len();
    let bl = b.unicode_len();
    if al != bl {
        return false;
    }
    let m = matches_at(a, b, 0);
    proof {
        if m {
            assert(a@.subrange(0, al as int) =~= a@);
        } else {
            assert(a@.subrange(0, al as int) =~= a@);
        }
    }
    m
}

/// `prefix` is an initial segment of `s`.
pub open spec fn starts_with_seq(s: Seq<char>, prefix: Seq<char>) -> bool {
    prefix.len() <= s.len() && s.subrange(0, prefix.len() as int) == prefix
}

/// A concatenation starts with its first part.
pub proof fn lemma_starts_with_concat(prefix: Seq<char>, rest: Seq<char>)
    ensures
        starts_with_seq(prefix + rest, prefix),
{
    assert((prefix + rest).subrange(0, prefix.len() as int) =~= prefix);
}

/// `s` with `prefix` removed, when `s` starts with it (`str::strip_prefix`).
pub fn strip_prefix_str(s: &str, prefix: &str) -> (rest: Option<String>)
    ensures
        match rest {
            Some(r) => starts_with_seq(s@, prefix@) && r@ == s@.subrange(
                prefix@.len() as int,
                s@.len() as int,
            ),
            None => !starts_with_seq(s@, prefix@),
        },
{
    let sl = s.unicode_len();
    let pl = prefix.unicode_len();
    if pl > sl {
        return None;
    }
    let mut j: usize = 0;
    while j < pl
        invariant
            sl == s@.len(),
            pl == prefix@.len(),
            pl <= sl,
            j <= pl,
            forall|m: int| 0 <= m < j ==> s@[m] == prefix@[m],
        decreases pl - j,
    {
        if s.get_char(j) != prefix.get_char(j) {
            assert(s@.subrange(0, pl as int)[j as int] != prefix@[j as int]);
            return None;
        }
        j = j + 1;
    }
    assert(s@.subrange(0, pl as int) =~= prefix@);
    let tail = s.substring_char(pl, sl);
    Some(String::from_str(tail))
}

/// The decimal digit character for `d` (`0 <= d < 10`).
pub open spec fn decimal_digit(d: int) -> char {
    if d == 0 { '0' }
    else if d == 1 { '1' }
    else if d == 2 { '2' }
    else if d == 3 { '3' }
    else if d == 4 { '4' }
    else if d == 5 { '5' }
    else if d == 6 { '6' }
    else if d == 7 { '7' }
    else if d == 8 { '8' }
    else { '9' }
}

/// The lowercase hexadecimal digit character for `d` (`0 <= d < 16`).
pub open spec fn hex_digit(d: int) -> char {
    if d < 10 { decimal_digit(d) }
    else if d == 10 { 'a' }
    else if d == 11 { 'b' }
    else if d == 12 { 'c' }
    else if d == 13 { 'd' }
    else if d == 14 { 'e' }
    else { 'f' }
}

/// The digits of `n` in base `base`, most significant first, without
/// leading zeros (`0` is written as one zero digit).
pub open spec fn digits_in_base(n: nat, base: nat) -> Seq<char>
    recommends
        base == 10 || base == 16,
    decreases n,
{
    if n < base || base < 2 {
        seq![hex_digit(n as int)]
    } else {
        proof {
            assert(n / base < n) by (nonlinear_arith)
                requires
                    n >= base,
                    base >= 2,
            ;
        }
        digits_in_base(n / base, base).push(hex_digit((n % base) as int))
    }
}

/// `s` left-padded with zero characters to at least `width` characters.
pub open spec fn zero_padded(s: Seq<char>, width: nat) -> Seq<char> {
    if s.len() < width {
        Seq::new((width - s.len()) as nat, |i: int| '0') + s
    } else {
        s
    }
}

/// How `{}` renders an integer: an optional minus sign, then its decimal digits.
pub open spec fn decimal(x: int) -> Seq<char> {
    if x < 0 {
        seq!['-'] + digits_in_base((-x) as nat, 10)
    } else {
        digits_in_base(x as nat, 10)
    }
}

/// How `{:0w}` renders an integer: the sign first, then the digits padded
/// with zeros so that the whole is at least `width` characters long.
pub open spec fn decimal_zero_padded(x: int, width: nat) -> Seq<char> {
    if x < 0 {
        seq!['-'] + zero_padded(digits_in_base((-x) as nat, 10), (width - 1) as nat)
    } else {
        zero_padded(digits_in_base(x as nat, 10), width)
    }
}

/// How `{:0wx}` renders an unsigned integer: lowercase hexadecimal digits
/// padded with zeros to at least `width` characters.
pub open spec fn hex_zero_padded(n: nat, width: nat) -> Seq<char> {
    zero_padded(digits_in_base(n, 16), width)
}

/// How `{:02x}` renders each byte, concatenated.
pub open spec fn hex_bytes(bytes: Seq<u8>) -> Seq<char>
    decreases bytes.len(),
{
    if bytes.len() == 0 {
        Seq::empty()
    } else {
        hex_bytes(bytes.drop_last()) + hex_zero_padded(bytes.last() as nat, 2)
    }
}

/// The one-character string for the digit `d` in base 16 (or 10).
fn digit_str(d: u64) -> (s: &'static str)
    requires
        d < 16,
    ensures
        s@ == seq![hex_digit(d as int)],
{
    if d == 0 { proof { reveal_strlit("0"); } "0" }
    else if d == 1 { proof { reveal_strlit("1"); } "1" }
    else if d == 2 { proof { reveal_strlit("2"); } "2" }
    else if d == 3 { proof { reveal_strlit("3"); } "3" }
    else if d == 4 { proof { reveal_strlit("4"); } "4" }
    else if d == 5 { proof { reveal_strlit("5"); } "5" }
    else if d == 6 { proof { reveal_strlit("6"); } "6" }
    else if d == 7 { proof { reveal_strlit("7"); } "7" }
    else if d == 8 { proof { reveal_strlit("8"); } "8" }
    else if d == 9 { proof { reveal_strlit("9"); } "9" }
    else if d == 10 { proof { reveal_strlit("a"); } "a" }
    else if d == 11 { proof { reveal_strlit("b"); } "b" }
    else if d == 12 { proof { reveal_strlit("c"); } "c" }
    else if d == 13 { proof { reveal_strlit("d"); } "d" }
    else if d == 14 { proof { reveal_strlit("e"); } "e" }
    else { proof { reveal_strlit("f"); } "f" }
}

/// Appends the digits of `n` in base `base` to `out`.
fn append_digits(out: &mut String, n: u64, base: u64)
    requires
        base == 10 || base == 16,
    ensures
        final(out)@ == old(out)@ + digits_in_base(n as nat, base as nat),
    decreases n,
{
    if n < base {
        out.append(digit_str(n));
    } else {
        append_digits(out, n / base, base);
        out.append(digit_str(n % base));
    }
}

/// Appends `count` zero characters to `out`.
fn append_zeros(out: &mut String, count: u64)
    ensures
        final(out)@ == old(out)@ + Seq::new(count as nat, |i: int| '0'),
{
    proof { reveal_strlit("0"); }
    assert("0"@ =~= seq!['0']);
    let mut k: u64 = 0;
    while k < count
        invariant
            k <= count,
            "0"@ == seq!['0'],
            out@ == old(out)@ + Seq::new(k as nat, |i: int| '0'),
        decreases count - k,
    {
        out.append("0");
        k = k + 1;
        assert(out@ =~= old(out)@ + Seq::new(k as nat, |i: int| '0'));
    }
}

/// The digits of `n` in base `base` are never empty, and there are at most
/// as many as the number of base powers that do not exceed `n`.
proof fn lemma_digits_len(n: nat, base: nat)
    requires
        base == 10 || base == 16,
    ensures
        digits_in_base(n, base).len() >= 1,
        n < base ==> digits_in_base(n, base).len() == 1,
        n < base * base ==> digits_in_base(n, base).len() <= 2,
        n < 10000 && base == 10 ==> digits_in_base(n, base).len() <= 4,
        n < 1000 && base == 10 ==> digits_in_base(n, base).len() <= 3,
        n >= base ==> digits_in_base(n, base).len() >= 2,
        n >= 100 && base == 10 ==> digits_in_base(n, base).len() >= 3,
        n >= 1000 && base == 10 ==> digits_in_base(n, base).len() >= 4,
    decreases n,
{
    if n >= base {
        lemma_digits_len(n / base, base);
    }
}

/// Renders `x` as `{}` does.
pub fn render_i32(x: i32) -> (s: String)
    ensures
        s@ == decimal(x as int),
{
    let mut out = String::new();
    if x < 0 {
        proof { reveal_strlit("-"); }
        out.append("-");
        let magnitude: u64 = (0i64 - x as i64) as u64;
        append_digits(&mut out, magnitude, 10);
    } else {
        append_digits(&mut out, x as u64, 10);
    }
    out
}

/// Renders `x` as `{:04}` does.
pub fn render_i32_width4(x: i32) -> (s: String)
    ensures
        s@ == decimal_zero_padded(x as int, 4),
{
    let mut out = String::new();
    if x < 0 {
        proof { reveal_strlit("-"); }
        out.append("-");
        let magnitude: u64 = (0i64 - x as i64) as u64;
        proof { lemma_digits_len(magnitude as nat, 10); }
        if magnitude < 10 {
            append_zeros(&mut out, 2);
        } else if magnitude < 100 {
            append_zeros(&mut out, 1);
        }
        append_digits(&mut out, magnitude, 10);
    } else {
        let magnitude: u64 = x as u64;
        proof { lemma_digits_len(magnitude as nat, 10); }
        if magnitude < 10 {
            append_zeros(&mut out, 3);
        } else if magnitude < 100 {
            append_zeros(&mut out, 2);
        } else if magnitude < 1000 {
            append_zeros(&mut out, 1);
        }
        append_digits(&mut out, magnitude, 10);
    }
    out
}

/// The number of digits of `n` in base `base`.
fn digit_count(n: u64, base: u64) -> (c: u64)
    requires
        base == 10 || base == 16,
    ensures
        c == digits_in_base(n as nat, base as nat).len(),
        c <= n as nat + 1,
    decreases n,
{
    if n < base {
        1
    } else {
        proof {
            assert(n / base + 1 <= n) by (nonlinear_arith)
                requires
                    base >= 2,
                    n >= base,
            ;
        }
        let c = digit_count(n / base, base);
        proof {
            assert(digits_in_base(n as nat, base as nat).len() == digits_in_base(
                (n / base) as nat,
                base as nat,
            ).len() + 1);
        }
        c + 1
    }
}

/// Renders `n` as `{:032x}` does.
pub fn render_hex_u64_width32(n: u64) -> (s: String)
    ensures
        s@ == hex_zero_padded(n as nat, 32),
{
    let mut out = String::new();
    let c = digit_count(n, 16);
    if c < 32 {
        append_zeros(&mut out, 32 - c);
    }
    append_digits(&mut out, n, 16);
    proof {
        assert(out@ =~= hex_zero_padded(n as nat, 32));
    }
    out
}

/// Renders `bytes` as `{:02x}` renders each of them, concatenated.
pub fn render_hex_bytes(bytes: &[u8]) -> (s: String)
    ensures
        s@ == hex_bytes(bytes@),
{
    let mut out = String::new();
    let n = bytes.len();
    let mut i: usize = 0;
    while i < n
        invariant
            n == bytes@.len(),
            i <= n,
            out@ == hex_bytes(bytes@.subrange(0, i as int)),
        decreases n - i,
    {
        let b = bytes[i];
        proof {
            lemma_digits_len(b as nat, 16);
        }
        if b < 16 {
            append_zeros(&mut out, 1);
        }
        append_digits(&mut out, b as u64, 16);
        proof {
            assert(bytes@.subrange(0, i + 1).drop_last() =~= bytes@.subrange(0, i as int));
            assert(out@ =~= hex_bytes(bytes@.subrange(0, i + 1)));
        }
        i = i + 1;
    }
    assert(bytes@.subrange(0, n as int) =~= bytes@);
    out
}

/// `suffix` is a final segment of `s`.
pub open spec fn ends_with_seq(s: Seq<char>, suffix: Seq<char>) -> bool {
    suffix.len() <= s.len() && s.subrange(s.len() - suffix.len(), s.len() as int) == suffix
}

/// `s` with every trailing repetition of a non-empty `suffix` removed
/// (`str::trim_end_matches`).
pub open spec fn trim_end_all(s: Seq<char>, suffix: Seq<char>) -> Seq<char>
    decreases s.len(),
{
    if suffix.len() > 0 && ends_with_seq(s, suffix) {
        trim_end_all(s.subrange(0, s.len() - suffix.len()), suffix)
    } else {
        s
    }
}

/// The part of `s` after the last `c`, or all of `s` when `c` does not
/// occur (the first item of `str::rsplit`).
pub open spec fn after_last(s: Seq<char>, c: char) -> Seq<char>
    decreases s.len(),
{
    if s.len() == 0 {
        s
    } else if s.last() == c {
        Seq::empty()
    } else {
        after_last(s.drop_last(), c).push(s.last())
    }
}

/// The checksum that a stored map file name carries: the last dot-separated
/// part of the name once its `.zip` endings are trimmed
/// (`name.v0001.abc12345.zip` carries `abc12345`).
pub open spec fn filename_checksum(filename: Seq<char>) -> Seq<char> {
    after_last(trim_end_all(filename, seq!['.', 'z', 'i', 'p']), '.')
}

/// Splitting `t` at `k`, where no `c` follows `k`, leaves the part after the
/// last `c` unchanged except for the tail.
proof fn lemma_after_last_split(t: Seq<char>, c: char, k: int)
    requires
        0 <= k <= t.len(),
        forall|m: int| k <= m < t.len() ==> t[m] != c,
    ensures
        after_last(t, c) == after_last(t.subrange(0, k), c) + t.subrange(k, t.len() as int),
    decreases t.len() - k,
{
    if k < t.len() {
        lemma_after_last_split(t.drop_last(), c, k);
        assert(t.drop_last().subrange(0, k) =~= t.subrange(0, k));
        assert(t.subrange(k, t.len() as int) =~= t.drop_last().subrange(k, t.len() - 1).push(
            t.last(),
        ));
    } else {
        assert(t.subrange(0, k) =~= t);
        assert(t.subrange(k, t.len() as int) =~= Seq::<char>::empty());
    }
}

/// The checksum a stored map file name carries (see `filename_checksum`).
pub fn checksum_from_filename(filename: &str) -> (checksum: String)
    ensures
        checksum@ == filename_checksum(filename@),
{
    let ghost zip = seq!['.', 'z', 'i', 'p'];
    let n = filename.unicode_len();
    let mut end: usize = n;
    assert(filename@.subrange(0, n as int) =~= filename@);
    loop
        invariant
            zip == seq!['.', 'z', 'i', 'p'],
            n == filename@.len(),
            end <= n,
            trim_end_all(filename@.subrange(0, end as int), zip) == trim_end_all(filename@, zip),
        ensures
            end <= n,
            trim_end_all(filename@, zip) == filename@.subrange(0, end as int),
        decreases end,
    {
        let ghost t = filename@.subrange(0, end as int);
        if end >= 4 && filename.get_char(end - 4) == '.' && filename.get_char(end - 3) == 'z'
            && filename.get_char(end - 2) == 'i' && filename.get_char(end - 1) == 'p' {
            proof {
                assert(t.subrange(t.len() - 4, t.len() as int) =~= zip);
                assert(t.subrange(0, t.len() - 4) =~= filename@.subrange(0, end - 4));
            }
            end = end - 4;
        } else {
            proof {
                if ends_with_seq(t, zip) {
                    let tail = t.subrange(t.len() - 4, t.len() as int);
                    assert(tail[0] == zip[0] && tail[1] == zip[1] && tail[2] == zip[2] && tail[3]
                        == zip[3]);
                }
                assert(!ends_with_seq(t, zip));
                assert(trim_end_all(t, zip) == t);
            }
            break;
        }
    }
    let ghost t = filename@.subrange(0, end as int);
    let mut k: usize = end;
    while k > 0 && filename.get_char(k - 1) != '.'
        invariant
            n == filename@.len(),
            end <= n,
            k <= end,
            t == filename@.subrange(0, end as int),
            forall|m: int| k <= m < end ==> t[m] != '.',
        decreases k,
    {
        k = k - 1;
    }
    proof {
        lemma_after_last_split(t, '.', k as int);
        if k > 0 {
            assert(t.subrange(0, k as int).last() == '.');
        } else {
            assert(t.subrange(0, 0) =~= Seq::<char>::empty());
        }
        assert(t.subrange(k as int, t.len() as int) =~= filename@.subrange(k as int, end as int));
    }
    String::from_str(filename.substring_char(k, end))
}

/// `c` is one of the ASCII digits `0`..`9`.
pub open spec fn is_decimal_digit(c: char) -> bool {
    '0' <= c && c <= '9'
}

/// The value of the ASCII digit `c`.
pub open spec fn decimal_digit_value(c: char) -> int {
    (c as int) - ('0' as int)
}

/// The value of a string of decimal digits, most significant first.
pub open spec fn decimal_value(s: Seq<char>) -> int
    decreases s.len(),
{
    if s.len() == 0 {
        0
    } else {
        decimal_value(s.drop_last()) * 10 + decimal_digit_value(s.last())
    }
}

/// `s` is made of ASCII digits only.
pub open spec fn all_decimal_digits(s: Seq<char>) -> bool {
    forall|i: int| 0 <= i < s.len() ==> is_decimal_digit(s[i])
}

/// `s` without its leading `+` or `-`, if it has one.
pub open spec fn unsigned_part(s: Seq<char>) -> Seq<char> {
    if s.len() > 0 && (s[0] == '-' || s[0] == '+') {
        s.drop_first()
    } else {
        s
    }
}

/// What `str::parse::<i32>` gives: an optional `+` or `-`, then one or more
/// ASCII digits whose value fits in an `i32`; anything else is refused.
pub open spec fn parsed_i32(s: Seq<char>) -> Option<i32> {
    let body = unsigned_part(s);
    if body.len() == 0 || !all_decimal_digits(body) {
        None
    } else {
        let v = if s[0] == '-' { -decimal_value(body) } else { decimal_value(body) };
        if i32::MIN <= v <= i32::MAX {
            Some(v as i32)
        } else {
            None
        }
    }
}

/// A string of digits is worth at least as much as any of its prefixes.
proof fn lemma_decimal_value_prefix(s: Seq<char>, k: int)
    requires
        0 <= k <= s.len(),
        forall|i: int| 0 <= i < s.len() ==> is_decimal_digit(s[i]),
    ensures
        decimal_value(s) >= decimal_value(s.subrange(0, k)),
        decimal_value(s) >= 0,
    decreases s.len(),
{
    if s.len() > 0 {
        lemma_decimal_value_prefix(s.drop_last(), if k == s.len() { 0 } else { k });
        if k == s.len() {
            assert(s.subrange(0, k) =~= s);
        } else {
            assert(s.drop_last().subrange(0, k) =~= s.subrange(0, k));
        }
    } else {
        assert(s.subrange(0, k) =~= s);
    }
}

/// Parses `s` as `str::parse::<i32>` does; `None` where it refuses.
pub fn parse_i32(s: &str) -> (value: Option<i32>)
    ensures
        value == parsed_i32(s@),
{
    let n = s.unicode_len();
    if n == 0 {
        return None;
    }
    let first = s.get_char(0);
    let negative = first == '-';
    let start: usize = if first == '-' || first == '+' { 1 } else { 0 };
    let ghost body = unsigned_part(s@);
    assert(body =~= s@.subrange(start as int, n as int));
    if start == n {
        return None;
    }
    let mut acc: i64 = 0;
    let mut i: usize = start;
    while i < n
        invariant
            n == s@.len(),
            n > 0,
            start <= i <= n,
            start == 1 <==> (s@[0] == '-' || s@[0] == '+'),
            body == unsigned_part(s@),
            negative == (s@[0] == '-'),
            body == s@.subrange(start as int, n as int),
            forall|m: int| 0 <= m < i - start ==> is_decimal_digit(body[m]),
            acc == decimal_value(body.subrange(0, i - start)),
            0 <= acc <= 2147483648,
        decreases n - i,
    {
        let c = s.get_char(i);
        if !('0' <= c && c <= '9') {
            assert(c == body[i - start]);
            assert(!is_decimal_digit(body[i - start]));
            assert(!all_decimal_digits(body));
            return None;
        }
        let d = (c as u32 - '0' as u32) as i64;
        proof {
            assert(body.subrange(0, i + 1 - start).drop_last() =~= body.subrange(0, i - start));
        }
        acc = acc * 10 + d;
        i = i + 1;
        if acc > 2147483648 {
            proof {
                if all_decimal_digits(body) {
                    lemma_decimal_value_prefix(body, i - start);
                }
            }
            return None;
        }
    }
    proof {
        assert(body.subrange(0, n - start) =~= body);
    }
    if negative {
        Some((0 - acc) as i32)
    } else if acc <= 2147483647 {
        Some(acc as i32)
    } else {
        None
    }
}

} // verus!
