use vstd::prelude::*;

verus! {

/// A decimal digit.
pub open spec fn is_digit(c: char) -> bool {
    '0' <= c && c <= '9'
}

/// Every character of the sequence is a decimal digit.
pub open spec fn all_digits(s: Seq<char>) -> bool {
    forall|i: int| 0 <= i < s.len() ==> is_digit(#[trigger] s[i])
}

/// The numeric value of one digit character.
pub open spec fn digit_val(c: char) -> int {
    c as int - '0' as int
}

/// The value of a digit string read as a base-ten numeral.
pub open spec fn spec_dec_value(s: Seq<char>) -> int
    decreases s.len(),
{
    if s.len() == 0 {
        0
    } else {
        spec_dec_value(s.drop_last()) * 10 + digit_val(s.last())
    }
}

/// The canonical base-ten numeral of a number: no sign, no leading zero
/// except for the number zero itself.
pub open spec fn spec_dec_digits(n: int) -> Seq<char>
    decreases n,
{
    if n <= 9 {
        seq![spec_digit_char(n)]
    } else {
        spec_dec_digits(n / 10).push(spec_digit_char(n % 10))
    }
}

/// The digit character for one value below ten.
pub open spec fn spec_digit_char(d: int) -> char {
    if d == 0 {
        '0'
    } else if d == 1 {
        '1'
    } else if d == 2 {
        '2'
    } else if d == 3 {
        '3'
    } else if d == 4 {
        '4'
    } else if d == 5 {
        '5'
    } else if d == 6 {
        '6'
    } else if d == 7 {
        '7'
    } else if d == 8 {
        '8'
    } else {
        '9'
    }
}

/// A one-character string holding the digit for `d`.
fn digit_str(d: u64) -> (r: &'static str)
    requires
        d <= 9,
    ensures
        r@ =~= seq![spec_digit_char(d as int)],
{
    proof {
        reveal_strlit("0");
        reveal_strlit("1");
        reveal_strlit("2");
        reveal_strlit("3");
        reveal_strlit("4");
        reveal_strlit("5");
        reveal_strlit("6");
        reveal_strlit("7");
        reveal_strlit("8");
        reveal_strlit("9");
    }
    if d == 0 {
        "0"
    } else if d == 1 {
        "1"
    } else if d == 2 {
        "2"
    } else if d == 3 {
        "3"
    } else if d == 4 {
        "4"
    } else if d == 5 {
        "5"
    } else if d == 6 {
        "6"
    } else if d == 7 {
        "7"
    } else if d == 8 {
        "8"
    } else {
        "9"
    }
}

/// Renders a number as its canonical base-ten numeral.
pub fn u64_to_string(n: u64) -> (r: String)
    ensures
        r@ == spec_dec_digits(n as int),
    decreases n,
{
    let d: u64 = n % 10;
    let ds: &str = digit_str(d);
    if n <= 9 {
        String::from_str(ds)
    } else {
        let r = u64_to_string(n / 10).concat(ds);
        proof {
            assert(r@ =~= spec_dec_digits(n as int));
        }
        r
    }
}

/// Extending a digit string on the right never shrinks its value.
pub proof fn lemma_dec_value_nonneg(s: Seq<char>)
    requires
        all_digits(s),
    ensures
        spec_dec_value(s) >= 0,
    decreases s.len(),
{
    if s.len() > 0 {
        assert(all_digits(s.drop_last())) by {
            assert(forall|i: int|
                0 <= i < s.len() - 1 ==> #[trigger] s.drop_last()[i] == s[i]);
        }
        lemma_dec_value_nonneg(s.drop_last());
    }
}

/// The value of a prefix of a digit string is at most the whole value.
proof fn lemma_dec_value_prefix_le(s: Seq<char>, k: int)
    requires
        all_digits(s),
        0 <= k <= s.len(),
    ensures
        spec_dec_value(s.take(k)) <= spec_dec_value(s),
    decreases s.len() - k,
{
    if k == s.len() {
        assert(s.take(k) =~= s);
    } else {
        assert(s.take(k + 1).drop_last() =~= s.take(k));
        assert(s.take(k + 1).last() == s[k]);
        assert(all_digits(s.take(k))) by {
            assert(forall|i: int| 0 <= i < k ==> #[trigger] s.take(k)[i] == s[i]);
        }
        lemma_dec_value_nonneg(s.take(k));
        lemma_dec_value_prefix_le(s, k + 1);
    }
}

/// Reads a base-ten numeral.  Returns the value exactly when the text is a
/// non-empty string of digits whose value fits the machine word; every other
/// text is rejected.
pub fn parse_u64(s: &str) -> (r: Option<u64>)
    ensures
        r is Some <==> (s@.len() > 0 && all_digits(s@) && spec_dec_value(s@) <= u64::MAX),
        r matches Some(v) ==> v == spec_dec_value(s@),
{
    let n: usize = s.unicode_len();
    if n == 0 {
        return None;
    }
    let mut acc: u64 = 0;
    let mut i: usize = 0;
    while i < n
        invariant
            n == s@.len(),
            0 <= i <= n,
            all_digits(s@.take(i as int)),
            acc == spec_dec_value(s@.take(i as int)),
        decreases n - i,
    {
        let c: char = s.get_char(i);
        proof {
            assert(s@.take(i + 1).drop_last() =~= s@.take(i as int));
            assert(s@.take(i + 1).last() == s@[i as int]);
        }
        if !(c >= '0' && c <= '9') {
            assert(!all_digits(s@)) by {
                assert(s@[i as int] == c);
            }
            return None;
        }
        let d: u64 = (c as u32 - '0' as u32) as u64;
        if acc > (u64::MAX - d) / 10 {
            proof {
                assert(acc * 10 + d > u64::MAX) by {
                    let y: int = (u64::MAX - d) as int;
                    assert(y / 10 * 10 + y % 10 == y) by {
                        vstd::arithmetic::div_mod::lemma_fundamental_div_mod(y, 10);
                    }
                };
                if all_digits(s@) && spec_dec_value(s@) <= u64::MAX {
                    lemma_dec_value_prefix_le(s@, i + 1);
                    assert(false);
                }
            }
            return None;
        }
        proof {
            assert(acc * 10 + d <= u64::MAX) by {
                let y: int = (u64::MAX - d) as int;
                assert(y / 10 * 10 + y % 10 == y) by {
                    vstd::arithmetic::div_mod::lemma_fundamental_div_mod(y, 10);
                }
            };
        }
        acc = acc * 10 + d;
        i = i + 1;
    }
    proof {
        assert(s@.take(n as int) =~= s@);
    }
    Some(acc)
}

/// Compares two strings character by character.
pub fn str_eq(a: &str, b: &str) -> (r: bool)
    ensures
        r <==> a@ == b@,
{
    let n: usize = a.unicode_len();
    let m: usize = b.unicode_len();
    if n != m {
        return false;
    }
    let mut i: usize = 0;
    while i < n
        invariant
            n == a@.len() == b@.len(),
            0 <= i <= n,
            forall|j: int| 0 <= j < i ==> a@[j] == b@[j],
        decreases n - i,
    {
        if a.get_char(i) != b.get_char(i) {
            return false;
        }
        i = i + 1;
    }
    proof {
        assert(a@ =~= b@);
    }
    true
}

/// The least index at or after `from` where `c` occurs, or -1 when it does
/// not occur there.
pub open spec fn spec_first_index_of(s: Seq<char>, c: char, from: int) -> int
    decreases s.len() - from,
{
    if from < 0 || from >= s.len() {
        -1
    } else if s[from] == c {
        from
    } else {
        spec_first_index_of(s, c, from + 1)
    }
}

/// What the first index means: it is an occurrence and nothing before it
/// is one, and -1 means there is none.
pub proof fn lemma_first_index_of(s: Seq<char>, c: char, from: int)
    requires
        0 <= from <= s.len(),
    ensures
        spec_first_index_of(s, c, from) >= -1,
        spec_first_index_of(s, c, from) == -1 ==> (forall|j: int|
            from <= j < s.len() ==> s[j] != c),
        spec_first_index_of(s, c, from) >= 0 ==> {
            &&& from <= spec_first_index_of(s, c, from) < s.len()
            &&& s[spec_first_index_of(s, c, from)] == c
            &&& forall|j: int| from <= j < spec_first_index_of(s, c, from) ==> s[j] != c
        },
    decreases s.len() - from,
{
    if from < s.len() && s[from] != c {
        lemma_first_index_of(s, c, from + 1);
    }
}

/// Finds the first occurrence of a character.
pub fn find_first(s: &str, c: char) -> (r: Option<usize>)
    ensures
        r matches Some(k) ==> k < s@.len() && spec_first_index_of(s@, c, 0) == k,
        r is None ==> spec_first_index_of(s@, c, 0) == -1,
{
    let n: usize = s.unicode_len();
    let mut i: usize = 0;
    while i < n
        invariant
            n == s@.len(),
            0 <= i <= n,
            spec_first_index_of(s@, c, 0) == spec_first_index_of(s@, c, i as int),
        decreases n - i,
    {
        if s.get_char(i) == c {
            return Some(i);
        }
        i = i + 1;
    }
    None
}

/// A digit string of at most three digits stays below 1000.
proof fn lemma_dec_value_small(s: Seq<char>, bound: int)
    requires
        all_digits(s),
        s.len() <= 3,
        bound == 3,
    ensures
        0 <= spec_dec_value(s) < 1000,
        s.len() <= 2 ==> spec_dec_value(s) < 100,
        s.len() <= 1 ==> spec_dec_value(s) < 10,
    decreases s.len(),
{
    if s.len() > 0 {
        assert(all_digits(s.drop_last())) by {
            assert(forall|i: int|
                0 <= i < s.len() - 1 ==> #[trigger] s.drop_last()[i] == s[i]);
        }
        lemma_dec_value_small(s.drop_last(), bound);
    }
}

/// The number of milliseconds written as a decimal count of seconds with
/// an optional fraction, or -1 when the text is not such a numeral or is
/// empty.  A fraction beyond millisecond precision is truncated.
pub open spec fn spec_sec_ms(s: Seq<char>) -> int {
    let d = spec_first_index_of(s, '.', 0);
    if d == -1 {
        if s.len() > 0 && all_digits(s) {
            spec_dec_value(s) * 1000
        } else {
            -1
        }
    } else {
        let ip = s.take(d);
        let fp = s.skip(d + 1);
        if ip.len() + fp.len() > 0 && all_digits(ip) && all_digits(fp) {
            spec_dec_value(ip) * 1000 + spec_frac_ms(fp)
        } else {
            -1
        }
    }
}

/// The millisecond value of a fraction written after the seconds' dot.
pub open spec fn spec_frac_ms(fp: Seq<char>) -> int {
    if fp.len() >= 3 {
        spec_dec_value(fp.take(3))
    } else if fp.len() == 2 {
        spec_dec_value(fp) * 10
    } else if fp.len() == 1 {
        spec_dec_value(fp) * 100
    } else {
        0
    }
}

/// Parses a non-empty string of digits as a value, allowing the empty
/// string to mean zero.
fn parse_digits_or_zero(s: &str) -> (r: Option<u64>)
    ensures
        r is Some <==> (all_digits(s@) && spec_dec_value(s@) <= u64::MAX),
        r matches Some(v) ==> v == spec_dec_value(s@),
{
    if s.unicode_len() == 0 {
        Some(0)
    } else {
        parse_u64(s)
    }
}

/// Decides whether every character is a decimal digit.
pub fn check_all_digits(s: &str) -> (r: bool)
    ensures
        r <==> all_digits(s@),
{
    let n: usize = s.unicode_len();
    let mut i: usize = 0;
    while i < n
        invariant
            n == s@.len(),
            0 <= i <= n,
            forall|j: int| 0 <= j < i ==> is_digit(#[trigger] s@[j]),
        decreases n - i,
    {
        let c: char = s.get_char(i);
        if !(c >= '0' && c <= '9') {
            return false;
        }
        i = i + 1;
    }
    true
}

/// Reads a count of seconds with an optional decimal fraction and returns
/// it in milliseconds, truncated to millisecond precision.  Rejects any
/// other text, and a value too large for the machine word.
pub fn parse_sec_ms(s: &str) -> (r: Option<u64>)
    ensures
        r is Some <==> 0 <= spec_sec_ms(s@) <= u64::MAX,
        r matches Some(v) ==> v == spec_sec_ms(s@),
{
    let n: usize = s.unicode_len();
    let d: usize = match find_first(s, '.') {
        Some(d) => d,
        None => {
            match parse_u64(s) {
                Some(v) => {
                    proof {
                        lemma_dec_value_nonneg(s@);
                        let y: int = u64::MAX as int;
                        assert(y / 1000 * 1000 + y % 1000 == y) by {
                            vstd::arithmetic::div_mod::lemma_fundamental_div_mod(y, 1000);
                        }
                    }
                    if v > u64::MAX / 1000 {
                        return None;
                    }
                    return Some(v * 1000);
                },
                None => {
                    proof {
                        if s@.len() > 0 && all_digits(s@) {
                            lemma_dec_value_nonneg(s@);
                        }
                    }
                    return None;
                },
            }
        },
    };
    let ip: &str = s.substring_char(0, d);
    let fp: &str = s.substring_char(d + 1, n);
    proof {
        assert(ip@ =~= s@.take(d as int));
        assert(fp@ =~= s@.skip(d + 1));
    }
    let m: usize = fp.unicode_len();
    if d == 0 && m == 0 {
        return None;
    }
    if !check_all_digits(fp) {
        return None;
    }
    let ival: u64 = match parse_digits_or_zero(ip) {
        Some(v) => v,
        None => {
            proof {
                if all_digits(ip@) {
                    // only a too-large integer part is left: the value is
                    // then beyond the machine word
                    lemma_dec_value_nonneg(ip@);
                    if m >= 3 {
                        lemma_dec_value_small(fp@.take(3), 3);
                    } else {
                        lemma_dec_value_small(fp@, 3);
                    }
                }
            }
            return None;
        },
    };
    let frac_text: &str = if m >= 3 {
        fp.substring_char(0, 3)
    } else {
        fp
    };
    proof {
        if m >= 3 {
            assert(frac_text@ =~= fp@.take(3));
            assert(all_digits(fp@.take(3))) by {
                assert(forall|j: int| 0 <= j < 3 ==> #[trigger] fp@.take(3)[j] == fp@[j]);
            }
            lemma_dec_value_small(fp@.take(3), 3);
        } else {
            lemma_dec_value_small(fp@, 3);
        }
    }
    let fval0: u64 = match parse_digits_or_zero(frac_text) {
        Some(v) => v,
        None => {
            // unreachable: the fraction was checked digit by digit and a
            // three-digit value always fits
            return None;
        },
    };
    let fval: u64 = if m == 1 {
        fval0 * 100
    } else if m == 2 {
        fval0 * 10
    } else {
        fval0
    };
    proof {
        lemma_dec_value_nonneg(ip@);
        assert(fval == spec_frac_ms(fp@));
        assert(0 <= fval < 1000);
        let y: int = (u64::MAX - fval) as int;
        assert(y / 1000 * 1000 + y % 1000 == y) by {
            vstd::arithmetic::div_mod::lemma_fundamental_div_mod(y, 1000);
        }
    }
    if ival > (u64::MAX - fval) / 1000 {
        return None;
    }
    Some(ival * 1000 + fval)
}

/// The decimal rendering of a millisecond count as seconds: the whole
/// seconds, and when a fraction remains, a dot and exactly three fraction
/// digits.
pub open spec fn spec_seconds_text(ms: int) -> Seq<char> {
    if ms % 1000 == 0 {
        spec_dec_digits(ms / 1000)
    } else {
        spec_dec_digits(ms / 1000) + seq!['.'] + spec_frac3_text(ms % 1000)
    }
}

/// Three zero-padded digits for a millisecond remainder.
pub open spec fn spec_frac3_text(f: int) -> Seq<char> {
    if f < 10 {
        seq!['0', '0'] + spec_dec_digits(f)
    } else if f < 100 {
        seq!['0'] + spec_dec_digits(f)
    } else {
        spec_dec_digits(f)
    }
}

/// Renders a millisecond count as the seconds text handed to the
/// transcoder's seek options.
pub fn format_sec(ms: u64) -> (r: String)
    ensures
        r@ == spec_seconds_text(ms as int),
{
    let whole: u64 = ms / 1000;
    let frac: u64 = ms % 1000;
    let w: String = u64_to_string(whole);
    if frac == 0 {
        return w;
    }
    let f: String = u64_to_string(frac);
    let padded: String = if frac < 10 {
        String::from_str("00").concat(f.as_str())
    } else if frac < 100 {
        String::from_str("0").concat(f.as_str())
    } else {
        f
    };
    let r: String = w.concat(".").concat(padded.as_str());
    proof {
        reveal_strlit("00");
        reveal_strlit("0");
        reveal_strlit(".");
        assert(padded@ =~= spec_frac3_text(ms as int % 1000));
        assert(r@ =~= spec_seconds_text(ms as int));
    }
    r
}

} // verus!
