use vstd::prelude::*;
use vstd::string::*;

verus! {

/// Appends one character. Relies on `String::push`.
#[verifier::external_body]
pub(crate) fn push_char(s: &mut String, c: char)
    ensures
        final(s)@ == old(s)@.push(c),
{
    s.push(c);
}

/// The characters of a string slice, as a vector.
pub fn chars_of(s: &str) -> (v: Vec<char>)
    ensures
        v@ == s@,
{
    let n: usize = s.unicode_len();
    let mut v: Vec<char> = Vec::new();
    let mut i: usize = 0;
    while i < n
        invariant
            0 <= i <= n,
            n == s@.len(),
            v@ == s@.take(i as int),
        decreases n - i,
    {
        v.push(s.get_char(i));
        proof {
            assert(v@ =~= s@.take(i + 1));
        }
        i += 1;
    }
    proof {
        assert(s@.take(n as int) =~= s@);
    }
    v
}

/// A string holding exactly the given characters.
pub fn string_of(v: &Vec<char>) -> (s: String)
    ensures
        s@ == v@,
{
    let n: usize = v.len();
    let mut s: String = String::new();
    let mut i: usize = 0;
    while i < n
        invariant
            0 <= i <= n,
            n == v.len(),
            s@ == v@.take(i as int),
        decreases n - i,
    {
        push_char(&mut s, v[i]);
        proof {
            assert(s@ =~= v@.take(i + 1));
        }
        i += 1;
    }
    proof {
        assert(v@.take(n as int) =~= v@);
    }
    s
}

/// A string holding the given character range of `v`.
pub fn string_of_range(v: &Vec<char>, lo: usize, hi: usize) -> (s: String)
    requires
        lo <= hi <= v@.len(),
    ensures
        s@ == v@.subrange(lo as int, hi as int),
{
    let mut s: String = String::new();
    let mut i: usize = lo;
    while i < hi
        invariant
            lo <= i <= hi <= v@.len(),
            s@ == v@.subrange(lo as int, i as int),
        decreases hi - i,
    {
        push_char(&mut s, v[i]);
        proof {
            assert(s@ =~= v@.subrange(lo as int, i + 1));
        }
        i += 1;
    }
    s
}

/// The position of the first occurrence of `c` in `s`, or `s.len()` if there
/// is none.
pub open spec fn spec_first_at(s: Seq<char>, c: char) -> int
    decreases s.len(),
{
    if s.len() == 0 {
        0
    } else if s[0] == c {
        0
    } else {
        1 + spec_first_at(s.drop_first(), c)
    }
}

/// Pins [`spec_first_at`] down from what a scan observed: nothing matched
/// before `i`, and `i` is a match or the end.
pub proof fn lemma_first_at_is(s: Seq<char>, c: char, i: int)
    requires
        0 <= i <= s.len(),
        forall|j: int| 0 <= j < i ==> s[j] != c,
        i < s.len() ==> s[i] == c,
    ensures
        spec_first_at(s, c) == i,
    decreases s.len(),
{
    if s.len() > 0 && i > 0 {
        lemma_first_at_is(s.drop_first(), c, i - 1);
    }
}

/// The pieces of `s` between occurrences of the separator, in order. An
/// empty input yields one empty piece, and adjacent separators yield empty
/// pieces, exactly as `str::split` does.
pub open spec fn spec_split(s: Seq<char>, sep: char) -> Seq<Seq<char>>
    decreases s.len(),
{
    let i = spec_first_at(s, sep);
    if 0 <= i < s.len() {
        seq![s.take(i)] + spec_split(s.skip(i + 1), sep)
    } else {
        seq![s]
    }
}

/// Splits the characters of `v` on the separator.
pub fn split_chars(v: &Vec<char>, sep: char) -> (r: Vec<String>)
    ensures
        r.deep_view() == spec_split(v@, sep),
{
    let n: usize = v.len();
    let mut done: Vec<String> = Vec::new();
    let mut cur: String = String::new();
    let ghost mut start: int = 0;
    let mut i: usize = 0;
    proof {
        assert(done.deep_view() =~= Seq::<Seq<char>>::empty());
        assert(v@.skip(0) =~= v@);
        assert(Seq::<Seq<char>>::empty() + spec_split(v@, sep) =~= spec_split(v@, sep));
    }
    while i < n
        invariant
            0 <= start <= i <= n,
            n == v.len(),
            cur@ == v@.subrange(start, i as int),
            forall|j: int| start <= j < i ==> v@[j] != sep,
            spec_split(v@, sep) == done.deep_view() + spec_split(v@.skip(start), sep),
        decreases n - i,
    {
        let c = v[i];
        if c == sep {
            proof {
                let tail = v@.skip(start);
                assert forall|j: int| 0 <= j < i - start implies tail[j] != sep by {
                    assert(tail[j] == v@[start + j]);
                }
                lemma_first_at_is(tail, sep, i - start);
                assert(tail.take(i - start) =~= v@.subrange(start, i as int));
                assert(tail.skip(i - start + 1) =~= v@.skip(i + 1));
                assert(spec_split(v@.skip(start), sep) == seq![cur@] + spec_split(
                    v@.skip(i + 1),
                    sep,
                ));
            }
            let ghost done0 = done.deep_view();
            done.push(cur);
            proof {
                assert(done.deep_view() =~= done0.push(cur@));
                assert(done0.push(cur@) + spec_split(v@.skip(i + 1), sep) =~= done0 + (seq![
                    v@.subrange(start, i as int),
                ] + spec_split(v@.skip(i + 1), sep)));
            }
            cur = String::new();
            proof {
                start = i + 1;
                assert(cur@ =~= v@.subrange(start, i + 1));
            }
        } else {
            push_char(&mut cur, c);
            proof {
                assert(cur@ =~= v@.subrange(start, i + 1));
            }
        }
        i += 1;
    }
    proof {
        let tail = v@.skip(start);
        assert forall|j: int| 0 <= j < n - start implies tail[j] != sep by {
            assert(tail[j] == v@[start + j]);
        }
        lemma_first_at_is(tail, sep, n - start);
        assert(cur@ =~= tail);
    }
    let ghost done0 = done.deep_view();
    let ghost curv = cur@;
    done.push(cur);
    proof {
        assert(done.deep_view() =~= done0.push(curv));
        assert(done0.push(curv) =~= done0 + seq![v@.skip(start)]);
        assert(done.deep_view() =~= spec_split(v@, sep));
    }
    done
}

/// The decimal digit character for `d` (which must be a single digit).
pub open spec fn spec_digit(d: int) -> char {
    ((48 + d) as u8) as char
}

/// The decimal representation of a nonnegative number, most significant
/// digit first and without leading zeros.
pub open spec fn spec_dec(n: int) -> Seq<char>
    decreases n,
{
    if n < 10 {
        seq![spec_digit(n)]
    } else {
        spec_dec(n / 10).push(spec_digit(n % 10))
    }
}

/// The decimal representation of `n`.
pub fn u64_dec(n: u64) -> (s: String)
    ensures
        s@ == spec_dec(n as int),
{
    let mut tmp: Vec<char> = Vec::new();
    let mut cur: u64 = n;
    let d0: u8 = (cur % 10) as u8;
    tmp.push((48 + d0) as char);
    cur = cur / 10;
    proof {
        assert(tmp@.reverse() =~= seq![spec_digit(n as int % 10)]);
        if n >= 10 {
            assert(spec_dec(n as int) =~= spec_dec(n as int / 10) + tmp@.reverse());
        } else {
            assert(spec_dec(n as int) =~= tmp@.reverse());
        }
    }
    while cur > 0
        invariant
            cur > 0 ==> spec_dec(n as int) == spec_dec(cur as int) + tmp@.reverse(),
            cur == 0 ==> spec_dec(n as int) == tmp@.reverse(),
            tmp@.len() >= 1,
        decreases cur,
    {
        let ghost tmp0 = tmp@;
        let ghost cur0 = cur as int;
        let d: u8 = (cur % 10) as u8;
        tmp.push((48 + d) as char);
        cur = cur / 10;
        proof {
            assert(tmp@.reverse() =~= seq![spec_digit(cur0 % 10)] + tmp0.reverse());
            if cur0 >= 10 {
                assert(spec_dec(cur0) + tmp0.reverse() =~= spec_dec(cur0 / 10) + tmp@.reverse());
            } else {
                assert(spec_dec(cur0) =~= seq![spec_digit(cur0)]);
                assert(spec_dec(cur0) + tmp0.reverse() =~= tmp@.reverse());
            }
        }
    }
    let m: usize = tmp.len();
    let mut s: String = String::new();
    let mut k: usize = m;
    proof {
        assert(s@ =~= tmp@.subrange(m as int, m as int).reverse());
    }
    while k > 0
        invariant
            0 <= k <= m,
            m == tmp.len(),
            s@ == tmp@.subrange(k as int, m as int).reverse(),
        decreases k,
    {
        k -= 1;
        push_char(&mut s, tmp[k]);
        proof {
            assert(s@ =~= tmp@.subrange(k as int, m as int).reverse());
        }
    }
    proof {
        assert(tmp@.subrange(0, m as int) =~= tmp@);
    }
    s
}

/// `digits`, zero-padded on the left to at least `width` characters.
pub open spec fn spec_zero_pad(digits: Seq<char>, width: int) -> Seq<char> {
    if digits.len() >= width {
        digits
    } else {
        Seq::new((width - digits.len()) as nat, |i: int| '0') + digits
    }
}

/// `digits`, zero-padded on the left to at least `width` characters.
pub fn zero_pad(digits: &str, width: usize) -> (s: String)
    ensures
        s@ == spec_zero_pad(digits@, width as int),
{
    let n: usize = digits.unicode_len();
    if n >= width {
        return digits.to_owned();
    }
    let mut s: String = String::new();
    let mut k: usize = 0;
    while k < width - n
        invariant
            0 <= k <= width - n,
            n == digits@.len(),
            n < width,
            s@ == Seq::new(k as nat, |i: int| '0'),
        decreases width - n - k,
    {
        push_char(&mut s, '0');
        proof {
            assert(s@ =~= Seq::new((k + 1) as nat, |i: int| '0'));
        }
        k += 1;
    }
    s.append(digits);
    proof {
        assert(s@ =~= spec_zero_pad(digits@, width as int));
    }
    s
}

/// Whether every character of `s` is a decimal digit.
pub open spec fn spec_all_digits(s: Seq<char>) -> bool {
    forall|i: int| 0 <= i < s.len() ==> '0' <= #[trigger] s[i] <= '9'
}

/// The number a string of decimal digits denotes.
pub open spec fn spec_digits_val(s: Seq<char>) -> int
    decreases s.len(),
{
    if s.len() == 0 {
        0
    } else {
        spec_digits_val(s.drop_last()) * 10 + (s.last() as int - 48)
    }
}

/// A string of decimal digits denotes a nonnegative number.
proof fn lemma_digits_val_nonneg(s: Seq<char>)
    requires
        spec_all_digits(s),
    ensures
        spec_digits_val(s) >= 0,
    decreases s.len(),
{
    if s.len() > 0 {
        assert(spec_all_digits(s.drop_last()));
        lemma_digits_val_nonneg(s.drop_last());
    }
}

/// Appending digits never shrinks the denoted number.
proof fn lemma_digits_val_prefix(s: Seq<char>, j: int)
    requires
        spec_all_digits(s),
        0 <= j <= s.len(),
    ensures
        spec_digits_val(s) >= spec_digits_val(s.take(j)),
    decreases s.len(),
{
    if j < s.len() {
        assert(spec_all_digits(s.drop_last()));
        assert(s.drop_last().take(j) =~= s.take(j));
        lemma_digits_val_prefix(s.drop_last(), j);
        lemma_digits_val_nonneg(s.drop_last());
    } else {
        assert(s.take(j) =~= s);
    }
}

/// What parsing an optionally signed decimal integer yields, exactly as
/// `i64::from_str` decides it: an optional sign, at least one digit, and a
/// value within the 64-bit signed range.
pub open spec fn spec_parse_i64(s: Seq<char>) -> Option<int> {
    let neg = s.len() > 0 && s[0] == '-';
    let digits = if s.len() > 0 && (s[0] == '-' || s[0] == '+') {
        s.drop_first()
    } else {
        s
    };
    if digits.len() == 0 || !spec_all_digits(digits) {
        None
    } else {
        let v = if neg {
            -spec_digits_val(digits)
        } else {
            spec_digits_val(digits)
        };
        if i64::MIN <= v <= i64::MAX {
            Some(v)
        } else {
            None
        }
    }
}

/// Parses an optionally signed decimal integer.
pub fn parse_i64(raw: &str) -> (r: Option<i64>)
    ensures
        (r matches Some(t) ==> spec_parse_i64(raw@) == Some(t as int)),
        (r is None ==> spec_parse_i64(raw@) is None),
{
    let v = chars_of(raw);
    let n: usize = v.len();
    let neg: bool = n > 0 && v[0] == '-';
    let start: usize = if n > 0 && (v[0] == '-' || v[0] == '+') {
        1
    } else {
        0
    };
    proof {
        assert(v@.subrange(start as int, n as int) =~= (if raw@.len() > 0 && (raw@[0] == '-'
            || raw@[0] == '+') {
            raw@.drop_first()
        } else {
            raw@
        }));
    }
    let ghost digits = v@.subrange(start as int, n as int);
    if n == start {
        return None;
    }
    let limit: u64 = if neg {
        9223372036854775808
    } else {
        9223372036854775807
    };
    let mut acc: u64 = 0;
    let mut k: usize = start;
    proof {
        assert(v@.subrange(start as int, start as int) =~= Seq::<char>::empty());
    }
    while k < n
        invariant
            start <= k <= n,
            n == v.len(),
            v@ == raw@,
            digits == v@.subrange(start as int, n as int),
            digits == (if raw@.len() > 0 && (raw@[0] == '-' || raw@[0] == '+') {
                raw@.drop_first()
            } else {
                raw@
            }),
            digits.len() > 0,
            neg == (raw@.len() > 0 && raw@[0] == '-'),
            spec_all_digits(v@.subrange(start as int, k as int)),
            acc as int == spec_digits_val(v@.subrange(start as int, k as int)),
            acc <= limit,
            limit == (if neg {
                9223372036854775808u64
            } else {
                9223372036854775807u64
            }),
        decreases n - k,
    {
        let c = v[k];
        if c < '0' || c > '9' {
            proof {
                assert(digits[k - start] == v@[k as int]);
                assert(!spec_all_digits(digits));
            }
            return None;
        }
        let d: u64 = (c as u64) - 48;
        let ghost prefix = v@.subrange(start as int, k as int);
        proof {
            assert(v@.subrange(start as int, k + 1).drop_last() =~= prefix);
            assert(v@.subrange(start as int, k + 1).last() == v@[k as int]);
            vstd::arithmetic::div_mod::lemma_fundamental_div_mod((limit - d) as int, 10);
        }
        if acc > (limit - d) / 10 {
            proof {
                assert(acc as int * 10 + d as int > limit as int);
                if spec_all_digits(digits) {
                    assert(spec_all_digits(v@.subrange(start as int, k + 1)));
                    assert(digits.take(k + 1 - start) =~= v@.subrange(start as int, k + 1));
                    lemma_digits_val_prefix(digits, k + 1 - start);
                    assert(spec_digits_val(digits) > limit as int);
                }
                assert(spec_parse_i64(raw@) is None);
            }
            return None;
        }
        proof {
            assert(acc as int * 10 + d as int <= limit as int);
        }
        acc = acc * 10 + d;
        k += 1;
    }
    proof {
        assert(v@.subrange(start as int, n as int) =~= digits);
        lemma_digits_val_nonneg(digits);
    }
    if neg {
        if acc == 9223372036854775808 {
            Some(i64::MIN)
        } else {
            Some(-(acc as i64))
        }
    } else {
        Some(acc as i64)
    }
}

/// Whether `pat` occurs in `s` starting at position `i`.
pub fn matches_at(s: &Vec<char>, i: usize, pat: &Vec<char>) -> (r: bool)
    requires
        i <= s@.len(),
    ensures
        r == (i + pat@.len() <= s@.len() && s@.subrange(i as int, i + pat@.len()) == pat@),
{
    let n: usize = s.len();
    let m: usize = pat.len();
    if n - i < m {
        return false;
    }
    let mut j: usize = 0;
    while j < m
        invariant
            0 <= j <= m,
            n == s@.len(),
            m == pat.len(),
            i + m <= n,
            forall|q: int| 0 <= q < j ==> s@[i + q] == pat@[q],
        decreases m - j,
    {
        if s[i + j] != pat[j] {
            proof {
                assert(s@.subrange(i as int, i + pat@.len())[j as int] != pat@[j as int]);
            }
            return false;
        }
        j += 1;
    }
    proof {
        assert(s@.subrange(i as int, i + pat@.len()) =~= pat@);
    }
    true
}

/// Whether `pat` occurs somewhere in `s`.
pub open spec fn spec_contains_sub(s: Seq<char>, pat: Seq<char>) -> bool {
    exists|i: int| 0 <= i <= s.len() - pat.len() && #[trigger] s.subrange(i, i + pat.len()) == pat
}

/// Whether `pat` occurs somewhere in `s`.
pub fn contains_sub(s: &Vec<char>, pat: &Vec<char>) -> (r: bool)
    ensures
        r == spec_contains_sub(s@, pat@),
{
    let n: usize = s.len();
    let m: usize = pat.len();
    if m == 0 {
        proof {
            assert(s@.subrange(0, 0 + pat@.len() as int) =~= pat@);
        }
        return true;
    }
    if m > n {
        proof {
            assert(!spec_contains_sub(s@, pat@));
        }
        return false;
    }
    let mut i: usize = 0;
    while i <= n - m
        invariant
            0 <= i <= n - m + 1,
            1 <= m <= n,
            n == s@.len(),
            m == pat@.len(),
            forall|q: int| 0 <= q < i ==> #[trigger] s@.subrange(q, q + pat@.len()) != pat@,
        decreases n - i,
    {
        if matches_at(s, i, pat) {
            return true;
        }
        i += 1;
    }
    proof {
        assert(!spec_contains_sub(s@, pat@));
    }
    false
}

/// `s` with every occurrence of `pat` replaced by `rep`, scanning from the
/// left and never rescanning replaced text, exactly as `str::replace` does.
/// An empty pattern replaces nothing.
pub open spec fn spec_replace(s: Seq<char>, pat: Seq<char>, rep: Seq<char>) -> Seq<char>
    decreases s.len(),
{
    if pat.len() == 0 || s.len() < pat.len() {
        s
    } else if s.take(pat.len() as int) == pat {
        rep + spec_replace(s.skip(pat.len() as int), pat, rep)
    } else {
        seq![s[0]] + spec_replace(s.drop_first(), pat, rep)
    }
}

/// `s` with every occurrence of `pat` replaced by `rep`.
pub fn replace_sub(s: &Vec<char>, pat: &Vec<char>, rep: &str) -> (r: String)
    ensures
        r@ == spec_replace(s@, pat@, rep@),
{
    let n: usize = s.len();
    let m: usize = pat.len();
    if m == 0 {
        return string_of(s);
    }
    let mut out: String = String::new();
    let mut i: usize = 0;
    proof {
        assert(s@.skip(0) =~= s@);
        assert(out@ + spec_replace(s@, pat@, rep@) =~= spec_replace(s@, pat@, rep@));
    }
    while i < n
        invariant
            0 <= i <= n,
            n == s@.len(),
            m == pat@.len(),
            m >= 1,
            out@ + spec_replace(s@.skip(i as int), pat@, rep@) == spec_replace(s@, pat@, rep@),
        decreases n - i,
    {
        let ghost tail = s@.skip(i as int);
        let ghost out0 = out@;
        if matches_at(s, i, pat) {
            proof {
                assert(tail.take(pat@.len() as int) =~= s@.subrange(i as int, i + pat@.len()));
                assert(tail.skip(pat@.len() as int) =~= s@.skip(i + m));
                assert(spec_replace(tail, pat@, rep@) == rep@ + spec_replace(
                    s@.skip(i + m),
                    pat@,
                    rep@,
                ));
            }
            out.append(rep);
            proof {
                assert((out0 + rep@) + spec_replace(s@.skip(i + m), pat@, rep@) =~= out0 + (rep@
                    + spec_replace(s@.skip(i + m), pat@, rep@)));
            }
            i += m;
        } else {
            proof {
                assert(tail[0] == s@[i as int]);
                assert(tail.drop_first() =~= s@.skip(i + 1));
                if tail.len() < pat@.len() {
                    assert(s@.skip(i + 1).len() < pat@.len());
                    assert(spec_replace(tail, pat@, rep@) == tail);
                    assert(spec_replace(s@.skip(i + 1), pat@, rep@) == s@.skip(i + 1));
                    assert(seq![s@[i as int]] + s@.skip(i + 1) =~= tail);
                } else {
                    assert(tail.take(pat@.len() as int) =~= s@.subrange(i as int, i + pat@.len()));
                }
                assert(spec_replace(tail, pat@, rep@) == seq![s@[i as int]] + spec_replace(
                    s@.skip(i + 1),
                    pat@,
                    rep@,
                ));
            }
            push_char(&mut out, s[i]);
            proof {
                assert((out0 + seq![s@[i as int]]) + spec_replace(s@.skip(i + 1), pat@, rep@) =~= out0
                    + (seq![s@[i as int]] + spec_replace(s@.skip(i + 1), pat@, rep@)));
            }
            i += 1;
        }
    }
    proof {
        assert(s@.skip(n as int) =~= Seq::<char>::empty());
        assert(out@ + Seq::<char>::empty() =~= out@);
    }
    out
}

/// Whether `c` counts as white space, exactly as the Unicode `White_Space`
/// property (and so Rust's `char::is_whitespace`) defines it.
pub open spec fn spec_is_space(c: char) -> bool {
    ||| c == ' '
    ||| c == '\t'
    ||| c == '\n'
    ||| c == '\u{b}'
    ||| c == '\u{c}'
    ||| c == '\r'
    ||| c == '\u{85}'
    ||| c == '\u{a0}'
    ||| c == '\u{1680}'
    ||| ('\u{2000}' <= c && c <= '\u{200a}')
    ||| c == '\u{2028}'
    ||| c == '\u{2029}'
    ||| c == '\u{202f}'
    ||| c == '\u{205f}'
    ||| c == '\u{3000}'
}

/// Whether `c` counts as white space.
pub fn is_space(c: char) -> (r: bool)
    ensures
        r == spec_is_space(c),
{
    c == ' ' || c == '\t' || c == '\n' || c == '\u{b}' || c == '\u{c}' || c == '\r' || c
        == '\u{85}' || c == '\u{a0}' || c == '\u{1680}' || ('\u{2000}' <= c && c <= '\u{200a}')
        || c == '\u{2028}' || c == '\u{2029}' || c == '\u{202f}' || c == '\u{205f}' || c
        == '\u{3000}'
}

/// `s` with trailing white space removed.
pub open spec fn spec_trim_end(s: Seq<char>) -> Seq<char>
    decreases s.len(),
{
    if s.len() > 0 && spec_is_space(s.last()) {
        spec_trim_end(s.drop_last())
    } else {
        s
    }
}

/// `s` with leading and trailing white space removed.
pub open spec fn spec_trim(s: Seq<char>) -> Seq<char>
    decreases s.len(),
{
    if s.len() > 0 && spec_is_space(s[0]) {
        spec_trim(s.drop_first())
    } else {
        spec_trim_end(s)
    }
}

/// The given character range of `v`, with leading and trailing white space
/// removed.
pub fn trim_range(v: &Vec<char>, lo: usize, hi: usize) -> (s: String)
    requires
        lo <= hi <= v@.len(),
    ensures
        s@ == spec_trim(v@.subrange(lo as int, hi as int)),
{
    let mut a: usize = lo;
    let mut b: usize = hi;
    while a < b && is_space(v[a])
        invariant
            lo <= a <= b <= v@.len(),
            b == hi,
            spec_trim(v@.subrange(lo as int, hi as int)) == spec_trim(
                v@.subrange(a as int, hi as int),
            ),
        decreases b - a,
    {
        proof {
            assert(v@.subrange(a as int, hi as int).drop_first() =~= v@.subrange(
                a + 1,
                hi as int,
            ));
        }
        a += 1;
    }
    proof {
        let seg = v@.subrange(a as int, b as int);
        if seg.len() > 0 {
            assert(!spec_is_space(seg[0]));
        }
        assert(spec_trim(seg) == spec_trim_end(seg));
    }
    while b > a && is_space(v[b - 1])
        invariant
            lo <= a <= b <= v@.len(),
            spec_trim(v@.subrange(lo as int, hi as int)) == spec_trim_end(
                v@.subrange(a as int, b as int),
            ),
        decreases b,
    {
        proof {
            assert(v@.subrange(a as int, b as int).drop_last() =~= v@.subrange(
                a as int,
                b - 1,
            ));
        }
        b -= 1;
    }
    proof {
        let seg = v@.subrange(a as int, b as int);
        assert(spec_trim_end(seg) == seg);
    }
    string_of_range(v, a, b)
}

} // verus!
