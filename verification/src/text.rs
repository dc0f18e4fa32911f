//! Text as the protocol uses it: prefixes, separators and decimal numbers.
//!
//! A text is modelled by its characters, a `Seq<char>`.

use vstd::prelude::*;

verus! {

/// What is left of `s` when `prefix` is taken off its front as often as it stands there.
pub open spec fn trim_prefixes(s: Seq<char>, prefix: Seq<char>) -> Seq<char>
    decreases s.len(),
{
    if prefix.len() > 0 && prefix.is_prefix_of(s) {
        trim_prefixes(s.skip(prefix.len() as int), prefix)
    } else {
        s
    }
}

/// `s` without `prefix`, where it starts with it.
pub open spec fn strip_once(s: Seq<char>, prefix: Seq<char>) -> Seq<char> {
    if prefix.is_prefix_of(s) {
        s.skip(prefix.len() as int)
    } else {
        s
    }
}

/// What stands between the `c` in `s`: one text more than there are of them.
pub open spec fn parts(s: Seq<char>, c: char) -> Seq<Seq<char>>
    decreases s.len(),
{
    if s.len() == 0 {
        seq![Seq::empty()]
    } else {
        let before = parts(s.drop_last(), c);
        if s.last() == c {
            before.push(Seq::empty())
        } else {
            before.drop_last().push(before.last().push(s.last()))
        }
    }
}

/// The texts of some strings.
pub open spec fn texts(strings: Seq<String>) -> Seq<Seq<char>> {
    strings.map_values(|s: String| s@)
}

/// `c` stands in `s` at index `i` and nowhere else.
pub open spec fn only_at(s: Seq<char>, c: char, i: int) -> bool {
    &&& 0 <= i < s.len()
    &&& s[i] == c
    &&& forall|j: int| 0 <= j < s.len() && s[j] == c ==> j == i
}

/// What stands before and behind `c`, where `c` stands in `s` exactly once.
pub open spec fn split_pair(s: Seq<char>, c: char) -> Option<(Seq<char>, Seq<char>)> {
    if exists|i: int| only_at(s, c, i) {
        let i = choose|i: int| only_at(s, c, i);
        Some((s.take(i), s.skip(i + 1)))
    } else {
        None
    }
}

/// `c` is one of the ten decimal digits.
pub open spec fn is_digit(c: char) -> bool {
    '0' <= c <= '9'
}

/// Every character of `s` is a decimal digit.
pub open spec fn all_digits(s: Seq<char>) -> bool {
    forall|i: int| 0 <= i < s.len() ==> is_digit(#[trigger] s[i])
}

/// The number that the digits `s` write in base ten.
pub open spec fn decimal_value(s: Seq<char>) -> nat
    decreases s.len(),
{
    if s.len() == 0 {
        0
    } else {
        (decimal_value(s.drop_last()) * 10 + (s.last() as int - '0' as int)) as nat
    }
}

/// The digits that remain of `s` without a leading plus sign.
pub open spec fn unsigned_digits(s: Seq<char>) -> Seq<char> {
    if s.len() > 0 && s[0] == '+' {
        s.skip(1)
    } else {
        s
    }
}

/// The number that `s` writes: an optional plus sign, then one digit or more, for a value that
/// fits in 64 bits. Anything else is no number.
pub open spec fn u64_of(s: Seq<char>) -> Option<u64> {
    let digits = unsigned_digits(s);
    if digits.len() > 0 && all_digits(digits) && decimal_value(digits) <= u64::MAX {
        Some(decimal_value(digits) as u64)
    } else {
        None
    }
}

/// `c` is one of the eight octal digits.
pub open spec fn is_octal(c: char) -> bool {
    '0' <= c <= '7'
}

/// The number that the digits `s` write in base eight.
pub open spec fn octal_value(s: Seq<char>) -> nat
    decreases s.len(),
{
    if s.len() == 0 {
        0
    } else {
        (octal_value(s.drop_last()) * 8 + (s.last() as int - '0' as int)) as nat
    }
}

/// The number that `s` writes in base eight, if it is one digit or more and the number is at most
/// `limit`.
pub open spec fn octal_of(s: Seq<char>, limit: u32) -> Option<u32> {
    if s.len() > 0 && (forall|i: int| 0 <= i < s.len() ==> is_octal(#[trigger] s[i]))
        && octal_value(s) <= limit {
        Some(octal_value(s) as u32)
    } else {
        None
    }
}

/// The digit that writes `d`.
pub open spec fn digit(d: nat) -> char {
    ('0' as u32 + d) as char
}

/// `n` in base ten, without leading zeros.
pub open spec fn decimal(n: nat) -> Seq<char>
    decreases n,
{
    if n < 10 {
        seq![digit(n)]
    } else {
        decimal(n / 10).push(digit(n % 10))
    }
}

/// `n` in base ten, filled up with zeros at the front to `width` digits at least.
pub open spec fn padded(n: nat, width: nat) -> Seq<char> {
    let digits = decimal(n);
    Seq::new(
        if digits.len() < width {
            (width - digits.len()) as nat
        } else {
            0
        },
        |i: int| '0',
    ) + digits
}

/// The characters of `s`.
pub fn chars_of(s: &str) -> (chars: Vec<char>)
    ensures
        chars@ == s@,
{
    let mut chars: Vec<char> = Vec::new();
    for c in it: s.chars()
        invariant
            chars@ == it.seq().take(it.index()),
            it.seq() == s@,
    {
        chars.push(c);
    }
    chars
}

/// Whether two texts are the same.
pub fn same(a: &str, b: &str) -> (equal: bool)
    ensures
        equal == (a@ == b@),
{
    let owned_a: String = a.to_owned();
    let owned_b: String = b.to_owned();
    owned_a == owned_b
}

/// Whether `s` starts with `prefix`.
pub fn has_prefix(s: &str, prefix: &str) -> (starts: bool)
    ensures
        starts == prefix@.is_prefix_of(s@),
{
    let s_chars = chars_of(s);
    let prefix_chars = chars_of(prefix);
    if prefix_chars.len() > s_chars.len() {
        return false;
    }
    let mut i: usize = 0;
    while i < prefix_chars.len()
        invariant
            i <= prefix_chars.len() <= s_chars.len(),
            s_chars@ == s@,
            prefix_chars@ == prefix@,
            prefix@.take(i as int) == s@.take(i as int),
        decreases prefix_chars.len() - i,
    {
        if prefix_chars[i] != s_chars[i] {
            proof {
                assert(prefix@[i as int] != s@.subrange(0, prefix@.len() as int)[i as int]);
            }
            return false;
        }
        proof {
            assert(prefix@.take(i + 1) =~= prefix@.take(i as int).push(prefix@[i as int]));
            assert(s@.take(i + 1) =~= s@.take(i as int).push(s@[i as int]));
        }
        i = i + 1;
    }
    proof {
        assert(prefix@.take(prefix@.len() as int) =~= prefix@);
    }
    true
}

/// What follows `prefix` in `s`, where `s` starts with it.
pub fn strip_prefix<'a>(s: &'a str, prefix: &str) -> (rest: Option<&'a str>)
    ensures
        match rest {
            Some(rest) => prefix@.is_prefix_of(s@) && rest@ == s@.skip(prefix@.len() as int),
            None => !prefix@.is_prefix_of(s@),
        },
{
    if has_prefix(s, prefix) {
        let n: usize = prefix.unicode_len();
        let len: usize = s.unicode_len();
        Some(s.substring_char(n, len))
    } else {
        None
    }
}

/// Takes `prefix` off the front of `s`, where it starts with it.
pub fn without_prefix<'a>(s: &'a str, prefix: &str) -> (rest: &'a str)
    ensures
        rest@ == strip_once(s@, prefix@),
{
    match strip_prefix(s, prefix) {
        Some(rest) => rest,
        None => s,
    }
}

/// What stands between the `c` in `s`.
pub fn split_all(s: &str, c: char) -> (pieces: Vec<String>)
    ensures
        texts(pieces@) == parts(s@, c),
{
    let chars = chars_of(s);
    let mut pieces: Vec<String> = Vec::new();
    let mut start: usize = 0;
    let mut i: usize = 0;
    proof {
        assert(s@.take(0).len() == 0);
        assert(s@.subrange(0, 0) =~= Seq::<char>::empty());
        assert(texts(pieces@).push(s@.subrange(0, 0)) =~= seq![Seq::<char>::empty()]);
    }
    while i < chars.len()
        invariant
            start <= i <= chars.len(),
            chars@ == s@,
            texts(pieces@).push(s@.subrange(start as int, i as int)) == parts(
                s@.take(i as int),
                c,
            ),
        decreases chars.len() - i,
    {
        let ghost before = texts(pieces@);
        let ghost current = s@.subrange(start as int, i as int);
        proof {
            let now = s@.take(i + 1);
            assert(now.drop_last() =~= s@.take(i as int));
            assert(now.last() == s@[i as int]);
            assert(before.push(current).drop_last() =~= before);
        }
        if chars[i] == c {
            pieces.push(s.substring_char(start, i).to_owned());
            start = i + 1;
            proof {
                assert(texts(pieces@) =~= before.push(current));
                assert(s@.subrange(start as int, start as int) =~= Seq::<char>::empty());
            }
        } else {
            proof {
                assert(s@.subrange(start as int, i + 1) =~= current.push(s@[i as int]));
            }
        }
        i = i + 1;
    }
    let ghost before = texts(pieces@);
    pieces.push(s.substring_char(start, chars.len()).to_owned());
    proof {
        assert(s@.take(s@.len() as int) =~= s@);
        assert(texts(pieces@) =~= before.push(s@.subrange(start as int, s@.len() as int)));
    }
    pieces
}

/// Takes `prefix` off the front of `s` as often as it stands there.
pub fn trim_start<'a>(s: &'a str, prefix: &str) -> (rest: &'a str)
    ensures
        rest@ == trim_prefixes(s@, prefix@),
{
    let n: usize = prefix.unicode_len();
    if n == 0 {
        return s;
    }
    let mut rest: &'a str = s;
    loop
        invariant
            n == prefix@.len(),
            n > 0,
            trim_prefixes(rest@, prefix@) == trim_prefixes(s@, prefix@),
        decreases rest@.len(),
    {
        match strip_prefix(rest, prefix) {
            Some(shorter) => {
                rest = shorter;
            },
            None => {
                return rest;
            },
        }
    }
}

/// Splits `s` at `c`, where `c` stands in it exactly once.
pub fn split_once_only<'a>(s: &'a str, c: char) -> (parts: Option<(&'a str, &'a str)>)
    ensures
        match parts {
            Some((before, behind)) => split_pair(s@, c) == Some((before@, behind@)),
            None => split_pair(s@, c) is None,
        },
{
    let chars = chars_of(s);
    let mut found: Option<usize> = None;
    let mut i: usize = 0;
    while i < chars.len()
        invariant
            i <= chars.len(),
            chars@ == s@,
            match found {
                Some(k) => k < i && s@[k as int] == c && forall|j: int|
                    0 <= j < i && s@[j] == c ==> j == k,
                None => forall|j: int| 0 <= j < i ==> s@[j] != c,
            },
        decreases chars.len() - i,
    {
        if chars[i] == c {
            match found {
                Some(k) => {
                    proof {
                        assert forall|n: int| !only_at(s@, c, n) by {
                            assert(s@[k as int] == c && s@[i as int] == c);
                        }
                    }
                    return None;
                },
                None => {
                    found = Some(i);
                },
            }
        }
        i = i + 1;
    }
    match found {
        Some(k) => {
            proof {
                assert(only_at(s@, c, k as int));
                let n = choose|n: int| only_at(s@, c, n);
                assert(n == k);
                assert(s@.subrange(0, k as int) =~= s@.take(k as int));
                assert(s@.subrange(k + 1, s@.len() as int) =~= s@.skip(k + 1));
            }
            Some((s.substring_char(0, k), s.substring_char(k + 1, chars.len())))
        },
        None => {
            proof {
                assert forall|n: int| !only_at(s@, c, n) by {}
            }
            None
        },
    }
}

proof fn lemma_value_of_front(s: Seq<char>, i: int)
    requires
        all_digits(s),
        0 <= i <= s.len(),
    ensures
        decimal_value(s.take(i)) <= decimal_value(s),
    decreases s.len() - i,
{
    if i < s.len() {
        lemma_value_of_front(s, i + 1);
        assert(s.take(i + 1).drop_last() =~= s.take(i));
        assert(is_digit(s[i]));
    } else {
        assert(s.take(i) =~= s);
    }
}

/// Reads a number written in base ten.
pub fn parse_u64(s: &str) -> (number: Option<u64>)
    ensures
        number == u64_of(s@),
{
    let chars = chars_of(s);
    let start: usize = if chars.len() > 0 && chars[0] == '+' {
        1
    } else {
        0
    };
    let ghost digits = unsigned_digits(s@);
    proof {
        assert(digits =~= s@.skip(start as int));
    }
    if chars.len() == start {
        return None;
    }
    let mut value: u64 = 0;
    let mut i: usize = start;
    proof {
        assert(digits.take(0).len() == 0);
    }
    while i < chars.len()
        invariant
            start <= i <= chars.len(),
            chars@ == s@,
            digits == s@.skip(start as int),
            digits == unsigned_digits(s@),
            all_digits(digits.take(i - start)),
            value == decimal_value(digits.take(i - start)),
        decreases chars.len() - i,
    {
        let c: char = chars[i];
        proof {
            assert(digits[i - start] == c);
            assert(digits.take(i + 1 - start) =~= digits.take(i - start).push(c));
            assert(digits.take(i + 1 - start).drop_last() =~= digits.take(i - start));
        }
        if !('0' <= c && c <= '9') {
            proof {
                assert(!is_digit(digits[i - start]));
            }
            return None;
        }
        let d: u64 = (c as u32 - '0' as u32) as u64;
        proof {
            assert(decimal_value(digits.take(i + 1 - start)) == value * 10 + d);
        }
        if value > (u64::MAX - d) / 10 {
            proof {
                if all_digits(digits) {
                    lemma_value_of_front(digits, i + 1 - start);
                }
            }
            return None;
        }
        value = value * 10 + d;
        proof {
            assert forall|j: int| 0 <= j < digits.take(i + 1 - start).len() implies is_digit(
                #[trigger] digits.take(i + 1 - start)[j],
            ) by {
                if j < i - start {
                    assert(is_digit(digits.take(i - start)[j]));
                }
            }
        }
        i = i + 1;
    }
    proof {
        assert(digits.take(digits.len() as int) =~= digits);
    }
    Some(value)
}

proof fn lemma_octal_front(s: Seq<char>, i: int)
    requires
        forall|j: int| 0 <= j < s.len() ==> is_octal(#[trigger] s[j]),
        0 <= i <= s.len(),
    ensures
        octal_value(s.take(i)) <= octal_value(s),
    decreases s.len() - i,
{
    if i < s.len() {
        lemma_octal_front(s, i + 1);
        assert(s.take(i + 1).drop_last() =~= s.take(i));
        assert(is_octal(s[i]));
    } else {
        assert(s.take(i) =~= s);
    }
}

/// Reads a number that is written in base eight and at most `limit`.
pub fn parse_octal(s: &str, limit: u32) -> (number: Option<u32>)
    ensures
        number == octal_of(s@, limit),
{
    let chars = chars_of(s);
    if chars.len() == 0 {
        return None;
    }
    let mut value: u32 = 0;
    let mut i: usize = 0;
    proof {
        assert(s@.take(0).len() == 0);
    }
    while i < chars.len()
        invariant
            i <= chars.len(),
            chars@ == s@,
            forall|j: int| 0 <= j < i ==> is_octal(#[trigger] s@[j]),
            value == octal_value(s@.take(i as int)),
            value <= limit,
        decreases chars.len() - i,
    {
        let c: char = chars[i];
        if !('0' <= c && c <= '7') {
            proof {
                assert(!is_octal(s@[i as int]));
            }
            return None;
        }
        let wide: u64 = value as u64 * 8 + (c as u32 - '0' as u32) as u64;
        proof {
            assert(s@.take(i + 1).drop_last() =~= s@.take(i as int));
            assert(s@.take(i + 1).last() == c);
            assert(octal_value(s@.take(i + 1)) == wide);
        }
        if wide > limit as u64 {
            proof {
                if forall|j: int| 0 <= j < s@.len() ==> is_octal(#[trigger] s@[j]) {
                    lemma_octal_front(s@, i + 1);
                }
            }
            return None;
        }
        value = wide as u32;
        i = i + 1;
    }
    proof {
        assert(s@.take(s@.len() as int) =~= s@);
    }
    Some(value)
}

/// The digit that writes `d`, as a text.
fn digit_text(d: u64) -> (text: &'static str)
    requires
        d < 10,
    ensures
        text@ == seq![digit(d as nat)],
{
    proof {
        reveal_strlit("0");
        reveal_strlit("1");
        reveal_strlit("2");
        reveal_strlit("3");
        reveal_strlit("4");
        reveal_strlit("5");
        reveal_strlit("6");
        reveal_strlit("7");
        reveal_strlit("8");
        reveal_strlit("9");
    }
    let text: &'static str = match d {
        0 => "0",
        1 => "1",
        2 => "2",
        3 => "3",
        4 => "4",
        5 => "5",
        6 => "6",
        7 => "7",
        8 => "8",
        _ => "9",
    };
    proof {
        assert(text@ =~= seq![digit(d as nat)]);
    }
    text
}

/// Writes a number in base ten.
pub fn decimal_text(n: u64) -> (text: String)
    ensures
        text@ == decimal(n as nat),
    decreases n,
{
    if n < 10 {
        digit_text(n).to_owned()
    } else {
        let mut text: String = decimal_text(n / 10);
        text.append(digit_text(n % 10));
        proof {
            assert(text@ =~= decimal((n / 10) as nat).push(digit((n % 10) as nat)));
        }
        text
    }
}

/// Writes a number in base ten with at least `width` digits.
pub fn padded_text(n: u64, width: usize) -> (text: String)
    ensures
        text@ == padded(n as nat, width as nat),
{
    let digits: String = decimal_text(n);
    let len: usize = digits.as_str().unicode_len();
    let mut text: String = String::new();
    let mut filled: usize = len;
    while filled < width
        invariant
            len == digits@.len(),
            len <= filled,
            filled <= width || filled == len,
            text@ == Seq::new((filled - len) as nat, |i: int| '0'),
        decreases width - filled,
    {
        proof {
            reveal_strlit("0");
            assert(Seq::new((filled - len) as nat, |i: int| '0') + "0"@ =~= Seq::new(
                (filled + 1 - len) as nat,
                |i: int| '0',
            ));
        }
        text.append("0");
        filled = filled + 1;
    }
    text.append(digits.as_str());
    text
}

proof fn lemma_decimal_digits(n: nat)
    ensures
        decimal(n).len() > 0,
        all_digits(decimal(n)),
        decimal_value(decimal(n)) == n,
    decreases n,
{
    if n < 10 {
        assert(decimal(n).drop_last() =~= Seq::<char>::empty());
        assert(decimal_value(decimal(n).drop_last()) == 0);
    } else {
        lemma_decimal_digits(n / 10);
        assert(decimal(n).drop_last() =~= decimal(n / 10));
        assert forall|i: int| 0 <= i < decimal(n).len() implies is_digit(#[trigger] decimal(n)[i]) by {
            if i < decimal(n).len() - 1 {
                assert(is_digit(decimal(n / 10)[i]));
            }
        }
    }
}

/// A number reads back as it was written.
pub proof fn decimal_reads_back(n: u64)
    ensures
        u64_of(decimal(n as nat)) == Some(n),
{
    lemma_decimal_digits(n as nat);
    assert(is_digit(decimal(n as nat)[0]));
}

proof fn lemma_zeros_before(zeros: nat, digits: Seq<char>)
    ensures
        decimal_value(Seq::new(zeros, |i: int| '0') + digits) == decimal_value(digits),
    decreases zeros + digits.len(),
{
    let front = Seq::new(zeros, |i: int| '0');
    let all = front + digits;
    if digits.len() > 0 {
        assert(all.drop_last() =~= front + digits.drop_last());
        lemma_zeros_before(zeros, digits.drop_last());
    } else if zeros > 0 {
        let shorter = Seq::new((zeros - 1) as nat, |i: int| '0');
        assert(all.drop_last() =~= shorter + digits);
        lemma_zeros_before((zeros - 1) as nat, digits);
    } else {
        assert(all =~= digits);
    }
}

/// A number reads back as it was written with zeros at the front.
pub proof fn padded_reads_back(n: u64, width: nat)
    ensures
        u64_of(padded(n as nat, width)) == Some(n),
        padded(n as nat, width).len() >= width,
        n < 100 && width == 2 ==> padded(n as nat, width).len() == 2,
{
    let digits = decimal(n as nat);
    let all = padded(n as nat, width);
    lemma_decimal_digits(n as nat);
    lemma_zeros_before(
        if digits.len() < width {
            (width - digits.len()) as nat
        } else {
            0
        },
        digits,
    );
    let front = all.len() - digits.len();
    assert forall|i: int| 0 <= i < all.len() implies is_digit(#[trigger] all[i]) by {
        if i >= front {
            assert(is_digit(digits[i - front]));
        }
    }
    assert(is_digit(all[0]));
    if n < 100 {
        assert(n >= 10 ==> digits.len() == 2) by {
            assert(decimal((n / 10) as nat).len() == 1);
        }
    }
}

/// A written number holds nothing but digits: no sign and no separator.
pub proof fn decimal_is_digits(n: nat)
    ensures
        decimal(n).len() > 0,
        all_digits(decimal(n)),
{
    lemma_decimal_digits(n);
}

/// Two texts without `c`, joined by `c`, split into those two texts.
pub proof fn pair_splits(before: Seq<char>, c: char, behind: Seq<char>)
    requires
        !before.contains(c),
        !behind.contains(c),
    ensures
        split_pair(before + seq![c] + behind, c) == Some((before, behind)),
{
    let s = before + seq![c] + behind;
    let k = before.len() as int;
    assert forall|j: int| 0 <= j < s.len() && s[j] == c implies j == k by {
        if j < k {
            assert(before[j] == c);
        } else if j > k {
            assert(behind[j - k - 1] == c);
        }
    }
    assert(only_at(s, c, k));
    let i = choose|i: int| only_at(s, c, i);
    assert(i == k);
    assert(s.take(k) =~= before);
    assert(s.skip(k + 1) =~= behind);
}

/// A prefix is taken off once, and what does not start with it stays.
pub proof fn prefix_comes_off_once(s: Seq<char>, prefix: Seq<char>)
    ensures
        strip_once(prefix + s, prefix) == s,
        !prefix.is_prefix_of(s) ==> strip_once(s, prefix) == s,
{
    assert((prefix + s).subrange(0, prefix.len() as int) =~= prefix);
    assert((prefix + s).skip(prefix.len() as int) =~= s);
}

/// A prefix is taken off as often as it stands at the front; what does not start with it stays.
pub proof fn prefixes_come_off(s: Seq<char>, prefix: Seq<char>)
    requires
        prefix.len() > 0,
    ensures
        trim_prefixes(prefix + s, prefix) == trim_prefixes(s, prefix),
        !prefix.is_prefix_of(s) ==> trim_prefixes(s, prefix) == s,
{
    assert((prefix + s).subrange(0, prefix.len() as int) =~= prefix);
    assert((prefix + s).skip(prefix.len() as int) =~= s);
}

/// A text splits at a separator into the parts before and the parts behind it, and not at all
/// without one.
pub proof fn parts_of_two(a: Seq<char>, c: char, b: Seq<char>)
    ensures
        parts(a + seq![c] + b, c) == parts(a, c) + parts(b, c),
        !a.contains(c) ==> parts(a, c) == seq![a],
    decreases a.len() + b.len(),
{
    let whole = a + seq![c] + b;
    lemma_some_part(b, c);
    if b.len() == 0 {
        assert(whole.drop_last() =~= a);
        assert(parts(a, c) + parts(b, c) =~= parts(a, c).push(Seq::empty()));
    } else {
        let shorter = b.drop_last();
        assert(whole.drop_last() =~= a + seq![c] + shorter);
        parts_of_two(a, c, shorter);
        lemma_some_part(shorter, c);
        let before = parts(a, c) + parts(shorter, c);
        assert(whole.last() == b.last());
        if b.last() == c {
            assert(before.push(Seq::empty()) =~= parts(a, c) + parts(b, c));
        } else {
            assert(before.last() == parts(shorter, c).last());
            assert(before.drop_last().push(before.last().push(b.last())) =~= parts(a, c) + parts(
                b,
                c,
            ));
        }
    }
    if !a.contains(c) {
        if a.len() == 0 {
            assert(a =~= Seq::<char>::empty());
        } else {
            let front = a.drop_last();
            assert(!front.contains(c)) by {
                if front.contains(c) {
                    let i = choose|i: int| 0 <= i < front.len() && front[i] == c;
                    assert(a[i] == c);
                }
            }
            parts_of_two(front, c, Seq::empty());
            assert(a.last() != c) by {
                assert(a.contains(a.last()));
            }
            assert(parts(front, c) == seq![front]);
            assert(seq![front].drop_last().push(front.push(a.last())) =~= seq![a]) by {
                assert(front.push(a.last()) =~= a);
            }
        }
    }
}

proof fn lemma_some_part(s: Seq<char>, c: char)
    ensures
        parts(s, c).len() > 0,
    decreases s.len(),
{
    if s.len() > 0 {
        lemma_some_part(s.drop_last(), c);
    }
}

/// One digit writes its number, and a digit behind a number writes ten times the number and the
/// digit, as far as that fits. A text with anything but digits behind an optional plus sign, or
/// without any digit, is no number.
pub proof fn numbers_are_decimal(s: Seq<char>, d: u64)
    requires
        d < 10,
    ensures
        u64_of(seq![digit(d as nat)]) == Some(d),
        s.len() > 0 && all_digits(s) && u64_of(s) is Some && u64_of(s)->0 * 10 + d <= u64::MAX
            ==> u64_of(s.push(digit(d as nat))) == Some((u64_of(s)->0 * 10 + d) as u64),
        s.len() > 0 && all_digits(s) && u64_of(s) is Some && u64_of(s)->0 * 10 + d > u64::MAX
            ==> u64_of(s.push(digit(d as nat))) is None,
        s.len() > 0 && all_digits(s) ==> u64_of(seq!['+'] + s) == u64_of(s),
        s.len() == 0 ==> u64_of(s) is None,
        forall|i: int|
            0 <= i < s.len() && !('0' <= #[trigger] s[i] <= '9') && (i > 0 || s[i] != '+')
                ==> u64_of(s) is None,
{
    let one = seq![digit(d as nat)];
    reveal_with_fuel(decimal_value, 2);
    assert(one.drop_last() =~= Seq::<char>::empty());
    assert(u64_of(one) == Some(d));
    if s.len() > 0 && all_digits(s) {
        let more = s.push(digit(d as nat));
        assert(is_digit(s[0]));
        assert(more[0] == s[0]);
        assert(more.drop_last() =~= s);
        assert forall|i: int| 0 <= i < more.len() implies is_digit(#[trigger] more[i]) by {
            if i < s.len() {
                assert(is_digit(s[i]));
            }
        }
        let signed = seq!['+'] + s;
        assert(signed.skip(1) =~= s);
    }
    assert forall|i: int|
        0 <= i < s.len() && !('0' <= #[trigger] s[i] <= '9') && (i > 0 || s[i] != '+') implies u64_of(
        s,
    ) is None by {
        let digits = unsigned_digits(s);
        if s[0] == '+' {
            assert(!is_digit(digits[i - 1]));
        } else {
            assert(!is_digit(digits[i]));
        }
    }
}

/// A number is written with its own digits: the last one is the rest by ten, and before it stands
/// the rest of the number. Only 0 starts with 0.
pub proof fn numbers_are_written_in_base_ten(n: nat)
    ensures
        n < 10 ==> decimal(n) == seq![digit(n)],
        n >= 10 ==> decimal(n).last() == digit(n % 10) && decimal(n).drop_last() == decimal(n / 10),
        n > 0 ==> decimal(n)[0] != '0',
        digit(0) == '0' && digit(9) == '9',
    decreases n,
{
    if n >= 10 {
        numbers_are_written_in_base_ten(n / 10);
        lemma_decimal_digits(n / 10);
        assert(decimal(n).drop_last() =~= decimal(n / 10));
        assert(decimal(n)[0] == decimal(n / 10)[0]);
    }
}

/// Three octal digits write permissions: one digit each for the owner, the group and the others.
/// One more before them writes the special bits, and a zero there does not count.
pub proof fn permissions_are_octal(special: u32, owner: u32, group: u32, others: u32)
    requires
        special < 8,
        owner < 8,
        group < 8,
        others < 8,
    ensures
        ({
            let digits = seq![digit(owner as nat), digit(group as nat), digit(others as nat)];
            &&& octal_of(digits, 0o7777) == Some((owner * 64 + group * 8 + others) as u32)
            &&& octal_of(seq!['0'] + digits, 0o7777) == octal_of(digits, 0o7777)
            &&& octal_of(seq![digit(special as nat)] + digits, 0o7777) == Some(
                (special * 512 + owner * 64 + group * 8 + others) as u32,
            )
        }),
{
    let digits = seq![digit(owner as nat), digit(group as nat), digit(others as nat)];
    reveal_with_fuel(octal_value, 5);
    assert(digits.drop_last() =~= seq![digit(owner as nat), digit(group as nat)]);
    assert(digits.drop_last().drop_last() =~= seq![digit(owner as nat)]);
    assert(digits.drop_last().drop_last().drop_last() =~= Seq::<char>::empty());
    let longer = seq!['0'] + digits;
    assert(longer.drop_last() =~= seq!['0', digit(owner as nat), digit(group as nat)]);
    assert(longer.drop_last().drop_last() =~= seq!['0', digit(owner as nat)]);
    assert(longer.drop_last().drop_last().drop_last() =~= seq!['0']);
    assert(longer.drop_last().drop_last().drop_last().drop_last() =~= Seq::<char>::empty());
    assert(octal_value(seq![digit(owner as nat)]) == owner) by {
        assert(seq![digit(owner as nat)].drop_last() =~= Seq::<char>::empty());
    }
    let s = digit(special as nat);
    let full = seq![s] + digits;
    assert(full.drop_last() =~= seq![s, digit(owner as nat), digit(group as nat)]);
    assert(full.drop_last().drop_last() =~= seq![s, digit(owner as nat)]);
    assert(full.drop_last().drop_last().drop_last() =~= seq![s]);
    assert(full.drop_last().drop_last().drop_last().drop_last() =~= Seq::<char>::empty());
}

/// What holds anything but octal digits, or nothing, or too large a number, is no permission.
pub proof fn other_texts_are_no_octal(s: Seq<char>, limit: u32)
    ensures
        s.len() == 0 ==> octal_of(s, limit) is None,
        forall|i: int|
            0 <= i < s.len() && !('0' <= #[trigger] s[i] <= '7') ==> octal_of(s, limit) is None,
        octal_of(s, limit) is Some ==> octal_of(s, limit)->0 <= limit,
{
    assert forall|i: int| 0 <= i < s.len() && !('0' <= #[trigger] s[i] <= '7') implies octal_of(
        s,
        limit,
    ) is None by {
        assert(!is_octal(s[i]));
    }
}

} // verus!
