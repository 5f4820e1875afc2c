//! Reading text character by character: white space, trimming, searching,
//! splitting, decimal numbers and lines.
//!
//! Text is handled as a slice of `char`s, whose view is the `Seq<char>` that
//! the specifications speak of.
use vstd::prelude::*;
use vstd::slice::slice_subrange;

verus! {

/// Whether `c` is white space: a character with the Unicode property
/// `White_Space`.
pub open spec fn is_whitespace_char(c: char) -> bool {
    let n = c as u32;
    ||| 0x09 <= n <= 0x0D
    ||| n == 0x20
    ||| n == 0x85
    ||| n == 0xA0
    ||| n == 0x1680
    ||| 0x2000 <= n <= 0x200A
    ||| n == 0x2028
    ||| n == 0x2029
    ||| n == 0x202F
    ||| n == 0x205F
    ||| n == 0x3000
}

/// Whether every character of `s` is white space.
pub open spec fn is_blank(s: Seq<char>) -> bool {
    forall|i: int| 0 <= i < s.len() ==> is_whitespace_char(#[trigger] s[i])
}

/// How many white-space characters `s` begins with.
pub open spec fn leading_whitespace(s: Seq<char>) -> nat
    decreases s.len(),
{
    if s.len() > 0 && is_whitespace_char(s[0]) {
        1 + leading_whitespace(s.drop_first())
    } else {
        0
    }
}

/// How many white-space characters `s` ends with.
pub open spec fn trailing_whitespace(s: Seq<char>) -> nat
    decreases s.len(),
{
    if s.len() > 0 && is_whitespace_char(s.last()) {
        1 + trailing_whitespace(s.drop_last())
    } else {
        0
    }
}

/// `s` without the white space it begins and ends with.
pub open spec fn trimmed(s: Seq<char>) -> Seq<char> {
    let rest = s.skip(leading_whitespace(s) as int);
    rest.take(rest.len() - trailing_whitespace(rest))
}

/// The leading white space of `s` ends at the first character that is none.
pub proof fn lemma_leading_whitespace(s: Seq<char>, n: int)
    requires
        0 <= n <= s.len(),
        forall|i: int| 0 <= i < n ==> is_whitespace_char(#[trigger] s[i]),
        n == s.len() || !is_whitespace_char(s[n]),
    ensures
        leading_whitespace(s) == n,
    decreases n,
{
    if n > 0 {
        let rest = s.drop_first();
        assert forall|i: int| 0 <= i < n - 1 implies is_whitespace_char(#[trigger] rest[i]) by {
            assert(rest[i] == s[i + 1]);
        }
        lemma_leading_whitespace(rest, n - 1);
    }
}

/// The trailing white space of `s` begins after the last character that is
/// none.
pub proof fn lemma_trailing_whitespace(s: Seq<char>, n: int)
    requires
        0 <= n <= s.len(),
        forall|i: int| s.len() - n <= i < s.len() ==> is_whitespace_char(#[trigger] s[i]),
        n == s.len() || !is_whitespace_char(s[s.len() - n - 1]),
    ensures
        trailing_whitespace(s) == n,
    decreases n,
{
    if n > 0 {
        let rest = s.drop_last();
        assert forall|i: int| rest.len() - (n - 1) <= i < rest.len() implies is_whitespace_char(
            #[trigger] rest[i],
        ) by {
            assert(rest[i] == s[i]);
        }
        lemma_trailing_whitespace(rest, n - 1);
    }
}

/// A text has nothing left after trimming exactly when it is blank.
pub proof fn lemma_trimmed_blank(s: Seq<char>)
    ensures
        trimmed(s).len() == 0 <==> is_blank(s),
{
    let lead = leading_whitespace(s) as int;
    lemma_leading_bound(s);
    let rest = s.skip(lead);
    lemma_trailing_bound(rest);
    if is_blank(s) {
        lemma_leading_whitespace(s, s.len() as int);
    } else {
        let i = choose|i: int| 0 <= i < s.len() && !is_whitespace_char(#[trigger] s[i]);
        assert(lead <= i);
        assert(rest[i - lead] == s[i]);
        assert(rest.len() - trailing_whitespace(rest) > i - lead);
    }
}

/// What `leading_whitespace` counts is white space, and what follows is not.
pub proof fn lemma_leading_bound(s: Seq<char>)
    ensures
        leading_whitespace(s) <= s.len(),
        forall|i: int| 0 <= i < leading_whitespace(s) ==> is_whitespace_char(#[trigger] s[i]),
        leading_whitespace(s) < s.len() ==> !is_whitespace_char(s[leading_whitespace(s) as int]),
    decreases s.len(),
{
    if s.len() > 0 && is_whitespace_char(s[0]) {
        let rest = s.drop_first();
        lemma_leading_bound(rest);
        assert forall|i: int| 0 <= i < leading_whitespace(s) implies is_whitespace_char(
            #[trigger] s[i],
        ) by {
            if i > 0 {
                assert(s[i] == rest[i - 1]);
            }
        }
        if leading_whitespace(s) < s.len() {
            assert(s[leading_whitespace(s) as int] == rest[leading_whitespace(rest) as int]);
        }
    }
}

/// What `trailing_whitespace` counts is white space, and what precedes is
/// not.
pub proof fn lemma_trailing_bound(s: Seq<char>)
    ensures
        trailing_whitespace(s) <= s.len(),
        forall|i: int|
            s.len() - trailing_whitespace(s) <= i < s.len() ==> is_whitespace_char(
                #[trigger] s[i],
            ),
        trailing_whitespace(s) < s.len() ==> !is_whitespace_char(
            s[s.len() - trailing_whitespace(s) - 1],
        ),
    decreases s.len(),
{
    if s.len() > 0 && is_whitespace_char(s.last()) {
        let rest = s.drop_last();
        lemma_trailing_bound(rest);
        assert forall|i: int|
            s.len() - trailing_whitespace(s) <= i < s.len() implies is_whitespace_char(
            #[trigger] s[i],
        ) by {
            if i < s.len() - 1 {
                assert(s[i] == rest[i]);
            }
        }
        if trailing_whitespace(s) < s.len() {
            assert(s[s.len() - trailing_whitespace(s) - 1] == rest[rest.len()
                - trailing_whitespace(rest) - 1]);
        }
    }
}

/// Whether `c` is white space.
pub fn is_whitespace(c: char) -> (b: bool)
    ensures
        b == is_whitespace_char(c),
{
    let n: u32 = c as u32;
    (0x09 <= n && n <= 0x0D) || n == 0x20 || n == 0x85 || n == 0xA0 || n == 0x1680 || (0x2000 <= n
        && n <= 0x200A) || n == 0x2028 || n == 0x2029 || n == 0x202F || n == 0x205F || n == 0x3000
}

/// The part of `s` between its leading and its trailing white space.
pub fn trim(s: &[char]) -> (r: &[char])
    ensures
        r@ == trimmed(s@),
{
    let mut start: usize = 0;
    while start < s.len() && is_whitespace(s[start])
        invariant
            start <= s.len(),
            forall|i: int| 0 <= i < start ==> is_whitespace_char(#[trigger] s@[i]),
        decreases s.len() - start,
    {
        start += 1;
    }
    let mut end: usize = s.len();
    while end > start && is_whitespace(s[end - 1])
        invariant
            start <= end <= s.len(),
            forall|i: int| end <= i < s.len() ==> is_whitespace_char(#[trigger] s@[i]),
        decreases end,
    {
        end -= 1;
    }
    proof {
        lemma_leading_whitespace(s@, start as int);
        let rest = s@.skip(start as int);
        assert forall|i: int| rest.len() - (s.len() - end) <= i < rest.len() implies is_whitespace_char(
            #[trigger] rest[i],
        ) by {
            assert(rest[i] == s@[i + start]);
        }
        if end > start {
            assert(rest[rest.len() - (s.len() - end) - 1] == s@[end - 1]);
        }
        lemma_trailing_whitespace(rest, s.len() - end);
        assert(s@.subrange(start as int, end as int) =~= trimmed(s@));
    }
    slice_subrange(s, start, end)
}

/// The characters of `s`, one by one.
pub fn chars_of(s: &str) -> (chars: Vec<char>)
    ensures
        chars@ == s@,
{
    let mut chars: Vec<char> = Vec::new();
    for c in it: s.chars()
        invariant
            it.seq() == s@,
            chars@ == it.seq().take(it.index() as int),
    {
        chars.push(c);
    }
    chars
}

/// `String::push`: the string grows by the one character `c` at its end,
/// and what it held stays as it was.
#[verifier::external_body]
fn push_char(s: &mut String, c: char)
    ensures
        final(s)@ == old(s)@.push(c),
{
    s.push(c)
}

/// A string that holds the characters of `s`.
pub fn text_of(s: &[char]) -> (text: String)
    ensures
        text@ == s@,
{
    let mut text = String::new();
    let mut i: usize = 0;
    while i < s.len()
        invariant
            i <= s.len(),
            text@ == s@.take(i as int),
        decreases s.len() - i,
    {
        push_char(&mut text, s[i]);
        proof {
            assert(s@.take(i + 1) =~= s@.take(i as int).push(s@[i as int]));
        }
        i += 1;
    }
    proof {
        assert(s@.take(s.len() as int) =~= s@);
    }
    text
}


/// Whether `pattern` stands in `s` at position `at`.
pub open spec fn matches_at(s: Seq<char>, pattern: Seq<char>, at: int) -> bool {
    &&& 0 <= at
    &&& at + pattern.len() <= s.len()
    &&& s.subrange(at, at + pattern.len()) == pattern
}

/// The first position at or after `from` where `pattern` stands in `s`.
pub open spec fn find_from(s: Seq<char>, pattern: Seq<char>, from: int) -> Option<int>
    decreases s.len() + 1 - from,
{
    if from < 0 || from + pattern.len() > s.len() {
        None
    } else if matches_at(s, pattern, from) {
        Some(from)
    } else {
        find_from(s, pattern, from + 1)
    }
}

/// `find_from` gives the least position at or after `from` where the pattern
/// stands, and nothing where it stands at no such position.
pub proof fn lemma_find_from(s: Seq<char>, pattern: Seq<char>, from: int)
    requires
        0 <= from,
    ensures
        match find_from(s, pattern, from) {
            Some(at) => {
                &&& from <= at
                &&& matches_at(s, pattern, at)
                &&& forall|j: int| from <= j < at ==> !matches_at(s, pattern, j)
            },
            None => forall|j: int| from <= j ==> !matches_at(s, pattern, j),
        },
    decreases s.len() + 1 - from,
{
    if from + pattern.len() <= s.len() && !matches_at(s, pattern, from) {
        lemma_find_from(s, pattern, from + 1);
    }
}

/// The pieces of `s` from `from` on that lie between the occurrences of
/// `separator`, found from left to right without overlap. There is always at
/// least one piece.
pub open spec fn split_from(s: Seq<char>, separator: Seq<char>, from: int) -> Seq<Seq<char>>
    decreases s.len() + 1 - from,
{
    match find_from(s, separator, from) {
        Some(at) if from <= at <= s.len() - separator.len() && separator.len() > 0 => seq![
            s.subrange(from, at),
        ] + split_from(
            s,
            separator,
            at + separator.len(),
        ),
        _ => seq![s.subrange(from, s.len() as int)],
    }
}

/// The pieces of `s` that lie between the occurrences of `separator`.
pub open spec fn split_on(s: Seq<char>, separator: Seq<char>) -> Seq<Seq<char>> {
    split_from(s, separator, 0)
}

/// The first position at or after `from` where `s` holds the character `c`.
pub open spec fn index_from(s: Seq<char>, c: char, from: int) -> Option<int>
    decreases s.len() - from,
{
    if from < 0 || from >= s.len() {
        None
    } else if s[from] == c {
        Some(from)
    } else {
        index_from(s, c, from + 1)
    }
}

/// `index_from` gives the least position at or after `from` that holds the
/// character, and nothing where no such position holds it.
pub proof fn lemma_index_from(s: Seq<char>, c: char, from: int)
    requires
        0 <= from,
    ensures
        match index_from(s, c, from) {
            Some(at) => {
                &&& from <= at < s.len()
                &&& s[at] == c
                &&& forall|j: int| from <= j < at ==> s[j] != c
            },
            None => forall|j: int| from <= j < s.len() ==> s[j] != c,
        },
    decreases s.len() - from,
{
    if from < s.len() && s[from] != c {
        lemma_index_from(s, c, from + 1);
    }
}

/// At most `limit` fields of `s` from `from` on, cut at the character
/// `separator`; the last field allowed takes all that is left, separators
/// included.
pub open spec fn fields_from(s: Seq<char>, separator: char, from: int, limit: nat) -> Seq<
    Seq<char>,
>
    decreases limit,
{
    if limit == 0 {
        Seq::empty()
    } else {
        match index_from(s, separator, from) {
            Some(at) if limit > 1 => seq![s.subrange(from, at)] + fields_from(
                s,
                separator,
                at + 1,
                (limit - 1) as nat,
            ),
            _ => seq![s.subrange(from, s.len() as int)],
        }
    }
}

/// At most `limit` fields of `s`, cut at the character `separator`.
pub open spec fn split_fields(s: Seq<char>, separator: char, limit: nat) -> Seq<Seq<char>> {
    fields_from(s, separator, 0, limit)
}

/// The first position at or after `from` where `pattern` stands in `s`.
pub fn find(s: &[char], pattern: &[char], from: usize) -> (found: Option<usize>)
    ensures
        match found {
            Some(at) => find_from(s@, pattern@, from as int) == Some(at as int),
            None => find_from(s@, pattern@, from as int) is None,
        },
{
    if pattern.len() > s.len() || from > s.len() - pattern.len() {
        return None;
    }
    let last: usize = s.len() - pattern.len();
    let mut at: usize = from;
    while at <= last
        invariant
            from <= at <= last + 1,
            last == s.len() - pattern.len(),
            find_from(s@, pattern@, from as int) == find_from(s@, pattern@, at as int),
        decreases last + 1 - at,
    {
        let mut k: usize = 0;
        while k < pattern.len() && s[at + k] == pattern[k]
            invariant
                k <= pattern.len(),
                at + pattern.len() <= s.len(),
                forall|j: int| 0 <= j < k ==> s@[at + j] == pattern@[j],
            decreases pattern.len() - k,
        {
            k += 1;
        }
        if k == pattern.len() {
            proof {
                assert(s@.subrange(at as int, at + pattern.len()) =~= pattern@);
            }
            return Some(at);
        }
        proof {
            assert(s@.subrange(at as int, at + pattern.len())[k as int] == s@[at + k]);
        }
        at += 1;
    }
    None
}

/// The first position at or after `from` where `s` holds the character `c`.
pub fn index_of(s: &[char], c: char, from: usize) -> (found: Option<usize>)
    ensures
        match found {
            Some(at) => index_from(s@, c, from as int) == Some(at as int),
            None => index_from(s@, c, from as int) is None,
        },
{
    let mut at: usize = from;
    while at < s.len()
        invariant
            from <= at,
            index_from(s@, c, from as int) == index_from(s@, c, at as int),
        decreases s.len() - at,
    {
        if s[at] == c {
            return Some(at);
        }
        at += 1;
    }
    None
}

/// At most `limit` fields of `s`, cut at the character `separator`.
pub fn fields<'a>(s: &'a [char], separator: char, limit: usize) -> (parts: Vec<&'a [char]>)
    ensures
        parts@.len() == split_fields(s@, separator, limit as nat).len(),
        forall|i: int|
            0 <= i < parts@.len() ==> (#[trigger] parts@[i])@ == split_fields(
                s@,
                separator,
                limit as nat,
            )[i],
{
    let mut parts: Vec<&'a [char]> = Vec::new();
    let ghost mut done: Seq<Seq<char>> = Seq::empty();
    let mut from: usize = 0;
    let mut left: usize = limit;
    while left > 0
        invariant
            from <= s.len(),
            left <= limit,
            parts@.len() == done.len(),
            forall|i: int| 0 <= i < parts@.len() ==> (#[trigger] parts@[i])@ == done[i],
            left > 0 ==> split_fields(s@, separator, limit as nat) == done + fields_from(
                s@,
                separator,
                from as int,
                left as nat,
            ),
            left == 0 ==> split_fields(s@, separator, limit as nat) == done,
        decreases left,
    {
        let cut = if left > 1 {
            index_of(s, separator, from)
        } else {
            None
        };
        match cut {
            Some(at) => {
                proof {
                    lemma_index_from(s@, separator, from as int);
                }
                let part = slice_subrange(s, from, at);
                parts.push(part);
                proof {
                    let rest = fields_from(s@, separator, at + 1, (left - 1) as nat);
                    assert(done + (seq![part@] + rest) =~= done.push(part@) + rest);
                    done = done.push(part@);
                }
                from = at + 1;
                left -= 1;
            },
            None => {
                let part = slice_subrange(s, from, s.len());
                parts.push(part);
                proof {
                    assert(done + seq![part@] =~= done.push(part@));
                    done = done.push(part@);
                }
                left = 0;
            },
        }
    }
    parts
}


/// Whether `c` is one of the ten decimal digits `0` to `9`.
pub open spec fn is_digit_char(c: char) -> bool {
    0x30 <= c as u32 <= 0x39
}

/// The number that the decimal digit `c` stands for.
pub open spec fn digit_value(c: char) -> int {
    c as u32 - 0x30
}

/// Whether `s` holds decimal digits only.
pub open spec fn all_digits(s: Seq<char>) -> bool {
    forall|i: int| 0 <= i < s.len() ==> is_digit_char(#[trigger] s[i])
}

/// The number that the decimal digits `s` write, the empty text writing 0.
pub open spec fn decimal_value(s: Seq<char>) -> int
    decreases s.len(),
{
    if s.len() == 0 {
        0
    } else {
        10 * decimal_value(s.drop_last()) + digit_value(s.last())
    }
}

/// The integer that `s` writes: an optional sign `+` or `-`, then one decimal
/// digit or more and nothing else.
pub open spec fn signed_decimal(s: Seq<char>) -> Option<int> {
    if s.len() == 0 {
        None
    } else {
        let signed = s[0] == '-' || s[0] == '+';
        let digits = if signed {
            s.drop_first()
        } else {
            s
        };
        if digits.len() == 0 || !all_digits(digits) {
            None
        } else if s[0] == '-' {
            Some(-decimal_value(digits))
        } else {
            Some(decimal_value(digits))
        }
    }
}

/// The `i64` that `s` writes, if it writes an integer and that integer fits.
pub open spec fn i64_of_text(s: Seq<char>) -> Option<i64> {
    match signed_decimal(s) {
        Some(value) if i64::MIN <= value <= i64::MAX => Some(value as i64),
        _ => None,
    }
}

/// A run of digits writes a number that is no smaller than the number any
/// of its beginnings writes, and none of them is negative.
pub proof fn lemma_decimal_value_grows(s: Seq<char>, n: int)
    requires
        all_digits(s),
        0 <= n <= s.len(),
    ensures
        0 <= decimal_value(s.take(n)) <= decimal_value(s),
    decreases s.len(),
{
    if n == s.len() {
        assert(s.take(n) =~= s);
        if s.len() > 0 {
            lemma_decimal_value_grows(s.drop_last(), n - 1);
        }
    } else {
        assert(s.drop_last().take(n) =~= s.take(n));
        lemma_decimal_value_grows(s.drop_last(), n);
    }
}

/// The `i64` that `s` writes in decimal, with an optional sign before the
/// digits; nothing where `s` is not such a text or the number does not fit.
pub fn parse_i64(s: &[char]) -> (parsed: Option<i64>)
    ensures
        parsed == i64_of_text(s@),
{
    if s.len() == 0 {
        return None;
    }
    let negative = s[0] == '-';
    let start: usize = if s[0] == '-' || s[0] == '+' {
        1
    } else {
        0
    };
    let ghost digits = s@.skip(start as int);
    proof {
        if start == 1 {
            assert(digits =~= s@.drop_first());
        } else {
            assert(digits =~= s@);
        }
    }
    if start == s.len() {
        return None;
    }
    let mut value: u64 = 0;
    let mut i: usize = start;
    while i < s.len()
        invariant
            start <= i <= s.len(),
            start < s.len(),
            digits == s@.skip(start as int),
            digits == if s@[0] == '-' || s@[0] == '+' {
                s@.drop_first()
            } else {
                s@
            },
            all_digits(digits.take(i - start)),
            value == decimal_value(digits.take(i - start)),
        decreases s.len() - i,
    {
        let n: u32 = s[i] as u32;
        if n < 0x30 || n > 0x39 {
            proof {
                assert(digits[i - start] == s@[i as int]);
            }
            return None;
        }
        let digit: u64 = (n - 0x30) as u64;
        proof {
            let longer = digits.take(i + 1 - start);
            assert(longer.drop_last() =~= digits.take(i - start));
            assert(longer.last() == s@[i as int]);
            assert(all_digits(longer)) by {
                assert forall|j: int| 0 <= j < longer.len() implies is_digit_char(
                    #[trigger] longer[j],
                ) by {
                    if j < i - start {
                        assert(longer[j] == digits.take(i - start)[j]);
                    }
                }
            }
            assert(decimal_value(longer) == 10 * value + digit);
        }
        if value > (u64::MAX - digit) / 10 {
            proof {
                if all_digits(digits) {
                    lemma_decimal_value_grows(digits, i + 1 - start);
                }
            }
            return None;
        }
        value = value * 10 + digit;
        i += 1;
    }
    proof {
        assert(digits.take(s.len() - start) =~= digits);
    }
    if negative {
        if value > 9223372036854775808 {
            None
        } else if value == 9223372036854775808 {
            Some(i64::MIN)
        } else {
            Some(0 - (value as i64))
        }
    } else {
        if value > 9223372036854775807 {
            None
        } else {
            Some(value as i64)
        }
    }
}

/// `line` without the carriage return that it may end with.
pub open spec fn without_return(line: Seq<char>) -> Seq<char> {
    if line.len() > 0 && line.last() == '\r' {
        line.drop_last()
    } else {
        line
    }
}

/// The lines of `s` from `from` on. A line ends with a line feed, or with a
/// carriage return and a line feed, neither of which belongs to it; the last
/// line may end with the text instead, and then keeps a carriage return it
/// ends with.
pub open spec fn lines_from(s: Seq<char>, from: int) -> Seq<Seq<char>>
    decreases s.len() - from,
{
    if from < 0 || from >= s.len() {
        Seq::empty()
    } else {
        match index_from(s, '\n', from) {
            Some(at) if from <= at < s.len() => seq![without_return(s.subrange(from, at))]
                + lines_from(s, at + 1),
            _ => seq![s.subrange(from, s.len() as int)],
        }
    }
}

/// The lines of `s`.
pub open spec fn lines_of(s: Seq<char>) -> Seq<Seq<char>> {
    lines_from(s, 0)
}

/// The lines of `s`, in order.
pub fn lines<'a>(s: &'a [char]) -> (parts: Vec<&'a [char]>)
    ensures
        parts@.len() == lines_of(s@).len(),
        forall|i: int| 0 <= i < parts@.len() ==> (#[trigger] parts@[i])@ == lines_of(s@)[i],
{
    let mut parts: Vec<&'a [char]> = Vec::new();
    let ghost mut done: Seq<Seq<char>> = Seq::empty();
    let mut from: usize = 0;
    while from < s.len()
        invariant
            parts@.len() == done.len(),
            forall|i: int| 0 <= i < parts@.len() ==> (#[trigger] parts@[i])@ == done[i],
            lines_of(s@) == done + lines_from(s@, from as int),
        decreases s.len() - from,
    {
        match index_of(s, '\n', from) {
            Some(at) => {
                proof {
                    lemma_index_from(s@, '\n', from as int);
                }
                let end: usize = if at > from && s[at - 1] == '\r' {
                    at - 1
                } else {
                    at
                };
                let part = slice_subrange(s, from, end);
                parts.push(part);
                proof {
                    let whole = s@.subrange(from as int, at as int);
                    if at > from {
                        assert(whole.last() == s@[at - 1]);
                    }
                    assert(part@ =~= without_return(whole));
                    let rest = lines_from(s@, at + 1);
                    assert(done + (seq![part@] + rest) =~= done.push(part@) + rest);
                    done = done.push(part@);
                }
                from = at + 1;
            },
            None => {
                let part = slice_subrange(s, from, s.len());
                parts.push(part);
                proof {
                    assert(done + seq![part@] =~= done.push(part@) + lines_from(
                        s@,
                        s.len() as int,
                    ));
                    done = done.push(part@);
                }
                from = s.len();
            },
        }
    }
    proof {
        assert(done + lines_from(s@, from as int) =~= done);
    }
    parts
}


/// Where the word that begins at `from` ends: at the first white space at or
/// after `from`, or at the end of `s`.
pub open spec fn word_end(s: Seq<char>, from: int) -> int
    decreases s.len() - from,
{
    if from < 0 || from >= s.len() || is_whitespace_char(s[from]) {
        from
    } else {
        word_end(s, from + 1)
    }
}

/// The words of `s` from `from` on: the longest runs of characters that are
/// no white space, in order.
pub open spec fn words_from(s: Seq<char>, from: int) -> Seq<Seq<char>>
    decreases s.len() - from,
{
    if from < 0 || from >= s.len() {
        Seq::empty()
    } else if is_whitespace_char(s[from]) {
        words_from(s, from + 1)
    } else {
        let end = word_end(s, from);
        if from < end <= s.len() {
            seq![s.subrange(from, end)] + words_from(s, end)
        } else {
            Seq::empty()
        }
    }
}

/// The words of `s`.
pub open spec fn words_of(s: Seq<char>) -> Seq<Seq<char>> {
    words_from(s, 0)
}

/// The words of `s`, in order.
pub fn words<'a>(s: &'a [char]) -> (parts: Vec<&'a [char]>)
    ensures
        parts@.len() == words_of(s@).len(),
        forall|i: int| 0 <= i < parts@.len() ==> (#[trigger] parts@[i])@ == words_of(s@)[i],
{
    let mut parts: Vec<&'a [char]> = Vec::new();
    let ghost mut done: Seq<Seq<char>> = Seq::empty();
    let mut from: usize = 0;
    while from < s.len()
        invariant
            parts@.len() == done.len(),
            forall|i: int| 0 <= i < parts@.len() ==> (#[trigger] parts@[i])@ == done[i],
            words_of(s@) == done + words_from(s@, from as int),
        decreases s.len() - from,
    {
        if is_whitespace(s[from]) {
            from += 1;
        } else {
            let mut end: usize = from + 1;
            while end < s.len() && !is_whitespace(s[end])
                invariant
                    from < end <= s.len(),
                    word_end(s@, from as int) == word_end(s@, end as int),
                decreases s.len() - end,
            {
                end += 1;
            }
            let part = slice_subrange(s, from, end);
            parts.push(part);
            proof {
                let rest = words_from(s@, end as int);
                assert(done + (seq![part@] + rest) =~= done.push(part@) + rest);
                done = done.push(part@);
            }
            from = end;
        }
    }
    proof {
        assert(done + words_from(s@, from as int) =~= done);
    }
    parts
}

} // verus!
