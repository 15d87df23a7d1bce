//! Small operations on text: comparing, trimming, splitting and decimal numbers.

use vstd::prelude::*;
use vstd::string::*;

verus! {

/// The characters of `s`, one by one.
pub fn chars_of(s: &str) -> (r: Vec<char>)
    ensures
        r@ == s@,
{
    let n = s.unicode_len();
    let mut out: Vec<char> = Vec::new();
    let mut i: usize = 0;
    while i < n
        invariant
            n == s@.len(),
            i <= n,
            out@ == s@.take(i as int),
        decreases n - i,
    {
        out.push(s.get_char(i));
        i += 1;
    }
    out
}

/// Whether two texts hold the same characters.
pub fn text_eq(a: &str, b: &str) -> (r: bool)
    ensures
        r == (a@ == b@),
{
    let x = chars_of(a);
    let y = chars_of(b);
    if x.len() != y.len() {
        return false;
    }
    let mut i: usize = 0;
    while i < x.len()
        invariant
            x@ == a@,
            y@ == b@,
            x.len() == y.len(),
            i <= x.len(),
            x@.take(i as int) == y@.take(i as int),
        decreases x.len() - i,
    {
        if x[i] != y[i] {
            assert(a@[i as int] != b@[i as int]);
            return false;
        }
        i += 1;
    }
    assert(x@ == x@.take(x.len() as int));
    assert(y@ == y@.take(y.len() as int));
    true
}

/// The characters with the Unicode property `White_Space`.
pub open spec fn is_space(c: char) -> bool {
    let u = c as u32;
    ||| 0x09 <= u <= 0x0D
    ||| u == 0x20
    ||| u == 0x85
    ||| u == 0xA0
    ||| u == 0x1680
    ||| 0x2000 <= u <= 0x200A
    ||| u == 0x2028
    ||| u == 0x2029
    ||| u == 0x202F
    ||| u == 0x205F
    ||| u == 0x3000
}

/// `s` without its leading white space.
pub open spec fn trim_start(s: Seq<char>) -> Seq<char>
    decreases s.len(),
{
    if s.len() > 0 && is_space(s[0]) {
        trim_start(s.drop_first())
    } else {
        s
    }
}

/// `s` without its trailing white space.
pub open spec fn trim_end(s: Seq<char>) -> Seq<char>
    decreases s.len(),
{
    if s.len() > 0 && is_space(s.last()) {
        trim_end(s.drop_last())
    } else {
        s
    }
}

/// `s` without white space at either end.
pub open spec fn trimmed(s: Seq<char>) -> Seq<char> {
    trim_end(trim_start(s))
}

/// Whether `c` is white space.
pub fn is_whitespace(c: char) -> (r: bool)
    ensures
        r == is_space(c),
{
    let u: u32 = c as u32;
    (0x09 <= u && u <= 0x0D) || u == 0x20 || u == 0x85 || u == 0xA0 || u == 0x1680 || (0x2000 <= u
        && u <= 0x200A) || u == 0x2028 || u == 0x2029 || u == 0x202F || u == 0x205F || u == 0x3000
}

/// Removes the white space at both ends of `s`.
pub fn trim(s: &str) -> (r: String)
    ensures
        r@ == trimmed(s@),
{
    let chars = chars_of(s);
    let n = chars.len();
    let mut start: usize = 0;
    assert(s@.skip(0) == s@);
    while start < n && is_whitespace(chars[start])
        invariant
            n == s@.len(),
            chars@ == s@,
            start <= n,
            trim_start(s@) == trim_start(s@.skip(start as int)),
        decreases n - start,
    {
        assert(s@.skip(start as int).drop_first() == s@.skip(start + 1));
        start += 1;
    }
    let mut end: usize = n;
    while end > start && is_whitespace(chars[end - 1])
        invariant
            n == s@.len(),
            chars@ == s@,
            start <= end <= n,
            trimmed(s@) == trim_end(s@.subrange(start as int, end as int)),
        decreases end,
    {
        assert(s@.subrange(start as int, end as int).drop_last() == s@.subrange(
            start as int,
            end - 1,
        ));
        end -= 1;
    }
    String::from_str(s.substring_char(start, end))
}

/// Length of the part of `s` that stands before the first `sep`; the length of
/// `s` where it holds no `sep`.
pub open spec fn head_len(s: Seq<char>, sep: char) -> nat
    decreases s.len(),
{
    if s.len() == 0 || s[0] == sep {
        0
    } else {
        1 + head_len(s.drop_first(), sep)
    }
}

/// The parts of `s` between occurrences of `sep`. A text without `sep` is one
/// part, the empty text too.
pub open spec fn split_on(s: Seq<char>, sep: char) -> Seq<Seq<char>>
    decreases s.len(),
{
    let k = head_len(s, sep) as int;
    if k >= s.len() {
        seq![s]
    } else {
        seq![s.take(k)] + split_on(s.skip(k + 1), sep)
    }
}

/// `head_len` is the first position of `sep`.
pub proof fn lemma_head_len(s: Seq<char>, sep: char, k: int)
    requires
        0 <= k <= s.len(),
        forall|j: int| 0 <= j < k ==> s[j] != sep,
        k == s.len() || s[k] == sep,
    ensures
        head_len(s, sep) == k,
    decreases k,
{
    if k > 0 {
        lemma_head_len(s.drop_first(), sep, k - 1);
    }
}

/// Whether the characters of `chars` from `start` up to `end` spell `want`.
pub fn range_eq(chars: &Vec<char>, start: usize, end: usize, want: &Vec<char>) -> (r: bool)
    requires
        start <= end <= chars.len(),
    ensures
        r == (chars@.subrange(start as int, end as int) == want@),
{
    if end - start != want.len() {
        return false;
    }
    let ghost part = chars@.subrange(start as int, end as int);
    let mut i: usize = 0;
    while i < want.len()
        invariant
            start <= end <= chars.len(),
            end - start == want.len(),
            part == chars@.subrange(start as int, end as int),
            i <= want.len(),
            part.take(i as int) == want@.take(i as int),
        decreases want.len() - i,
    {
        if chars[start + i] != want[i] {
            assert(part[i as int] != want@[i as int]);
            return false;
        }
        i += 1;
    }
    assert(part == part.take(part.len() as int));
    assert(want@ == want@.take(want.len() as int));
    true
}

/// Whether `tag` is one of the parts of `s` that `sep` separates.
pub fn has_segment(s: &str, sep: char, tag: &str) -> (r: bool)
    ensures
        r == split_on(s@, sep).contains(tag@),
{
    let chars = chars_of(s);
    let want = chars_of(tag);
    let n = chars.len();
    let mut start: usize = 0;
    assert(s@.skip(0) == s@);
    loop
        invariant
            chars@ == s@,
            want@ == tag@,
            n == chars.len(),
            start <= n,
            split_on(s@, sep).contains(tag@) == split_on(s@.skip(start as int), sep).contains(
                tag@,
            ),
        decreases n - start,
    {
        let mut k: usize = start;
        while k < n && chars[k] != sep
            invariant
                n == chars.len(),
                start <= k <= n,
                forall|j: int| start <= j < k ==> chars@[j] != sep,
            decreases n - k,
        {
            k += 1;
        }
        let same = range_eq(&chars, start, k, &want);
        let ghost rest = s@.skip(start as int);
        proof {
            lemma_head_len(rest, sep, k - start);
            let parts = split_on(rest, sep);
            assert(parts[0] == s@.subrange(start as int, k as int));
            if k < n {
                assert(rest.skip(k - start + 1) == s@.skip(k + 1));
                let tail = split_on(s@.skip(k + 1), sep);
                assert(parts == seq![parts[0]] + tail);
                assert forall|x: Seq<char>| parts.contains(x) <==> (x == parts[0] || tail.contains(
                    x,
                )) by {
                    if tail.contains(x) {
                        let i = choose|i: int| 0 <= i < tail.len() && tail[i] == x;
                        assert(parts[i + 1] == x);
                    }
                }
            }
        }
        if same {
            return true;
        }
        if k == n {
            return false;
        }
        start = k + 1;
    }
}

/// The character that stands for the digit `d`.
pub open spec fn digit_char(d: int) -> char {
    seq!['0', '1', '2', '3', '4', '5', '6', '7', '8', '9'][d]
}

/// The decimal numeral of `n`, without leading zeros.
pub open spec fn decimal(n: nat) -> Seq<char>
    decreases n,
{
    if n < 10 {
        seq![digit_char(n as int)]
    } else {
        decimal(n / 10).push(digit_char((n % 10) as int))
    }
}

/// The digit `d` as a text of one character.
pub fn digit_str(d: usize) -> (r: &'static str)
    requires
        d < 10,
    ensures
        r@ == seq![digit_char(d as int)],
{
    proof {
        reveal_strlit("0");
        reveal_strlit("1");
        reveal_strlit("2");
        reveal_strlit("3");
        reveal_strlit("4");
        reveal_strlit("5");
        reveal_strlit("6");
        reveal_strlit("7");
        reveal_strlit("8");
        reveal_strlit("9");
    }
    let r = if d == 0 {
        "0"
    } else if d == 1 {
        "1"
    } else if d == 2 {
        "2"
    } else if d == 3 {
        "3"
    } else if d == 4 {
        "4"
    } else if d == 5 {
        "5"
    } else if d == 6 {
        "6"
    } else if d == 7 {
        "7"
    } else if d == 8 {
        "8"
    } else {
        "9"
    };
    r
}

/// Writes `n` as a decimal numeral.
pub fn decimal_text(n: usize) -> (r: String)
    ensures
        r@ == decimal(n as nat),
    decreases n,
{
    if n < 10 {
        String::from_str(digit_str(n))
    } else {
        let mut s = decimal_text(n / 10);
        s.append(digit_str(n % 10));
        s
    }
}

/// The value of the digit `c`; `None` for any other character.
pub open spec fn digit_value(c: char) -> Option<nat> {
    if '0' <= c <= '9' {
        Some((c as u32 - '0' as u32) as nat)
    } else {
        None
    }
}

/// Whether `s` holds digits only.
pub open spec fn all_digits(s: Seq<char>) -> bool {
    forall|i: int| 0 <= i < s.len() ==> digit_value(#[trigger] s[i]) is Some
}

/// The number that the digits of `s` spell.
pub open spec fn digits_value(s: Seq<char>) -> nat
    decreases s.len(),
{
    if s.len() == 0 {
        0
    } else {
        digits_value(s.drop_last()) * 10 + digit_value(s.last()).unwrap_or(0)
    }
}

/// Reads a decimal numeral: an optional `+`, then at least one digit and
/// nothing else. A number beyond `usize::MAX` is not accepted.
pub open spec fn parse_decimal(s: Seq<char>) -> Option<nat> {
    let body = if s.len() > 0 && s[0] == '+' {
        s.drop_first()
    } else {
        s
    };
    if body.len() > 0 && all_digits(body) && digits_value(body) <= usize::MAX {
        Some(digits_value(body))
    } else {
        None
    }
}

/// With every further digit the number grows or stays.
pub proof fn lemma_digits_value_grows(s: Seq<char>, i: int)
    requires
        0 <= i <= s.len(),
    ensures
        digits_value(s.take(i)) <= digits_value(s),
    decreases s.len() - i,
{
    if i < s.len() {
        lemma_digits_value_grows(s, i + 1);
        assert(s.take(i + 1).drop_last() == s.take(i));
    } else {
        assert(s.take(i) == s);
    }
}

/// Reads `s` as a decimal numeral.
pub fn parse_index(s: &str) -> (r: Option<usize>)
    ensures
        match r {
            Some(n) => parse_decimal(s@) == Some(n as nat),
            None => parse_decimal(s@) is None,
        },
{
    let chars = chars_of(s);
    let n = chars.len();
    let first: usize = if n > 0 && chars[0] == '+' {
        1
    } else {
        0
    };
    if first == n {
        return None;
    }
    let ghost body = s@.skip(first as int);
    let mut value: usize = 0;
    let mut i: usize = first;
    while i < n
        invariant
            chars@ == s@,
            n == chars.len(),
            first <= i <= n,
            body == s@.skip(first as int),
            body == if s@.len() > 0 && s@[0] == '+' {
                s@.drop_first()
            } else {
                s@
            },
            body.len() == n - first,
            all_digits(body.take(i - first)),
            value == digits_value(body.take(i - first)),
        decreases n - i,
    {
        let c = chars[i];
        let ghost upto = body.take(i - first + 1);
        proof {
            assert(upto.drop_last() == body.take(i - first));
        }
        if !('0' <= c && c <= '9') {
            assert(digit_value(body[i - first]) is None);
            return None;
        }
        let d: usize = (c as u32 - '0' as u32) as usize;
        let next = match value.checked_mul(10) {
            Some(v) => v.checked_add(d),
            None => None,
        };
        match next {
            Some(v) => {
                value = v;
            },
            None => {
                proof {
                    lemma_digits_value_grows(body, i - first + 1);
                }
                return None;
            },
        }
        assert forall|j: int| 0 <= j < upto.len() implies digit_value(#[trigger] upto[j]) is Some by {
            if j < i - first {
                assert(upto[j] == body.take(i - first)[j]);
            }
        }
        i += 1;
    }
    assert(body.take(n - first) == body);
    Some(value)
}

/// What follows `prefix` in `s`, where `s` begins with it.
pub open spec fn after_prefix(s: Seq<char>, prefix: Seq<char>) -> Option<Seq<char>> {
    if prefix.is_prefix_of(s) {
        Some(s.skip(prefix.len() as int))
    } else {
        None
    }
}

/// Takes `prefix` off the front of `s`.
pub fn strip_prefix(s: &str, prefix: &str) -> (r: Option<String>)
    ensures
        r is Some <==> after_prefix(s@, prefix@) is Some,
        r is Some ==> Some(r->0@) == after_prefix(s@, prefix@),
{
    let chars = chars_of(s);
    let want = chars_of(prefix);
    if want.len() > chars.len() {
        return None;
    }
    if range_eq(&chars, 0, want.len(), &want) {
        assert(s@.subrange(0, prefix@.len() as int) == prefix@);
        Some(String::from_str(s.substring_char(want.len(), chars.len())))
    } else {
        assert(prefix@.is_prefix_of(s@) ==> s@.subrange(0, prefix@.len() as int) == prefix@);
        None
    }
}

/// The characters of each text of a list.
pub open spec fn texts(list: Seq<String>) -> Seq<Seq<char>> {
    list.map_values(|s: String| s@)
}

/// Whether `list` holds the text `wanted`.
pub fn contains_text(list: &Vec<String>, wanted: &str) -> (r: bool)
    ensures
        r == texts(list@).contains(wanted@),
{
    let mut i: usize = 0;
    while i < list.len()
        invariant
            i <= list.len(),
            forall|j: int| 0 <= j < i ==> texts(list@)[j] != wanted@,
        decreases list.len() - i,
    {
        if text_eq(list[i].as_str(), wanted) {
            assert(texts(list@)[i as int] == wanted@);
            return true;
        }
        i += 1;
    }
    false
}

/// The parts of `s` before and behind its first `sep`; `None` where `s` holds
/// no `sep`.
pub open spec fn split_once_of(s: Seq<char>, sep: char) -> Option<(Seq<char>, Seq<char>)> {
    let k = head_len(s, sep) as int;
    if k >= s.len() {
        None
    } else {
        Some((s.take(k), s.skip(k + 1)))
    }
}

/// Splits `s` at its first `sep`.
pub fn split_once(s: &str, sep: char) -> (r: Option<(String, String)>)
    ensures
        r is Some <==> split_once_of(s@, sep) is Some,
        r matches Some(pair) ==> (pair.0@, pair.1@) == split_once_of(s@, sep)->0,
{
    let chars = chars_of(s);
    let n = chars.len();
    let mut k: usize = 0;
    while k < n && chars[k] != sep
        invariant
            chars@ == s@,
            n == chars.len(),
            k <= n,
            forall|j: int| 0 <= j < k ==> chars@[j] != sep,
        decreases n - k,
    {
        k += 1;
    }
    proof {
        lemma_head_len(s@, sep, k as int);
    }
    if k == n {
        None
    } else {
        let head = String::from_str(s.substring_char(0, k));
        let tail = String::from_str(s.substring_char(k + 1, n));
        Some((head, tail))
    }
}

} // verus!
