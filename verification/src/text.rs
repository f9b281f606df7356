//! Reading numbers and switches out of text.

use vstd::prelude::*;

verus! {

/// The text that an optional string holds, if it is there.
pub open spec fn opt_text(s: Option<String>) -> Option<Seq<char>> {
    match s {
        Some(t) => Some(t@),
        None => None,
    }
}

/// The texts of a list of strings.
pub open spec fn texts(v: Seq<String>) -> Seq<Seq<char>> {
    Seq::new(v.len(), |i: int| v[i]@)
}

pub open spec fn is_digit(c: char) -> bool {
    '0' <= c && c <= '9'
}

pub open spec fn digit_value(c: char) -> nat {
    (c as nat - '0' as nat) as nat
}

/// The number that a run of decimal digits writes down.
pub open spec fn decimal_value(digits: Seq<char>) -> nat
    decreases digits.len(),
{
    if digits.len() == 0 {
        0
    } else {
        10 * decimal_value(digits.drop_last()) + digit_value(digits.last())
    }
}

/// What follows an optional leading plus sign.
pub open spec fn after_sign(s: Seq<char>) -> Seq<char> {
    if s.len() > 0 && s[0] == '+' {
        s.drop_first()
    } else {
        s
    }
}

/// An unsigned decimal numeral: an optional plus sign and at least one digit, nothing else.
pub open spec fn is_numeral(s: Seq<char>) -> bool {
    let digits = after_sign(s);
    &&& digits.len() > 0
    &&& forall|i: int| 0 <= i < digits.len() ==> is_digit(#[trigger] digits[i])
}

/// The number that `s` writes down, where `s` is a numeral and the number is at most `max`.
pub open spec fn unsigned_value(s: Seq<char>, max: nat) -> Option<nat> {
    if is_numeral(s) && decimal_value(after_sign(s)) <= max {
        Some(decimal_value(after_sign(s)))
    } else {
        None
    }
}

/// The number that `var` writes down, or `default` where it is missing, no numeral or too large.
pub open spec fn number_or(var: Option<Seq<char>>, max: nat, default: nat) -> nat {
    match var {
        Some(s) => match unsigned_value(s, max) {
            Some(n) => n,
            None => default,
        },
        None => default,
    }
}

/// A longer run of digits writes down a number at least as large.
proof fn lemma_value_grows(digits: Seq<char>, k: int)
    requires
        0 <= k <= digits.len(),
    ensures
        decimal_value(digits.take(k)) <= decimal_value(digits),
    decreases digits.len() - k,
{
    if k == digits.len() {
        assert(digits.take(k) =~= digits);
    } else {
        lemma_value_grows(digits, k + 1);
        assert(digits.take(k + 1).drop_last() =~= digits.take(k));
    }
}

/// The characters of a text, in order.
pub(crate) fn char_list(text: &str) -> (r: Vec<char>)
    ensures
        r@ == text@,
{
    let mut list: Vec<char> = Vec::new();
    for c in it: text.chars()
        invariant
            it.seq() == text@,
            list@ == it.seq().take(it.index() as int),
    {
        list.push(c);
    }
    proof {
        assert(text@.take(text@.len() as int) =~= text@);
    }
    list
}

/// Reads an unsigned decimal numeral of at most `max`.
pub fn parse_unsigned(text: &str, max: u128) -> (r: Option<u128>)
    ensures
        r is Some <==> unsigned_value(text@, max as nat) is Some,
        r is Some ==> unsigned_value(text@, max as nat) == Some(r->0 as nat),
{
    let ghost digits = after_sign(text@);
    let chars: Vec<char> = char_list(text);
    let len: usize = chars.len();
    let start: usize = if len > 0 && chars[0] == '+' {
        1
    } else {
        0
    };
    if start == len {
        return None;
    }
    let mut value: u128 = 0;
    let mut i: usize = start;
    while i < len
        invariant
            chars@ == text@,
            len == text@.len(),
            start <= i <= len,
            start < len,
            start == 0 || start == 1,
            digits == after_sign(text@),
            digits.len() == len - start,
            forall|j: int| 0 <= j < digits.len() ==> #[trigger] digits[j] == text@[j + start],
            forall|j: int| 0 <= j < i - start ==> is_digit(#[trigger] digits[j]),
            value == decimal_value(digits.take(i - start)),
            value <= max,
        decreases len - i,
    {
        let c: char = chars[i];
        let ghost k: int = i - start;
        assert(digits[k] == c);
        if !('0' <= c && c <= '9') {
            return None;
        }
        let d: u128 = (c as u32 - '0' as u32) as u128;
        proof {
            assert(digits.take(k + 1).drop_last() =~= digits.take(k));
            assert(decimal_value(digits.take(k + 1)) == 10 * value + d);
            lemma_value_grows(digits, k + 1);
        }
        if d > max || value > (max - d) / 10 {
            return None;
        }
        value = value * 10 + d;
        i = i + 1;
    }
    proof {
        assert(digits.take(len - start) =~= digits);
    }
    Some(value)
}

/// Reads the number in `var`, falling back to `default` where it is missing, no numeral or
/// larger than `max`.
pub fn number_or_default(var: &Option<String>, max: u128, default: u128) -> (r: u128)
    ensures
        r as nat == number_or(opt_text(*var), max as nat, default as nat),
        default <= max ==> r <= max,
{
    match var {
        Some(s) => match parse_unsigned(s.as_str(), max) {
            Some(n) => n,
            None => default,
        },
        None => default,
    }
}

/// The lower-case form of an ASCII letter; any other character stays as it is.
pub open spec fn ascii_lower(c: char) -> char {
    if 'A' <= c && c <= 'Z' {
        (c as int + 32) as char
    } else {
        c
    }
}

/// Two texts are equal up to the case of ASCII letters.
pub open spec fn equal_ignoring_ascii_case(a: Seq<char>, b: Seq<char>) -> bool {
    &&& a.len() == b.len()
    &&& forall|i: int| 0 <= i < a.len() ==> ascii_lower(#[trigger] a[i]) == ascii_lower(b[i])
}

/// The texts that switch an option on: `1`, and `true` in any case.
pub open spec fn is_truthy(s: Seq<char>) -> bool {
    s == "1"@ || equal_ignoring_ascii_case(s, "true"@)
}

/// The switch that `var` sets, or `default` where it is missing.
pub open spec fn switch_or(var: Option<Seq<char>>, default: bool) -> bool {
    match var {
        Some(s) => is_truthy(s),
        None => default,
    }
}

fn to_ascii_lower(c: char) -> (r: char)
    ensures
        r == ascii_lower(c),
{
    if 'A' <= c && c <= 'Z' {
        let code: u8 = c as u8;
        (code + 32) as char
    } else {
        c
    }
}

/// Compares two texts, taking an ASCII letter and its other case for the same.
pub fn eq_ignoring_ascii_case(a: &str, b: &str) -> (r: bool)
    ensures
        r == equal_ignoring_ascii_case(a@, b@),
{
    let x: Vec<char> = char_list(a);
    let y: Vec<char> = char_list(b);
    if x.len() != y.len() {
        return false;
    }
    for i in 0..x.len()
        invariant
            x@ == a@,
            y@ == b@,
            x.len() == y.len(),
            forall|j: int| 0 <= j < i ==> ascii_lower(#[trigger] a@[j]) == ascii_lower(b@[j]),
    {
        if to_ascii_lower(x[i]) != to_ascii_lower(y[i]) {
            assert(ascii_lower(a@[i as int]) != ascii_lower(b@[i as int]));
            return false;
        }
    }
    true
}

/// Reads the switch in `var`: on for `1` and for `true` in any case, off for any other text,
/// `default` where it is missing.
pub fn flag_or(var: &Option<String>, default: bool) -> (r: bool)
    ensures
        r == switch_or(opt_text(*var), default),
{
    match var {
        Some(s) => *s == "1".to_string() || eq_ignoring_ascii_case(s.as_str(), "true"),
        None => default,
    }
}

/// A copy of an optional string.
pub(crate) fn copy_text(s: &Option<String>) -> (r: Option<String>)
    ensures
        opt_text(r) == opt_text(*s),
{
    match s {
        Some(t) => Some(t.clone()),
        None => None,
    }
}

/// Three texts, one behind the other.
pub(crate) fn join(a: &str, b: &str, c: &str) -> (r: String)
    ensures
        r@ == a@ + b@ + c@,
{
    a.to_string().concat(b).concat(c)
}

/// A number that is missing, no numeral or too large counts as the default.
pub proof fn law_bad_number_is_default(var: Option<Seq<char>>, max: nat, default: nat)
    ensures
        var is None ==> number_or(var, max, default) == default,
        var is Some && !is_numeral(var->0) ==> number_or(var, max, default) == default,
        var is Some && decimal_value(after_sign(var->0)) > max ==> number_or(var, max, default)
            == default,
        var is Some && is_numeral(var->0) && decimal_value(after_sign(var->0)) <= max ==> number_or(
            var,
            max,
            default,
        ) == decimal_value(after_sign(var->0)),
{
}

/// What stands between two fixed texts can be read off the whole.
pub(crate) proof fn lemma_between(front: Seq<char>, a: Seq<char>, b: Seq<char>, back: Seq<char>)
    ensures
        front + a + back == front + b + back <==> a == b,
{
    let x = front + a + back;
    let y = front + b + back;
    if x == y {
        assert(x.len() == y.len());
        assert forall|i: int| 0 <= i < a.len() implies a[i] == b[i] by {
            assert(x[front.len() + i] == a[i]);
            assert(y[front.len() + i] == b[i]);
        }
        assert(a =~= b);
    }
}

/// The decimal digits of a number, without leading zeros; zero has one digit.
pub open spec fn decimal_digits(n: nat) -> Seq<char>
    decreases n,
{
    if n < 10 {
        seq![(n + 48) as char]
    } else {
        decimal_digits(n / 10).push((n % 10 + 48) as char)
    }
}

proof fn lemma_digits_read_back(n: nat)
    ensures
        decimal_digits(n).len() > 0,
        forall|i: int| 0 <= i < decimal_digits(n).len() ==> is_digit(#[trigger] decimal_digits(n)[i]),
        decimal_value(decimal_digits(n)) == n,
    decreases n,
{
    let d = decimal_digits(n);
    if n < 10 {
        assert(d.drop_last() =~= Seq::empty());
        assert(decimal_value(Seq::empty()) == 0);
    } else {
        lemma_digits_read_back(n / 10);
        assert(d.drop_last() =~= decimal_digits(n / 10));
    }
}

/// Every number up to the maximum is read back from its decimal digits, with or without a plus sign.
/// A larger one is not read at all.
pub proof fn law_numbers_read_back(n: nat, max: nat)
    ensures
        n <= max ==> unsigned_value(decimal_digits(n), max) == Some(n),
        n <= max ==> unsigned_value(seq!['+'] + decimal_digits(n), max) == Some(n),
        n > max ==> unsigned_value(decimal_digits(n), max) is None,
        n > max ==> unsigned_value(seq!['+'] + decimal_digits(n), max) is None,
{
    lemma_digits_read_back(n);
    let d = decimal_digits(n);
    assert(is_digit(d[0]));
    assert(after_sign(d) == d);
    assert(after_sign(seq!['+'] + d) =~= d);
}

/// A text is read only where it holds at least one digit and nothing but digits behind an optional
/// plus sign.
pub proof fn law_only_digits_are_read(s: Seq<char>, max: nat, i: int)
    ensures
        s.len() == 0 ==> unsigned_value(s, max) is None,
        s == seq!['+'] ==> unsigned_value(s, max) is None,
        0 <= i < s.len() && !('0' <= s[i] && s[i] <= '9') && !(i == 0 && s[i] == '+')
            ==> unsigned_value(s, max) is None,
{
    if 0 <= i < s.len() && !('0' <= s[i] && s[i] <= '9') && !(i == 0 && s[i] == '+') {
        let d = after_sign(s);
        if s[0] == '+' {
            assert(d[i - 1] == s[i]);
        } else {
            assert(d[i] == s[i]);
        }
    }
}

/// One more digit behind a text that is read makes ten times the number and the digit, and is read
/// exactly where that is within the maximum.
pub proof fn law_one_more_digit(s: Seq<char>, c: char, max: nat)
    requires
        unsigned_value(s, max) is Some,
        '0' <= c,
        c <= '9',
    ensures
        ({
            let n = 10 * unsigned_value(s, max)->0 + (c as int - 48);
            &&& n <= max ==> unsigned_value(s.push(c), max) == Some(n as nat)
            &&& n > max ==> unsigned_value(s.push(c), max) is None
        }),
{
    let d = after_sign(s);
    let e = after_sign(s.push(c));
    assert(e =~= d.push(c));
    assert(e.drop_last() =~= d);
    assert forall|i: int| 0 <= i < e.len() implies is_digit(#[trigger] e[i]) by {
        if i < d.len() {
            assert(is_digit(d[i]));
        }
    }
}

/// A single digit is read as the number that it stands for.
pub proof fn law_single_digit(c: char, max: nat)
    requires
        '0' <= c,
        c <= '9',
        max >= 9,
    ensures
        unsigned_value(seq![c], max) == Some((c as int - 48) as nat),
{
    let d = seq![c];
    assert(after_sign(d) == d);
    assert(d.drop_last() =~= Seq::empty());
    assert(decimal_value(Seq::empty()) == 0);
}

/// A setting that is read as a number gives that number, and one that is missing or not read gives
/// the default.
pub proof fn law_setting_gives_its_number(var: Option<Seq<char>>, max: nat, default: nat)
    ensures
        var is None ==> number_or(var, max, default) == default,
        var is Some && unsigned_value(var->0, max) is None ==> number_or(var, max, default)
            == default,
        var is Some && unsigned_value(var->0, max) is Some ==> number_or(var, max, default)
            == unsigned_value(var->0, max)->0,
{
}

/// Two texts count as equal exactly where they have the same length and differ at most in the case of
/// ASCII letters, place by place.
pub proof fn law_only_letter_case_is_ignored(a: Seq<char>, b: Seq<char>)
    ensures
        equal_ignoring_ascii_case(a, b) <==> a.len() == b.len() && forall|i: int|
            0 <= i < a.len() ==> {
                let x = #[trigger] a[i];
                let y = b[i];
                ||| x == y
                ||| 'A' <= x && x <= 'Z' && y as int == x as int + 32
                ||| 'A' <= y && y <= 'Z' && x as int == y as int + 32
            },
{
}

/// A switch is on for `1` and for the four letters of `true`, each in either case. It is off for any
/// other text, and it has its default where it is missing.
pub proof fn law_switch_texts(var: Option<Seq<char>>, default: bool)
    ensures
        var is None ==> switch_or(var, default) == default,
        var matches Some(s) ==> (switch_or(var, default) <==> {
            ||| s.len() == 1 && s[0] == '1'
            ||| s.len() == 4 && (s[0] == 't' || s[0] == 'T') && (s[1] == 'r' || s[1] == 'R') && (
            s[2] == 'u' || s[2] == 'U') && (s[3] == 'e' || s[3] == 'E')
        }),
{
    reveal_strlit("1");
    reveal_strlit("true");
    if let Some(s) = var {
        if s.len() == 1 && s[0] == '1' {
            assert(s =~= "1"@);
        }
        let t = "true"@;
        assert(t.len() == 4 && t[0] == 't' && t[1] == 'r' && t[2] == 'u' && t[3] == 'e');
        law_only_letter_case_is_ignored(s, t);
        if equal_ignoring_ascii_case(s, t) {
            assert(ascii_lower(s[0]) == ascii_lower(t[0]));
            assert(ascii_lower(s[1]) == ascii_lower(t[1]));
            assert(ascii_lower(s[2]) == ascii_lower(t[2]));
            assert(ascii_lower(s[3]) == ascii_lower(t[3]));
        }
    }
}

/// The texts of strings are theirs, one for one.
pub proof fn law_texts_are_those_of_the_strings(v: Seq<String>, s: Option<String>)
    ensures
        texts(v).len() == v.len(),
        forall|i: int| 0 <= i < v.len() ==> #[trigger] texts(v)[i] == v[i]@,
        s is None <==> opt_text(s) is None,
        s is Some ==> opt_text(s) == Some(s->0@),
{
}

} // verus!
