//! Text on the level of characters: trimming, searching, letter case and
//! decimal numerals, each held to a mathematical description of the result.
use vstd::prelude::*;
use vstd::string::*;

verus! {

/// The characters with the Unicode `White_Space` property.
pub open spec fn is_white(c: char) -> bool {
    ||| '\u{9}' <= c <= '\u{d}'
    ||| c == ' '
    ||| c == '\u{85}'
    ||| c == '\u{a0}'
    ||| c == '\u{1680}'
    ||| '\u{2000}' <= c <= '\u{200a}'
    ||| c == '\u{2028}'
    ||| c == '\u{2029}'
    ||| c == '\u{202f}'
    ||| c == '\u{205f}'
    ||| c == '\u{3000}'
}

/// `s` without the white space at its start.
pub open spec fn trim_front(s: Seq<char>) -> Seq<char>
    decreases s.len(),
{
    if s.len() > 0 && is_white(s[0]) {
        trim_front(s.skip(1))
    } else {
        s
    }
}

/// `s` without the white space at its end.
pub open spec fn trim_back(s: Seq<char>) -> Seq<char>
    decreases s.len(),
{
    if s.len() > 0 && is_white(s.last()) {
        trim_back(s.drop_last())
    } else {
        s
    }
}

/// `s` without the white space at either end.
pub open spec fn trimmed(s: Seq<char>) -> Seq<char> {
    trim_back(trim_front(s))
}

/// Whether nothing but white space stands in `s`.
pub open spec fn is_blank(s: Seq<char>) -> bool {
    trimmed(s).len() == 0
}

/// Whether `part` stands in `s` from position `at` on.
pub open spec fn occurs_at(s: Seq<char>, part: Seq<char>, at: int) -> bool {
    &&& 0 <= at
    &&& at + part.len() <= s.len()
    &&& s.subrange(at, at + part.len()) == part
}

/// Whether `part` stands anywhere in `s`.
pub open spec fn occurs(s: Seq<char>, part: Seq<char>) -> bool {
    exists|at: int| occurs_at(s, part, at)
}

/// An ASCII capital as its small letter; every other character as it is.
pub open spec fn lower_char(c: char) -> char {
    if 'A' <= c <= 'Z' {
        ((c as u8) + 32) as char
    } else {
        c
    }
}

/// `s` with its ASCII capitals made small.
pub open spec fn lowered(s: Seq<char>) -> Seq<char> {
    s.map_values(|c: char| lower_char(c))
}

/// The decimal digit for a number below ten.
pub open spec fn digit_char(d: int) -> char {
    (48 + d) as char
}

/// The decimal numeral of `n`.
pub open spec fn decimal_text(n: nat) -> Seq<char>
    decreases n,
{
    if n < 10 {
        seq![digit_char(n as int)]
    } else {
        decimal_text(n / 10).push(digit_char((n % 10) as int))
    }
}

/// Whether `c` is an ASCII letter, an ASCII digit or an underscore.
pub open spec fn is_word_char(c: char) -> bool {
    'a' <= c <= 'z' || 'A' <= c <= 'Z' || '0' <= c <= '9' || c == '_'
}

/// The characters of `s`.
pub fn chars_of(s: &str) -> (r: Vec<char>)
    ensures
        r@ == s@,
{
    let mut out: Vec<char> = Vec::new();
    for c in it: s.chars()
        invariant
            it.seq() == s@,
            out@ == s@.take(it.index() as int),
    {
        out.push(c);
    }
    assert(out@ =~= s@);
    out
}

pub fn is_whitespace(c: char) -> (r: bool)
    ensures
        r == is_white(c),
{
    ('\u{9}' <= c && c <= '\u{d}') || c == ' ' || c == '\u{85}' || c == '\u{a0}' || c == '\u{1680}'
        || ('\u{2000}' <= c && c <= '\u{200a}') || c == '\u{2028}' || c == '\u{2029}'
        || c == '\u{202f}' || c == '\u{205f}' || c == '\u{3000}'
}

/// `s` without the white space at either end.
pub fn trim(s: &str) -> (r: &str)
    ensures
        r@ == trimmed(s@),
{
    let chars = chars_of(s);
    let n: usize = chars.len();
    let mut from: usize = 0;
    assert(s@.subrange(0, n as int) =~= s@);
    while from < n && is_whitespace(chars[from])
        invariant
            from <= n,
            n == chars@.len(),
            chars@ == s@,
            trim_front(s@) == trim_front(s@.subrange(from as int, n as int)),
        decreases n - from,
    {
        assert(s@.subrange(from as int, n as int).skip(1) =~= s@.subrange(from + 1, n as int));
        from += 1;
    }
    let mut to: usize = n;
    while to > from && is_whitespace(chars[to - 1])
        invariant
            from <= to <= n,
            n == chars@.len(),
            chars@ == s@,
            trimmed(s@) == trim_back(s@.subrange(from as int, to as int)),
        decreases to,
    {
        assert(s@.subrange(from as int, to as int).drop_last() =~= s@.subrange(
            from as int,
            to - 1,
        ));
        to -= 1;
    }
    s.substring_char(from, to)
}

/// Whether nothing but white space stands in `s`.
pub fn blank(s: &str) -> (r: bool)
    ensures
        r == is_blank(s@),
{
    trim(s).is_empty()
}

/// Whether `part` stands in `chars` from position `at` on.
pub fn stands_at(chars: &Vec<char>, part: &Vec<char>, at: usize) -> (r: bool)
    ensures
        r == occurs_at(chars@, part@, at as int),
{
    if at > chars.len() || part.len() > chars.len() - at {
        return false;
    }
    let n: usize = part.len();
    for i in 0..n
        invariant
            n == part@.len(),
            at + n <= chars@.len() <= usize::MAX,
            forall|j: int| 0 <= j < i ==> chars@[at + j] == part@[j],
    {
        if chars[at + i] != part[i] {
            assert(chars@.subrange(at as int, at + n)[i as int] != part@[i as int]);
            return false;
        }
    }
    assert(chars@.subrange(at as int, at + n) =~= part@);
    true
}

/// Whether `part` stands anywhere in `chars`.
pub fn has_part(chars: &Vec<char>, part: &str) -> (r: bool)
    ensures
        r == occurs(chars@, part@),
{
    let wanted = chars_of(part);
    let n: usize = chars.len();
    let mut at: usize = 0;
    while at <= n
        invariant
            wanted@ == part@,
            n == chars@.len(),
            at <= n + 1,
            forall|j: int| 0 <= j < at ==> !occurs_at(chars@, part@, j),
        decreases n + 1 - at,
    {
        if stands_at(chars, &wanted, at) {
            return true;
        }
        if at == n {
            return false;
        }
        at += 1;
    }
    false
}

/// Whether `part` stands anywhere in `s`.
pub fn contains(s: &str, part: &str) -> (r: bool)
    ensures
        r == occurs(s@, part@),
{
    has_part(&chars_of(s), part)
}

/// An ASCII capital as its small letter; every other character as it is.
pub fn to_lower_char(c: char) -> (r: char)
    ensures
        r == lower_char(c),
{
    if 'A' <= c && c <= 'Z' {
        ((c as u8) + 32) as char
    } else {
        c
    }
}

/// The characters of `s`, its ASCII capitals made small.
pub fn lower_chars(s: &str) -> (r: Vec<char>)
    ensures
        r@ == lowered(s@),
{
    let chars = chars_of(s);
    let mut out: Vec<char> = Vec::new();
    let n: usize = chars.len();
    for i in 0..n
        invariant
            n == chars@.len(),
            chars@ == s@,
            out@ == lowered(s@.take(i as int)),
    {
        out.push(to_lower_char(chars[i]));
        assert(out@ =~= lowered(s@.take(i + 1)));
    }
    assert(s@.take(n as int) =~= s@);
    out
}

/// Whether two sequences of characters are the same.
pub fn same_chars(a: &Vec<char>, b: &Vec<char>) -> (r: bool)
    ensures
        r == (a@ == b@),
{
    if a.len() != b.len() {
        return false;
    }
    let n: usize = a.len();
    for i in 0..n
        invariant
            n == a@.len(),
            n == b@.len(),
            a@.take(i as int) == b@.take(i as int),
    {
        if a[i] != b[i] {
            assert(a@ != b@);
            return false;
        }
        assert(a@.take(i + 1) =~= a@.take(i as int).push(a@[i as int]));
        assert(b@.take(i + 1) =~= b@.take(i as int).push(b@[i as int]));
    }
    assert(a@.take(n as int) =~= a@);
    assert(b@.take(n as int) =~= b@);
    true
}

/// Whether two texts are the same.
pub fn same_text(a: &str, b: &str) -> (r: bool)
    ensures
        r == (a@ == b@),
{
    same_chars(&chars_of(a), &chars_of(b))
}

/// Whether two texts are the same but for the case of ASCII letters.
pub fn same_ignoring_case(a: &str, b: &str) -> (r: bool)
    ensures
        r == (lowered(a@) == lowered(b@)),
{
    same_chars(&lower_chars(a), &lower_chars(b))
}

/// The decimal digit for a number below ten.
fn digit_text(d: u8) -> (r: &'static str)
    requires
        d < 10,
    ensures
        r@ == seq![digit_char(d as int)],
{
    proof {
        reveal_strlit("0");
        reveal_strlit("1");
        reveal_strlit("2");
        reveal_strlit("3");
        reveal_strlit("4");
        reveal_strlit("5");
        reveal_strlit("6");
        reveal_strlit("7");
        reveal_strlit("8");
        reveal_strlit("9");
    }
    match d {
        0 => "0",
        1 => "1",
        2 => "2",
        3 => "3",
        4 => "4",
        5 => "5",
        6 => "6",
        7 => "7",
        8 => "8",
        _ => "9",
    }
}

/// Adds the decimal numeral of `n` to `out`.
pub fn append_decimal(out: &mut String, n: u128)
    ensures
        final(out)@ == old(out)@ + decimal_text(n as nat),
    decreases n,
{
    if n >= 10 {
        append_decimal(out, n / 10);
    }
    out.append(digit_text((n % 10) as u8));
    assert(out@ =~= old(out)@ + decimal_text(n as nat));
}

/// The decimal numeral of `n`.
pub fn decimal(n: u128) -> (r: String)
    ensures
        r@ == decimal_text(n as nat),
{
    let mut out = String::new();
    append_decimal(&mut out, n);
    assert(out@ =~= decimal_text(n as nat));
    out
}

/// Whether `c` is an ASCII digit.
pub open spec fn is_digit(c: char) -> bool {
    '0' <= c <= '9'
}

/// The number that a row of ASCII digits stands for.
pub open spec fn digits_value(digits: Seq<char>) -> nat
    decreases digits.len(),
{
    if digits.len() == 0 {
        0
    } else {
        (digits_value(digits.drop_last()) * 10 + (digits.last() as int - 48)) as nat
    }
}

/// Whether every character is an ASCII digit.
pub open spec fn all_digits(s: Seq<char>) -> bool {
    forall|i: int| 0 <= i < s.len() ==> is_digit(#[trigger] s[i])
}

/// `s` without a plus sign in front.
pub open spec fn unsigned(s: Seq<char>) -> Seq<char> {
    if s.len() > 0 && s[0] == '+' {
        s.skip(1)
    } else {
        s
    }
}

/// The number that `s` stands for: one or more ASCII digits, behind a plus sign
/// or none.
pub open spec fn natural_of(s: Seq<char>) -> Option<nat> {
    if unsigned(s).len() > 0 && all_digits(unsigned(s)) {
        Some(digits_value(unsigned(s)))
    } else {
        None
    }
}

/// More digits make no smaller number.
proof fn lemma_digits_value_grows(digits: Seq<char>, k: int)
    requires
        0 <= k <= digits.len(),
        all_digits(digits),
    ensures
        digits_value(digits.take(k)) <= digits_value(digits),
    decreases digits.len() - k,
{
    if k < digits.len() {
        lemma_digits_value_grows(digits, k + 1);
        assert(digits.take(k + 1).drop_last() =~= digits.take(k));
        assert(is_digit(digits[k]));
    } else {
        assert(digits.take(k) =~= digits);
    }
}

/// Reads a number of 64 bits: one or more ASCII digits, behind a plus sign or
/// none.
pub fn parse_u64(s: &str) -> (r: Option<u64>)
    ensures
        match r {
            Some(n) => natural_of(s@) == Some(n as nat),
            None => natural_of(s@) matches Some(n) ==> n > u64::MAX,
        },
{
    let chars = chars_of(s);
    let n: usize = chars.len();
    let start: usize = if n > 0 && chars[0] == '+' {
        1
    } else {
        0
    };
    let ghost digits = s@.skip(start as int);
    assert(s@.skip(0) =~= s@);
    if start == n {
        return None;
    }
    let mut value: u64 = 0;
    let mut i: usize = start;
    while i < n
        invariant
            start <= i <= n,
            n == chars@.len(),
            chars@ == s@,
            digits == s@.skip(start as int),
            digits == unsigned(s@),
            forall|j: int| 0 <= j < i - start ==> is_digit(#[trigger] digits[j]),
            value == digits_value(digits.take(i - start)),
        decreases n - i,
    {
        let c: char = chars[i];
        assert(c == digits[i - start]);
        if c < '0' || '9' < c {
            assert(!is_digit(digits[i - start]));
            return None;
        }
        let digit: u64 = c as u64 - 48;
        assert(digits.take(i - start + 1).drop_last() =~= digits.take(i - start));
        assert(digits_value(digits.take(i - start + 1)) == value * 10 + digit);
        if value > (u64::MAX - digit) / 10 {
            proof {
                if all_digits(digits) {
                    lemma_digits_value_grows(digits, i - start + 1);
                }
            }
            return None;
        }
        value = value * 10 + digit;
        i += 1;
    }
    assert(digits.take(n - start) =~= digits);
    Some(value)
}

/// Reading the decimal numeral of a number gives the number back.
pub proof fn law_numeral_reads_back(n: nat)
    ensures
        natural_of(decimal_text(n)) == Some(n),
{
    lemma_numeral_digits(n);
    let numeral = decimal_text(n);
    assert(is_digit(numeral[0]));
}

proof fn lemma_numeral_digits(n: nat)
    ensures
        decimal_text(n).len() > 0,
        all_digits(decimal_text(n)),
        digits_value(decimal_text(n)) == n,
    decreases n,
{
    reveal_with_fuel(digits_value, 2);
    let last = digit_char((n % 10) as int);
    assert(is_digit(last) && last as int == 48 + n % 10);
    if n >= 10 {
        lemma_numeral_digits(n / 10);
        assert(decimal_text(n).drop_last() =~= decimal_text(n / 10));
    } else {
        assert(decimal_text(n) =~= seq![last]);
        assert(decimal_text(n).drop_last() =~= Seq::<char>::empty());
    }
}

/// Whether `a` comes before `b` when texts are ordered character by character.
pub open spec fn before(a: Seq<char>, b: Seq<char>) -> bool
    decreases a.len(),
{
    if b.len() == 0 {
        false
    } else if a.len() == 0 {
        true
    } else if a[0] != b[0] {
        a[0] < b[0]
    } else {
        before(a.skip(1), b.skip(1))
    }
}

/// No text comes before itself.
pub(crate) proof fn lemma_before_irreflexive(a: Seq<char>)
    ensures
        !before(a, a),
    decreases a.len(),
{
    if a.len() > 0 {
        lemma_before_irreflexive(a.skip(1));
    }
}

/// White space is what Unicode says it is, by code point: five control characters,
/// the space, and the few characters beyond ASCII with the same property.
pub proof fn law_white_space_by_code_point(c: char)
    ensures
        is_white(c) <==> ({
            let code = c as u32;
            ||| 9 <= code <= 13
            ||| code == 32
            ||| code == 0x85
            ||| code == 0xA0
            ||| code == 0x1680
            ||| 0x2000 <= code <= 0x200A
            ||| code == 0x2028
            ||| code == 0x2029
            ||| code == 0x202F
            ||| code == 0x205F
            ||| code == 0x3000
        }),
{
}

/// Whether nothing but white space stands in `s`, character by character.
pub open spec fn all_white(s: Seq<char>) -> bool {
    forall|i: int| 0 <= i < s.len() ==> is_white(#[trigger] s[i])
}

proof fn lemma_trim_front_white(head: Seq<char>, rest: Seq<char>)
    requires
        all_white(head),
        rest.len() == 0 || !is_white(rest[0]),
    ensures
        trim_front(head + rest) == rest,
    decreases head.len(),
{
    if head.len() == 0 {
        assert(head + rest =~= rest);
    } else {
        assert(is_white(head[0]));
        assert((head + rest).skip(1) =~= head.skip(1) + rest);
        assert forall|i: int| 0 <= i < head.skip(1).len() implies is_white(
            #[trigger] head.skip(1)[i],
        ) by {
            assert(is_white(head[i + 1]));
        }
        lemma_trim_front_white(head.skip(1), rest);
    }
}

proof fn lemma_trim_back_white(core: Seq<char>, tail: Seq<char>)
    requires
        all_white(tail),
        core.len() == 0 || !is_white(core.last()),
    ensures
        trim_back(core + tail) == core,
    decreases tail.len(),
{
    if tail.len() == 0 {
        assert(core + tail =~= core);
    } else {
        assert(is_white(tail[tail.len() - 1]));
        assert((core + tail).last() == tail.last());
        assert((core + tail).drop_last() =~= core + tail.drop_last());
        assert forall|i: int| 0 <= i < tail.drop_last().len() implies is_white(
            #[trigger] tail.drop_last()[i],
        ) by {
            assert(is_white(tail[i]));
        }
        lemma_trim_back_white(core, tail.drop_last());
    }
}

/// Trimming takes the white space at both ends away and nothing else: what begins
/// and ends with other characters stays whole, however long it is and whatever
/// stands inside.
pub proof fn law_trimming_keeps_the_core(head: Seq<char>, core: Seq<char>, tail: Seq<char>)
    requires
        all_white(head),
        all_white(tail),
        core.len() == 0 || (!is_white(core[0]) && !is_white(core.last())),
    ensures
        trimmed(head + core + tail) == core,
{
    if core.len() == 0 {
        let whole = head + tail;
        assert(head + core + tail =~= whole + Seq::<char>::empty());
        assert forall|i: int| 0 <= i < whole.len() implies is_white(#[trigger] whole[i]) by {
            if i < head.len() {
                assert(is_white(head[i]));
            } else {
                assert(is_white(tail[i - head.len()]));
            }
        }
        lemma_trim_front_white(whole, Seq::empty());
        assert(core =~= Seq::empty());
    } else {
        assert(head + core + tail =~= head + (core + tail));
        lemma_trim_front_white(head, core + tail);
        lemma_trim_back_white(core, tail);
    }
}

/// Text is blank where, and only where, every character of it is white space.
pub proof fn law_blank_is_all_white(s: Seq<char>)
    ensures
        is_blank(s) <==> all_white(s),
{
    if all_white(s) {
        assert(s =~= s + Seq::<char>::empty() + Seq::<char>::empty());
        law_trimming_keeps_the_core(s, Seq::empty(), Seq::empty());
    } else {
        let k = choose|k: int| 0 <= k < s.len() && !is_white(#[trigger] s[k]);
        lemma_trim_front_keeps(s, k);
        let rest = trim_front(s);
        let m = choose|m: int| 0 <= m < rest.len() && rest[m] == s[k];
        lemma_trim_back_keeps(rest, m);
    }
}

proof fn lemma_trim_front_keeps(s: Seq<char>, k: int)
    requires
        0 <= k < s.len(),
        !is_white(s[k]),
    ensures
        exists|m: int| 0 <= m < trim_front(s).len() && trim_front(s)[m] == s[k],
    decreases s.len(),
{
    if is_white(s[0]) {
        assert(s.skip(1)[k - 1] == s[k]);
        lemma_trim_front_keeps(s.skip(1), k - 1);
        let rest = trim_front(s.skip(1));
        let m = choose|m: int| 0 <= m < rest.len() && rest[m] == s.skip(1)[k - 1];
        assert(trim_front(s)[m] == s[k]);
    } else {
        assert(trim_front(s)[k] == s[k]);
    }
}

proof fn lemma_trim_back_keeps(s: Seq<char>, k: int)
    requires
        0 <= k < s.len(),
        !is_white(s[k]),
    ensures
        trim_back(s).len() > 0,
    decreases s.len(),
{
    if is_white(s.last()) {
        assert(s.drop_last()[k] == s[k]);
        lemma_trim_back_keeps(s.drop_last(), k);
    }
}

/// A part stands in a text where, and only where, the text is the part with some
/// text before it and some text behind it.
pub proof fn law_part_stands_between(s: Seq<char>, part: Seq<char>)
    ensures
        occurs(s, part) <==> exists|head: Seq<char>, tail: Seq<char>|
            s == #[trigger] (head + part + tail),
{
    if occurs(s, part) {
        let at = choose|at: int| occurs_at(s, part, at);
        let head = s.take(at);
        let tail = s.skip(at + part.len());
        assert(s =~= head + s.subrange(at, at + part.len()) + tail);
        assert(s == head + part + tail);
    }
    if exists|head: Seq<char>, tail: Seq<char>| s == #[trigger] (head + part + tail) {
        let (head, tail) = choose|head: Seq<char>, tail: Seq<char>|
            s == #[trigger] (head + part + tail);
        assert(s.subrange(head.len() as int, (head.len() + part.len()) as int) =~= part);
        assert(occurs_at(s, part, head.len() as int));
    }
}

/// Letter case is a matter of ASCII capitals alone: each becomes the letter whose
/// code is greater by 32, and every other character stays, in its place.
pub proof fn law_lowering_moves_ascii_capitals(s: Seq<char>, i: int)
    requires
        0 <= i < s.len(),
    ensures
        lowered(s).len() == s.len(),
        lowered(s)[i] as u32 == (if 65 <= s[i] as u32 <= 90 {
            s[i] as u32 + 32
        } else {
            s[i] as int
        }),
{
}

/// A word is made of the ASCII letters and digits and the underscore, by code
/// point.
pub proof fn law_word_characters_by_code_point(c: char)
    ensures
        is_word_char(c) <==> (48 <= c as u32 <= 57 || 65 <= c as u32 <= 90 || c as u32 == 95 || 97
            <= c as u32 <= 122),
{
}

/// A numeral is written digit by digit: a number below ten is the character whose
/// code is greater by 48, and one more digit behind a numeral is ten times the
/// number and the digit.
pub proof fn law_numeral_is_written_by_digits(n: nat, d: nat)
    requires
        d < 10,
    ensures
        decimal_text(d).len() == 1,
        decimal_text(d)[0] as u32 == 48 + d,
        n > 0 ==> decimal_text(10 * n + d) == decimal_text(n) + decimal_text(d),
{
    let c = digit_char(d as int);
    assert(c as u32 == 48 + d);
    if n > 0 {
        assert((10 * n + d) / 10 == n && (10 * n + d) % 10 == d) by (nonlinear_arith)
            requires
                d < 10,
        ;
        assert(decimal_text(10 * n + d) =~= decimal_text(n) + decimal_text(d));
    }
}

/// A number is read digit by digit: one digit is its code less 48, and one more
/// digit makes ten times the number and the digit.
pub proof fn law_number_is_read_by_digits(s: Seq<char>, c: char)
    requires
        48 <= c as u32 <= 57,
    ensures
        natural_of(seq![c]) == Some((c as u32 - 48) as nat),
        natural_of(s) matches Some(n) ==> natural_of(s.push(c)) == Some(
            (10 * n + (c as u32 - 48)) as nat,
        ),
{
    reveal_with_fuel(digits_value, 2);
    assert(seq![c].drop_last() =~= Seq::<char>::empty());
    if natural_of(s) is Some {
        let longer = s.push(c);
        assert(unsigned(longer) =~= unsigned(s).push(c));
        assert(unsigned(longer).drop_last() =~= unsigned(s));
        assert forall|i: int| 0 <= i < unsigned(longer).len() implies is_digit(
            #[trigger] unsigned(longer)[i],
        ) by {
            if i < unsigned(s).len() {
                assert(is_digit(unsigned(s)[i]));
            }
        }
    }
}

/// A plus sign in front changes nothing; without a digit, and with any other
/// character, a text is no number.
pub proof fn law_what_is_no_number(s: Seq<char>, i: int)
    ensures
        s.len() > 0 && s[0] != '+' ==> natural_of(seq!['+'] + s) == natural_of(s),
        natural_of(Seq::empty()) is None,
        natural_of(seq!['+']) is None,
        0 < i < s.len() && !(48 <= s[i] as u32 <= 57) ==> natural_of(s) is None,
        s.len() > 0 && s[0] != '+' && !(48 <= s[0] as u32 <= 57) ==> natural_of(s) is None,
{
    assert((seq!['+'] + s).skip(1) =~= s);
    if 0 < i < s.len() && !(48 <= s[i] as u32 <= 57) {
        if s[0] == '+' {
            assert(unsigned(s)[i - 1] == s[i]);
            assert(!is_digit(unsigned(s)[i - 1]));
        } else {
            assert(!is_digit(unsigned(s)[i]));
        }
    }
    if s.len() > 0 && s[0] != '+' && !(48 <= s[0] as u32 <= 57) {
        assert(!is_digit(unsigned(s)[0]));
    }
}

/// Texts are ordered as in a dictionary: a text comes before its continuations, and
/// otherwise the first characters that differ decide.
pub proof fn law_texts_are_ordered_as_in_a_dictionary(
    common: Seq<char>,
    a: Seq<char>,
    b: Seq<char>,
)
    requires
        a.len() == 0 || b.len() == 0 || a[0] != b[0],
    ensures
        before(common + a, common + b) <==> (b.len() > 0 && (a.len() == 0 || a[0] < b[0])),
    decreases common.len(),
{
    if common.len() == 0 {
        assert(common + a =~= a);
        assert(common + b =~= b);
    } else {
        assert((common + a).skip(1) =~= common.skip(1) + a);
        assert((common + b).skip(1) =~= common.skip(1) + b);
        law_texts_are_ordered_as_in_a_dictionary(common.skip(1), a, b);
    }
}

} // verus!
