//! Text building blocks: decimal numerals and joined lists.

use vstd::prelude::*;

verus! {

/// The character that writes a single decimal digit.
pub open spec fn digit_char(d: nat) -> char {
    if d == 0 {
        '0'
    } else if d == 1 {
        '1'
    } else if d == 2 {
        '2'
    } else if d == 3 {
        '3'
    } else if d == 4 {
        '4'
    } else if d == 5 {
        '5'
    } else if d == 6 {
        '6'
    } else if d == 7 {
        '7'
    } else if d == 8 {
        '8'
    } else {
        '9'
    }
}

/// The decimal numeral of a natural number, most significant digit first,
/// without leading zeros.
pub open spec fn digits(n: nat) -> Seq<char>
    decreases n,
{
    if n < 10 {
        seq![digit_char(n)]
    } else {
        digits(n / 10).push(digit_char(n % 10))
    }
}

/// The decimal numeral of an integer: a minus sign for negative numbers,
/// then the digits of the magnitude.
pub open spec fn decimal(i: int) -> Seq<char> {
    if i < 0 {
        seq!['-'] + digits((-i) as nat)
    } else {
        digits(i as nat)
    }
}

/// The texts of `parts` written one after another with `sep` between
/// neighbours.
pub open spec fn join(parts: Seq<Seq<char>>, sep: Seq<char>) -> Seq<char>
    decreases parts.len(),
{
    if parts.len() == 0 {
        Seq::empty()
    } else if parts.len() == 1 {
        parts[0]
    } else {
        join(parts.drop_last(), sep) + sep + parts.last()
    }
}

/// The views of a sequence of strings.
pub open spec fn texts(items: Seq<String>) -> Seq<Seq<char>> {
    items.map_values(|s: String| s@)
}

fn digit_str(d: u8) -> (s: &'static str)
    requires
        d < 10,
    ensures
        s@ == seq![digit_char(d as nat)],
{
    proof {
        reveal_strlit("0");
        reveal_strlit("1");
        reveal_strlit("2");
        reveal_strlit("3");
        reveal_strlit("4");
        reveal_strlit("5");
        reveal_strlit("6");
        reveal_strlit("7");
        reveal_strlit("8");
        reveal_strlit("9");
    }
    let s = if d == 0 {
        "0"
    } else if d == 1 {
        "1"
    } else if d == 2 {
        "2"
    } else if d == 3 {
        "3"
    } else if d == 4 {
        "4"
    } else if d == 5 {
        "5"
    } else if d == 6 {
        "6"
    } else if d == 7 {
        "7"
    } else if d == 8 {
        "8"
    } else {
        "9"
    };
    assert(s@ =~= seq![digit_char(d as nat)]);
    s
}

/// Appends the decimal numeral of `n` to `out`.
pub fn push_digits(out: &mut String, n: u64)
    ensures
        final(out)@ == old(out)@ + digits(n as nat),
    decreases n,
{
    if n >= 10 {
        push_digits(out, n / 10);
    }
    out.append(digit_str((n % 10) as u8));
    assert(final(out)@ =~= old(out)@ + digits(n as nat));
}

/// Appends the decimal numeral of `v` to `out`.
pub fn push_decimal(out: &mut String, v: i64)
    ensures
        final(out)@ == old(out)@ + decimal(v as int),
{
    if v < 0 {
        proof {
            reveal_strlit("-");
        }
        out.append("-");
        let magnitude: u64 = if v == i64::MIN {
            9223372036854775808u64
        } else {
            (-v) as u64
        };
        push_digits(out, magnitude);
        assert(final(out)@ =~= old(out)@ + decimal(v as int));
    } else {
        push_digits(out, v as u64);
    }
}

/// Writes the strings of `parts` one after another with `sep` between
/// neighbours.
pub fn join_strings(parts: &[String], sep: &str) -> (out: String)
    ensures
        out@ == join(texts(parts@), sep@),
{
    let mut out = String::new();
    let mut i: usize = 0;
    while i < parts.len()
        invariant
            i <= parts.len(),
            out@ == join(texts(parts@).take(i as int), sep@),
        decreases parts.len() - i,
    {
        let ghost done = texts(parts@).take(i as int);
        let ghost next = texts(parts@).take(i + 1);
        assert(next.drop_last() =~= done);
        assert(next.last() == parts@[i as int]@);
        if i > 0 {
            out.append(sep);
        }
        out.append(parts[i].as_str());
        assert(out@ =~= join(next, sep@));
        i += 1;
    }
    assert(texts(parts@).take(i as int) =~= texts(parts@));
    out
}

/// The number that a decimal digit character writes.
pub open spec fn digit_value(c: char) -> nat {
    if c == '0' {
        0
    } else if c == '1' {
        1
    } else if c == '2' {
        2
    } else if c == '3' {
        3
    } else if c == '4' {
        4
    } else if c == '5' {
        5
    } else if c == '6' {
        6
    } else if c == '7' {
        7
    } else if c == '8' {
        8
    } else {
        9
    }
}

/// Whether a character is a decimal digit.
pub open spec fn is_digit(c: char) -> bool {
    c == digit_char(digit_value(c))
}

/// The number that a string of decimal digits writes.
pub open spec fn numeral_value(numeral: Seq<char>) -> nat
    decreases numeral.len(),
{
    if numeral.len() == 0 {
        0
    } else {
        numeral_value(numeral.drop_last()) * 10 + digit_value(numeral.last())
    }
}

/// Whether `c` occurs nowhere in `text`.
pub open spec fn lacks(text: Seq<char>, c: char) -> bool {
    forall|i: int| 0 <= i < text.len() ==> text[i] != c
}

/// A numeral is not empty, consists of digits, and reads back as the
/// number it was written for.
pub proof fn lemma_digits_read_back(n: nat)
    ensures
        digits(n).len() > 0,
        forall|i: int| 0 <= i < digits(n).len() ==> is_digit(#[trigger] digits(n)[i]),
        numeral_value(digits(n)) == n,
    decreases n,
{
    if n < 10 {
        assert(digits(n) =~= seq![digit_char(n)]);
        assert(digits(n).drop_last() =~= Seq::<char>::empty());
        assert(numeral_value(digits(n).drop_last()) == 0);
    } else {
        lemma_digits_read_back(n / 10);
        assert(digits(n).drop_last() =~= digits(n / 10));
        assert(digits(n).last() == digit_char(n % 10));
    }
}

/// Different numbers have different decimal numerals.
pub proof fn lemma_decimal_injective(a: int, b: int)
    requires
        decimal(a) == decimal(b),
    ensures
        a == b,
{
    lemma_digits_read_back(if a < 0 {
        (-a) as nat
    } else {
        a as nat
    });
    lemma_digits_read_back(if b < 0 {
        (-b) as nat
    } else {
        b as nat
    });
    if a < 0 && b < 0 {
        let da = digits((-a) as nat);
        let db = digits((-b) as nat);
        assert(da =~= decimal(a).skip(1));
        assert(db =~= decimal(b).skip(1));
    } else if a < 0 {
        assert(decimal(a)[0] == '-');
        assert(is_digit(digits(b as nat)[0]));
    } else if b < 0 {
        assert(decimal(b)[0] == '-');
        assert(is_digit(digits(a as nat)[0]));
    }
}

/// A decimal numeral holds digits and at most a minus sign: no other
/// character occurs in it.
pub proof fn lemma_decimal_lacks(i: int, c: char)
    requires
        !is_digit(c),
        c != '-',
    ensures
        lacks(decimal(i), c),
{
    let magnitude = if i < 0 {
        (-i) as nat
    } else {
        i as nat
    };
    lemma_digits_read_back(magnitude);
    assert forall|k: int| 0 <= k < decimal(i).len() implies decimal(i)[k] != c by {
        if i < 0 {
            if k > 0 {
                assert(decimal(i)[k] == digits(magnitude)[k - 1]);
                assert(is_digit(digits(magnitude)[k - 1]));
            }
        } else {
            assert(is_digit(digits(magnitude)[k]));
        }
    }
}

/// A text that ends in a separator character and a tail without that
/// character can be taken apart in one way only.
pub proof fn lemma_split_at_last(
    head_a: Seq<char>,
    tail_a: Seq<char>,
    head_b: Seq<char>,
    tail_b: Seq<char>,
    sep: char,
)
    requires
        head_a + seq![sep] + tail_a == head_b + seq![sep] + tail_b,
        lacks(tail_a, sep),
        lacks(tail_b, sep),
    ensures
        head_a == head_b,
        tail_a == tail_b,
{
    let whole_a = head_a + seq![sep] + tail_a;
    let whole_b = head_b + seq![sep] + tail_b;
    assert(whole_a.len() == whole_b.len());
    if tail_a.len() < tail_b.len() {
        let at = head_a.len() as int;
        assert(whole_a[at] == sep);
        assert(whole_b[at] == tail_b[at - head_b.len() - 1]);
    } else if tail_b.len() < tail_a.len() {
        let at = head_b.len() as int;
        assert(whole_b[at] == sep);
        assert(whole_a[at] == tail_a[at - head_a.len() - 1]);
    }
    assert(head_a =~= whole_a.take(head_a.len() as int));
    assert(head_b =~= whole_b.take(head_b.len() as int));
    assert(tail_a =~= whole_a.skip(head_a.len() as int + 1));
    assert(tail_b =~= whole_b.skip(head_b.len() as int + 1));
}

/// Whether none of the parts holds the character `c`.
pub open spec fn all_lack(parts: Seq<Seq<char>>, c: char) -> bool {
    forall|i: int| 0 <= i < parts.len() ==> lacks(#[trigger] parts[i], c)
}

/// Two lists of at least one part each, none of which holds the
/// separator, are equal if they join to the same text.
pub proof fn lemma_join_injective(a: Seq<Seq<char>>, b: Seq<Seq<char>>, sep: char)
    requires
        a.len() > 0,
        b.len() > 0,
        all_lack(a, sep),
        all_lack(b, sep),
        join(a, seq![sep]) == join(b, seq![sep]),
    ensures
        a == b,
    decreases a.len(),
{
    let whole = join(a, seq![sep]);
    if a.len() == 1 && b.len() == 1 {
        assert(a =~= b);
    } else if a.len() == 1 {
        let at = join(b.drop_last(), seq![sep]).len() as int;
        assert(join(b, seq![sep])[at] == sep);
        assert(lacks(a[0], sep));
    } else if b.len() == 1 {
        let at = join(a.drop_last(), seq![sep]).len() as int;
        assert(join(a, seq![sep])[at] == sep);
        assert(lacks(b[0], sep));
    } else {
        assert(lacks(a[a.len() - 1], sep));
        assert(lacks(b[b.len() - 1], sep));
        lemma_split_at_last(
            join(a.drop_last(), seq![sep]),
            a.last(),
            join(b.drop_last(), seq![sep]),
            b.last(),
            sep,
        );
        assert(all_lack(a.drop_last(), sep)) by {
            assert forall|i: int| 0 <= i < a.drop_last().len() implies lacks(
                #[trigger] a.drop_last()[i],
                sep,
            ) by {
                assert(a.drop_last()[i] == a[i]);
            }
        }
        assert(all_lack(b.drop_last(), sep)) by {
            assert forall|i: int| 0 <= i < b.drop_last().len() implies lacks(
                #[trigger] b.drop_last()[i],
                sep,
            ) by {
                assert(b.drop_last()[i] == b[i]);
            }
        }
        lemma_join_injective(a.drop_last(), b.drop_last(), sep);
        assert(a =~= a.drop_last().push(a.last()));
        assert(b =~= b.drop_last().push(b.last()));
    }
}

/// Whether a character is white space: one of the code points that have
/// the Unicode property White_Space, which is what the standard library's
/// `char::is_whitespace` goes by.
pub open spec fn is_white_space(c: char) -> bool {
    let code = c as u32;
    ||| 0x0009 <= code <= 0x000D
    ||| code == 0x0020
    ||| code == 0x0085
    ||| code == 0x00A0
    ||| code == 0x1680
    ||| 0x2000 <= code <= 0x200A
    ||| code == 0x2028
    ||| code == 0x2029
    ||| code == 0x202F
    ||| code == 0x205F
    ||| code == 0x3000
}

/// The text without the white space at its end.
pub open spec fn trimmed_end(text: Seq<char>) -> Seq<char>
    decreases text.len(),
{
    if text.len() > 0 && is_white_space(text.last()) {
        trimmed_end(text.drop_last())
    } else {
        text
    }
}

/// The standard library's `str::trim_end`: the text up to its last
/// character that is not white space.
#[verifier::external_body]
pub(crate) fn trim_end(text: &str) -> (trimmed: String)
    ensures
        trimmed@ == trimmed_end(text@),
{
    text.trim_end().to_string()
}

/// The JSON string literal for a text, quotes and escapes included.
pub uninterp spec fn json_literal(text: Seq<char>) -> Option<Seq<char>>;

/// Writes a text as a JSON string literal with serde_json's `to_string`.
/// The literal is a function of the text alone and is known only by its
/// name, `json_literal`.
#[verifier::external_body]
pub(crate) fn json_string(text: &str) -> (literal: Option<String>)
    ensures
        literal matches Some(l) ==> json_literal(text@) == Some(l@),
        literal is None ==> json_literal(text@) is None,
{
    serde_json::to_string(text).ok()
}

/// The texts one after another.
pub open spec fn concat(parts: Seq<Seq<char>>) -> Seq<char> {
    join(parts, Seq::empty())
}

/// Writes the strings one after another.
pub fn concat_strings(parts: &[String]) -> (out: String)
    ensures
        out@ == concat(texts(parts@)),
{
    proof {
        reveal_strlit("");
    }
    let out = join_strings(parts, "");
    assert(""@ =~= Seq::<char>::empty());
    out
}

} // verus!
