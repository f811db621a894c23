//! Texts in contracts, and small operations on strings.
use vstd::prelude::*;

verus! {

/// The characters of each string.
pub open spec fn texts(strings: Seq<String>) -> Seq<Seq<char>> {
    strings.map_values(|s: String| s@)
}

/// The characters of an optional string.
pub open spec fn text_of(string: Option<String>) -> Option<Seq<char>> {
    match string {
        Some(s) => Some(s@),
        None => None,
    }
}

/// A failure's reason in plain characters.
pub open spec fn reason_of<T>(outcome: Result<T, String>) -> Result<T, Seq<char>> {
    match outcome {
        Ok(value) => Ok(value),
        Err(reason) => Err(reason@),
    }
}

pub(crate) fn same_text(a: &str, b: &String) -> (same: bool)
    ensures
        same == (a@ == b@),
{
    a.to_owned().eq(b)
}

pub(crate) fn copy_text(string: &Option<String>) -> (copy: Option<String>)
    ensures
        text_of(copy) == text_of(*string),
{
    match string {
        Some(s) => Some(s.clone()),
        None => None,
    }
}

/// An ASCII capital letter in lower case; any other character as it is.
pub open spec fn lower_char(c: char) -> char {
    if 'A' <= c && c <= 'Z' {
        (c as u32 + 32) as char
    } else {
        c
    }
}

/// `text` with its ASCII capital letters in lower case.
pub open spec fn ascii_lower(text: Seq<char>) -> Seq<char> {
    text.map_values(|c: char| lower_char(c))
}

/// `text` ends with `suffix`.
pub open spec fn is_suffix(text: Seq<char>, suffix: Seq<char>) -> bool {
    suffix.len() <= text.len() && text.skip(text.len() - suffix.len()) == suffix
}

fn lowers_to(c: char, want: char) -> (same: bool)
    ensures
        same == (lower_char(c) == want),
{
    if 'A' <= c && c <= 'Z' {
        c as u32 + 32 == want as u32
    } else {
        c == want
    }
}

pub(crate) fn ends_with_ignore_case(text: &str, suffix: &str) -> (ends: bool)
    ensures
        ends == is_suffix(ascii_lower(text@), suffix@),
{
    let len: usize = text.unicode_len();
    let n: usize = suffix.unicode_len();
    if n > len {
        return false;
    }
    let ghost tail = ascii_lower(text@).skip(len - n);
    let mut i: usize = 0;
    while i < n
        invariant
            i <= n <= len,
            len == text@.len(),
            n == suffix@.len(),
            tail == ascii_lower(text@).skip(len - n),
            forall|j: int| 0 <= j < i ==> tail[j] == suffix@[j],
        decreases n - i,
    {
        assert(tail[i as int] == lower_char(text@[len - n + i]));
        if !lowers_to(text.get_char(len - n + i), suffix.get_char(i)) {
            return false;
        }
        i = i + 1;
    }
    assert(tail =~= suffix@);
    true
}

/// `text` mentions `word`.
pub open spec fn mentions(text: Seq<char>, word: Seq<char>) -> bool {
    exists|before: Seq<char>, after: Seq<char>| text == before + word + after
}

pub(crate) proof fn lemma_mentions(text: Seq<char>, before: Seq<char>, word: Seq<char>, after: Seq<char>)
    requires
        text =~= before + word + after,
    ensures
        mentions(text, word),
{
    assert(text == before + word + after);
}

/// The decimal digit of a number below ten.
pub open spec fn digit(value: nat) -> char {
    (48 + value) as char
}

/// A number in decimal, without leading zeros.
pub open spec fn decimal(n: nat) -> Seq<char>
    decreases n,
{
    if n < 10 {
        seq![digit(n)]
    } else {
        decimal(n / 10).push(digit(n % 10))
    }
}

fn digit_text(value: u64) -> (text: &'static str)
    requires
        value < 10,
    ensures
        text@ == seq![digit(value as nat)],
{
    proof {
        reveal_strlit("0");
        reveal_strlit("1");
        reveal_strlit("2");
        reveal_strlit("3");
        reveal_strlit("4");
        reveal_strlit("5");
        reveal_strlit("6");
        reveal_strlit("7");
        reveal_strlit("8");
        reveal_strlit("9");
    }
    let text: &'static str = match value {
        0 => "0",
        1 => "1",
        2 => "2",
        3 => "3",
        4 => "4",
        5 => "5",
        6 => "6",
        7 => "7",
        8 => "8",
        _ => "9",
    };
    assert(text@ =~= seq![digit(value as nat)]);
    text
}

/// Append a number in decimal.
pub(crate) fn append_decimal(out: &mut String, n: u64)
    ensures
        final(out)@ == old(out)@ + decimal(n as nat),
    decreases n,
{
    if n >= 10 {
        append_decimal(out, n / 10);
    }
    out.append(digit_text(n % 10));
    assert(out@ =~= old(out)@ + decimal(n as nat));
}

/// The number that decimal digits stand for.
pub open spec fn decimal_value(text: Seq<char>) -> int
    decreases text.len(),
{
    if text.len() == 0 {
        0
    } else {
        decimal_value(text.drop_last()) * 10 + (text.last() as int - '0' as int)
    }
}

/// A number in decimal is made of digits alone, reads as the number, and has no
/// leading zero.
pub proof fn law_decimal_reads_as_the_number(n: nat)
    ensures
        decimal_value(decimal(n)) == n,
        forall|i: int| 0 <= i < decimal(n).len() ==> '0' <= #[trigger] decimal(n)[i] <= '9',
        decimal(n).len() >= 1,
        n > 0 ==> decimal(n)[0] != '0',
        n == 0 ==> decimal(n) == seq!['0'],
    decreases n,
{
    reveal_with_fuel(decimal_value, 2);
    if n >= 10 {
        law_decimal_reads_as_the_number(n / 10);
        assert(decimal(n).drop_last() =~= decimal(n / 10));
        assert(decimal(n)[0] == decimal(n / 10)[0]);
    } else {
        assert(decimal(n).drop_last() =~= Seq::empty());
        assert(decimal(n).last() == digit(n));
    }
}

/// The texts of strings are theirs, one by one and in order.
pub proof fn law_texts_are_the_strings(strings: Seq<String>, i: int)
    ensures
        texts(strings).len() == strings.len(),
        0 <= i < strings.len() ==> texts(strings)[i] == strings[i]@,
{
}

/// An optional string has its text, and none without it; a reason has its text,
/// and a value stays as it is.
pub proof fn law_optional_texts(string: String, value: u64)
    ensures
        text_of(Some(string)) == Some(string@),
        text_of(None) == None::<Seq<char>>,
        reason_of::<u64>(Err(string)) == Err::<u64, Seq<char>>(string@),
        reason_of::<u64>(Ok(value)) == Ok::<u64, Seq<char>>(value),
{
}

/// Lower case moves the ASCII capital letters and nothing else, each in its place.
pub proof fn law_lower_case_moves_capitals_only(text: Seq<char>, i: int)
    requires
        0 <= i < text.len(),
    ensures
        ascii_lower(text).len() == text.len(),
        'A' <= text[i] && text[i] <= 'Z' ==> ascii_lower(text)[i] as int == text[i] as int + 32,
        !('A' <= text[i] && text[i] <= 'Z') ==> ascii_lower(text)[i] == text[i],
{
}

/// A suffix is what a text ends in, whatever stands before it.
pub proof fn law_suffix_ends_the_text(text: Seq<char>, before: Seq<char>, suffix: Seq<char>)
    ensures
        is_suffix(before + suffix, suffix),
        is_suffix(text, suffix) ==> exists|front: Seq<char>| text == #[trigger] (front + suffix),
{
    assert((before + suffix).skip((before + suffix).len() - suffix.len()) =~= suffix);
    if is_suffix(text, suffix) {
        let front = text.take(text.len() - suffix.len());
        assert(text =~= front + suffix);
    }
}

} // verus!
