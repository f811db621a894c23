//! The calls into other crates, with what is relied on of each.
use base64::Engine;
use vstd::prelude::*;

verus! {

/// The standard base64 alphabet, by the value of six bits: the capital letters,
/// the small letters, the digits, `+` and `/`.
pub open spec fn base64_digit(value: int) -> char {
    if value < 26 {
        ('A' as u32 + value) as char
    } else if value < 52 {
        ('a' as u32 + (value - 26)) as char
    } else if value < 62 {
        ('0' as u32 + (value - 52)) as char
    } else if value == 62 {
        '+'
    } else {
        '/'
    }
}

/// Byte `k` of `data`, zero past its end.
pub open spec fn padded_byte(data: Seq<u8>, k: int) -> int {
    if k < data.len() {
        data[k] as int
    } else {
        0
    }
}

/// The `i`-th group of six bits of `data`, counted from the first byte's high bits.
pub open spec fn sextet(data: Seq<u8>, i: int) -> int {
    let first = padded_byte(data, i / 4 * 3);
    let second = padded_byte(data, i / 4 * 3 + 1);
    let third = padded_byte(data, i / 4 * 3 + 2);
    if i % 4 == 0 {
        first / 4
    } else if i % 4 == 1 {
        first % 4 * 16 + second / 16
    } else if i % 4 == 2 {
        second % 16 * 4 + third / 64
    } else {
        third % 64
    }
}

/// Base64 with the standard alphabet: four characters for every three bytes
/// begun, one for each group of six bits that holds a bit of `data`, and `=`
/// for the rest.
pub open spec fn base64_text(data: Seq<u8>) -> Seq<char> {
    Seq::new(
        ((data.len() + 2) / 3 * 4) as nat,
        |i: int|
            if 6 * i < 8 * data.len() {
                base64_digit(sextet(data, i))
            } else {
                '='
            },
    )
}

/// `base64::Engine::encode` of the engine `STANDARD` (RFC 4648 alphabet, padded).
/// It encodes the bytes as [`base64_text`] describes. It would panic where the
/// length of the text does not fit `usize`; no slice is that long, and callers
/// show it.
#[verifier::external_body]
pub(crate) fn encode_base64(data: &[u8]) -> (text: String)
    requires
        (data@.len() + 2) / 3 * 4 <= usize::MAX,
    ensures
        text@ == base64_text(data@),
{
    base64::engine::general_purpose::STANDARD.encode(data)
}

/// What `imagesize::blob_size` makes of `data`: the width and height in
/// pixels, or the text of its error.
pub uninterp spec fn header_size(data: Seq<u8>) -> Result<(usize, usize), Seq<char>>;

/// `imagesize::blob_size`, built for GIF, JPEG, PNG and WebP. It reads width
/// and height from the header of the image, and nothing but `data` decides
/// them or the error, which is handed on as its text. Fewer than twelve bytes
/// are always an error. It counts nested images in an `i32`, which more than
/// eight gibibytes of markers could overflow.
#[verifier::external_body]
pub(crate) fn blob_size(data: &[u8]) -> (size: Result<(usize, usize), String>)
    requires
        data@.len() <= u32::MAX,
    ensures
        crate::text::reason_of(size) == header_size(data@),
        data@.len() < 12 ==> size is Err,
{
    match imagesize::blob_size(data) {
        Ok(size) => Ok((size.width, size.height)),
        Err(error) => Err(error.to_string()),
    }
}

/// A lowercase hexadecimal digit.
pub open spec fn hex_digit(value: int) -> char {
    if value < 10 {
        ('0' as u32 + value) as char
    } else {
        ('a' as u32 + (value - 10)) as char
    }
}

/// A character as it stands in a JSON string: quote and backslash get a
/// backslash, control characters their short escape or `\u00XX`.
pub open spec fn json_char(c: char) -> Seq<char> {
    let code = c as u32 as int;
    if c == '"' || c == '\\' {
        seq!['\\', c]
    } else if code == 8 {
        seq!['\\', 'b']
    } else if code == 9 {
        seq!['\\', 't']
    } else if code == 10 {
        seq!['\\', 'n']
    } else if code == 12 {
        seq!['\\', 'f']
    } else if code == 13 {
        seq!['\\', 'r']
    } else if code < 32 {
        seq!['\\', 'u', '0', '0', hex_digit(code / 16), hex_digit(code % 16)]
    } else {
        seq![c]
    }
}

/// The characters of `text`, each as it stands in a JSON string.
pub open spec fn json_chars(text: Seq<char>) -> Seq<char>
    decreases text.len(),
{
    if text.len() == 0 {
        Seq::empty()
    } else {
        json_chars(text.drop_last()) + json_char(text.last())
    }
}

/// The JSON string that stands for `text`.
pub open spec fn json_string(text: Seq<char>) -> Seq<char> {
    "\""@ + json_chars(text) + "\""@
}

/// A member of a JSON object: a key with a string.
pub open spec fn json_member(key: Seq<char>, text: Seq<char>) -> Seq<char> {
    json_string(key) + ":"@ + json_string(text)
}

/// `a` comes before `b`, by their first characters.
pub open spec fn key_before(a: Seq<char>, b: Seq<char>) -> bool {
    a.len() > 0 && b.len() > 0 && (a[0] as u32) < (b[0] as u32)
}

/// The text of a `serde_json::Value` by its `Display`, for an object of two
/// members: under `list_key` an array with one object, whose three members are
/// strings, and under `text_key` a string. The text is compact and the members
/// stand in the order of their keys, which is that of the arguments.
#[verifier::external_body]
pub(crate) fn object_text(
    list_key: &str,
    first: (&str, &str),
    second: (&str, &str),
    third: (&str, &str),
    text_key: &str,
    text: &str,
) -> (json: String)
    requires
        key_before(first.0@, second.0@),
        key_before(second.0@, third.0@),
        key_before(list_key@, text_key@),
    ensures
        json@ == "{"@ + json_string(list_key@) + ":[{"@ + json_member(first.0@, first.1@) + ","@
            + json_member(second.0@, second.1@) + ","@ + json_member(third.0@, third.1@) + "}],"@
            + json_member(text_key@, text@) + "}"@,
{
    let mut item = serde_json::Map::new();
    item.insert(first.0.to_owned(), serde_json::Value::from(first.1));
    item.insert(second.0.to_owned(), serde_json::Value::from(second.1));
    item.insert(third.0.to_owned(), serde_json::Value::from(third.1));
    let mut object = serde_json::Map::new();
    object.insert(list_key.to_owned(), serde_json::Value::from(vec![serde_json::Value::from(item)]));
    object.insert(text_key.to_owned(), serde_json::Value::from(text));
    serde_json::Value::from(object).to_string()
}

pub(crate) proof fn lemma_plain_chars(text: Seq<char>)
    requires
        forall|i: int| 0 <= i < text.len() ==> json_char(#[trigger] text[i]) == seq![text[i]],
    ensures
        json_chars(text) == text,
    decreases text.len(),
{
    if text.len() > 0 {
        let init = text.drop_last();
        assert forall|i: int| 0 <= i < init.len() implies json_char(#[trigger] init[i]) == seq![
            init[i],
        ] by {
            assert(init[i] == text[i]);
        }
        lemma_plain_chars(init);
        assert(json_char(text[text.len() - 1]) == seq![text.last()]);
        assert(json_chars(text) =~= text);
    } else {
        assert(json_chars(text) =~= text);
    }
}

proof fn lemma_sextet(data: Seq<u8>, i: int)
    requires
        0 <= i,
    ensures
        0 <= sextet(data, i) < 64,
{
}

/// Base64 text stands in JSON as it is: none of its characters is escaped.
pub proof fn law_base64_needs_no_escapes(data: Seq<u8>)
    ensures
        forall|i: int| 0 <= i < base64_text(data).len() ==> #[trigger] base64_text(data)[i] != '"',
        json_string(base64_text(data)) == "\""@ + base64_text(data) + "\""@,
{
    let text = base64_text(data);
    assert forall|i: int| 0 <= i < text.len() implies json_char(#[trigger] text[i]) == seq![
        text[i],
    ] by {
        lemma_sextet(data, i);
    }
    lemma_plain_chars(text);
}

proof fn lemma_digits_differ(a: int, b: int)
    requires
        0 <= a < 64,
        0 <= b < 64,
    ensures
        base64_digit(a) == base64_digit(b) ==> a == b,
        base64_digit(a) != '=',
{
}

/// Texts of files of different length differ in length or in their padding.
proof fn lemma_same_text_same_length(a: Seq<u8>, b: Seq<u8>)
    requires
        base64_text(a) == base64_text(b),
    ensures
        a.len() == b.len(),
{
    let text = base64_text(a);
    assert(text.len() == base64_text(b).len());
    assert((a.len() + 2) / 3 == (b.len() + 2) / 3);
    if a.len() != b.len() {
        lemma_padding(a);
        lemma_padding(b);
    }
}

/// The last two characters show how many bytes the last group holds.
proof fn lemma_padding(data: Seq<u8>)
    requires
        data.len() > 0,
    ensures
        ({
            let text = base64_text(data);
            &&& text.len() >= 4
            &&& text[text.len() - 1] == '=' <==> data.len() % 3 != 0
            &&& text[text.len() - 2] == '=' <==> data.len() % 3 == 1
        }),
{
    let text = base64_text(data);
    let n = text.len() as int;
    lemma_sextet(data, n - 1);
    lemma_sextet(data, n - 2);
    lemma_digits_differ(sextet(data, n - 1), 0);
    lemma_digits_differ(sextet(data, n - 2), 0);
}

/// Each byte is spread over two neighbouring groups of six bits.
proof fn lemma_byte_from_sextets(data: Seq<u8>, k: int)
    requires
        0 <= k < data.len(),
    ensures
        ({
            let i = k / 3 * 4 + k % 3;
            data[k] == if k % 3 == 0 {
                sextet(data, i) * 4 + sextet(data, i + 1) / 16
            } else if k % 3 == 1 {
                sextet(data, i) % 16 * 16 + sextet(data, i + 1) / 4
            } else {
                sextet(data, i) % 4 * 64 + sextet(data, i + 1)
            }
        }),
{
    let i = k / 3 * 4 + k % 3;
    assert(i / 4 == k / 3 && i % 4 == k % 3);
    assert((i + 1) / 4 == k / 3 && (i + 1) % 4 == k % 3 + 1);
    let first = padded_byte(data, k / 3 * 3);
    let second = padded_byte(data, k / 3 * 3 + 1);
    let third = padded_byte(data, k / 3 * 3 + 2);
    assert(0 <= first < 256 && 0 <= second < 256 && 0 <= third < 256);
    if k % 3 == 0 {
        assert(padded_byte(data, k) == first);
    } else if k % 3 == 1 {
        assert(padded_byte(data, k) == second);
    } else {
        assert(padded_byte(data, k) == third);
    }
}

/// The base64 text of a file determines the file.
pub proof fn law_base64_determines_the_bytes(a: Seq<u8>, b: Seq<u8>)
    requires
        base64_text(a) == base64_text(b),
    ensures
        a == b,
{
    lemma_same_text_same_length(a, b);
    assert forall|k: int| 0 <= k < a.len() implies a[k] == b[k] by {
        let i = k / 3 * 4 + k % 3;
        assert(6 * i < 8 * a.len() && 6 * (i + 1) < 8 * a.len());
        lemma_sextet(a, i);
        lemma_sextet(b, i);
        lemma_sextet(a, i + 1);
        lemma_sextet(b, i + 1);
        assert(k / 3 + 1 <= (a.len() + 2) / 3);
        assert(i + 1 < base64_text(a).len());
        assert(base64_text(a)[i] == base64_digit(sextet(a, i)));
        assert(base64_text(b)[i] == base64_digit(sextet(b, i)));
        assert(base64_text(a)[i + 1] == base64_digit(sextet(a, i + 1)));
        assert(base64_text(b)[i + 1] == base64_digit(sextet(b, i + 1)));
        lemma_digits_differ(sextet(a, i), sextet(b, i));
        lemma_digits_differ(sextet(a, i + 1), sextet(b, i + 1));
        assert(i / 4 == k / 3 && i % 4 == k % 3);
        assert((i + 1) / 4 == k / 3 && (i + 1) % 4 == k % 3 + 1);
        lemma_byte_from_sextets(a, k);
        lemma_byte_from_sextets(b, k);
    }
    assert(a =~= b);
}

/// The six bits that a character of the base64 alphabet stands for.
pub open spec fn base64_value(c: char) -> int {
    if 'A' <= c <= 'Z' {
        c as int - 'A' as int
    } else if 'a' <= c <= 'z' {
        c as int - 'a' as int + 26
    } else if '0' <= c <= '9' {
        c as int - '0' as int + 52
    } else if c == '+' {
        62
    } else {
        63
    }
}

proof fn lemma_value_of_digit(value: int)
    requires
        0 <= value < 64,
    ensures
        base64_value(base64_digit(value)) == value,
{
}

/// Base64 text reads back as the bytes, group by group: four characters hold
/// three bytes, highest bits first; where only one or two bytes are left the
/// last two characters or the last one are `=`.
pub proof fn law_base64_reads_back(data: Seq<u8>, group: int)
    requires
        0 <= group,
        3 * group < data.len(),
    ensures
        ({
            let text = base64_text(data);
            let a = base64_value(text[4 * group]);
            let b = base64_value(text[4 * group + 1]);
            let c = base64_value(text[4 * group + 2]);
            let d = base64_value(text[4 * group + 3]);
            let left = data.len() - 3 * group;
            &&& text.len() == (data.len() + 2) / 3 * 4
            &&& a * 4 + b / 16 == data[3 * group]
            &&& left == 1 ==> b % 16 == 0 && text[4 * group + 2] == '=' && text[4 * group + 3] == '='
            &&& left >= 2 ==> b % 16 * 16 + c / 4 == data[3 * group + 1]
            &&& left == 2 ==> c % 4 == 0 && text[4 * group + 3] == '='
            &&& left >= 3 ==> c % 4 * 64 + d == data[3 * group + 2]
        }),
{
    let text = base64_text(data);
    let i = 4 * group;
    assert(i / 4 == group && (i + 1) / 4 == group && (i + 2) / 4 == group && (i + 3) / 4 == group);
    assert(i % 4 == 0 && (i + 1) % 4 == 1 && (i + 2) % 4 == 2 && (i + 3) % 4 == 3);
    assert(i + 3 < text.len());
    lemma_sextet(data, i);
    lemma_sextet(data, i + 1);
    lemma_sextet(data, i + 2);
    lemma_sextet(data, i + 3);
    lemma_value_of_digit(sextet(data, i));
    lemma_value_of_digit(sextet(data, i + 1));
    lemma_value_of_digit(sextet(data, i + 2));
    lemma_value_of_digit(sextet(data, i + 3));
    assert(padded_byte(data, i / 4 * 3) == data[3 * group]);
}

/// A JSON string escapes the quote, the backslash and the control characters
/// and nothing else, each character by itself and in order.
pub proof fn law_json_escapes_by_character(a: Seq<char>, b: Seq<char>, c: char)
    ensures
        json_chars(a + b) == json_chars(a) + json_chars(b),
        json_chars(seq![c]) == json_char(c),
        c != '"' && c != '\\' && c as int >= 32 ==> json_char(c) == seq![c],
        c == '"' || c == '\\' ==> json_char(c) == seq!['\\', c],
        (c as int) < 32 ==> json_char(c).len() >= 2 && json_char(c)[0] == '\\',
    decreases b.len(),
{
    reveal_with_fuel(json_chars, 2);
    assert(seq![c].drop_last() =~= Seq::empty());
    assert(Seq::<char>::empty() + json_char(c) =~= json_char(c));
    if b.len() > 0 {
        law_json_escapes_by_character(a, b.drop_last(), c);
        assert((a + b).drop_last() =~= a + b.drop_last());
        assert(json_chars(a + b) =~= json_chars(a) + json_chars(b));
    } else {
        assert(a + b =~= a);
        assert(json_chars(a + b) =~= json_chars(a) + json_chars(b));
    }
}

} // verus!
