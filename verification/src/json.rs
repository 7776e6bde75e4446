//! JSON texts of records.
use crate::accounts::hex_digit;
use vstd::prelude::*;

verus! {

/// How a character is written inside a JSON string. Quotes, backslashes and control characters are
/// escaped, everything else stands for itself.
pub open spec fn escaped(c: char) -> Seq<char> {
    if c == '"' {
        seq!['\\', '"']
    } else if c == '\\' {
        seq!['\\', '\\']
    } else if c as nat == 8 {
        seq!['\\', 'b']
    } else if c as nat == 9 {
        seq!['\\', 't']
    } else if c as nat == 10 {
        seq!['\\', 'n']
    } else if c as nat == 12 {
        seq!['\\', 'f']
    } else if c as nat == 13 {
        seq!['\\', 'r']
    } else if (c as nat) < 32 {
        seq!['\\', 'u', '0', '0', hex_digit(c as nat / 16), hex_digit(c as nat % 16)]
    } else {
        seq![c]
    }
}

/// How a text is written inside a JSON string.
pub open spec fn escaped_text(text: Seq<char>) -> Seq<char>
    decreases text.len(),
{
    if text.len() == 0 {
        Seq::empty()
    } else {
        escaped(text.first()) + escaped_text(text.drop_first())
    }
}

/// The JSON string of a text.
pub open spec fn json_string(text: Seq<char>) -> Seq<char> {
    seq!['"'] + escaped_text(text) + seq!['"']
}

/// The JSON object that maps `key` to the string `value` and holds nothing else.
pub open spec fn json_object(key: Seq<char>, value: Seq<char>) -> Seq<char> {
    seq!['{'] + json_string(key) + seq![':'] + json_string(value) + seq!['}']
}

/// `to_string` of a `serde_json::Value` that is an object of one entry: the object without blanks,
/// its key and its value written as JSON strings.
#[verifier::external_body]
pub(crate) fn object_text(key: &str, value: &str) -> (text: String)
    ensures
        text@ == json_object(key@, value@),
{
    let mut entries = serde_json::Map::new();
    entries.insert(key.to_string(), serde_json::Value::String(value.to_string()));
    serde_json::Value::Object(entries).to_string()
}

/// The number of a hexadecimal digit.
pub open spec fn hex_value(c: char) -> Option<nat> {
    if '0' <= c <= '9' {
        Some((c as nat - '0' as nat) as nat)
    } else if 'a' <= c <= 'f' {
        Some((c as nat - 'a' as nat + 10) as nat)
    } else if 'A' <= c <= 'F' {
        Some((c as nat - 'A' as nat + 10) as nat)
    } else {
        None
    }
}

/// The number of the four hexadecimal digits that `text` starts with.
pub open spec fn read_code(text: Seq<char>) -> Option<nat> {
    if text.len() < 4 {
        None
    } else {
        match (hex_value(text[0]), hex_value(text[1]), hex_value(text[2]), hex_value(text[3])) {
            (Some(a), Some(b), Some(c), Some(d)) => Some(4096 * a + 256 * b + 16 * c + d),
            _ => None,
        }
    }
}

/// Reads a character inside a JSON string: the character, and the text behind it. Escaped
/// surrogates are not read.
pub open spec fn read_char(text: Seq<char>) -> Option<(char, Seq<char>)> {
    if text.len() == 0 || text[0] == '"' || (text[0] as nat) < 32 {
        None
    } else if text[0] != '\\' {
        Some((text[0], text.skip(1)))
    } else if text.len() < 2 {
        None
    } else if text[1] == '"' || text[1] == '\\' || text[1] == '/' {
        Some((text[1], text.skip(2)))
    } else if text[1] == 'b' {
        Some((8nat as char, text.skip(2)))
    } else if text[1] == 't' {
        Some((9nat as char, text.skip(2)))
    } else if text[1] == 'n' {
        Some((10nat as char, text.skip(2)))
    } else if text[1] == 'f' {
        Some((12nat as char, text.skip(2)))
    } else if text[1] == 'r' {
        Some((13nat as char, text.skip(2)))
    } else if text[1] == 'u' {
        match read_code(text.skip(2)) {
            Some(code) => if 0xd800 <= code < 0xe000 {
                None
            } else {
                Some((code as char, text.skip(6)))
            },
            None => None,
        }
    } else {
        None
    }
}

/// Reads the inside of a JSON string up to its closing quote: the text that it stands for, and the
/// text behind the quote.
pub open spec fn read_contents(text: Seq<char>) -> Option<(Seq<char>, Seq<char>)>
    decreases text.len(),
{
    if text.len() > 0 && text[0] == '"' {
        Some((Seq::empty(), text.skip(1)))
    } else {
        match read_char(text) {
            Some((c, rest)) => match read_contents(rest) {
                Some((contents, left)) => Some((seq![c] + contents, left)),
                None => None,
            },
            None => None,
        }
    }
}

/// Reads a JSON string: the text that it stands for, and the text behind it.
pub open spec fn read_string(text: Seq<char>) -> Option<(Seq<char>, Seq<char>)> {
    if text.len() > 0 && text[0] == '"' {
        read_contents(text.skip(1))
    } else {
        None
    }
}

/// Reads a JSON object of one entry whose value is a string: its key and its value.
pub open spec fn read_object(text: Seq<char>) -> Option<(Seq<char>, Seq<char>)> {
    if text.len() == 0 || text[0] != '{' {
        None
    } else {
        match read_string(text.skip(1)) {
            Some((key, rest)) => if rest.len() == 0 || rest[0] != ':' {
                None
            } else {
                match read_string(rest.skip(1)) {
                    Some((value, left)) => if left == seq!['}'] {
                        Some((key, value))
                    } else {
                        None
                    },
                    None => None,
                }
            },
            None => None,
        }
    }
}

proof fn escape_reads_back(c: char, left: Seq<char>)
    ensures
        read_char(escaped(c) + left) == Some((c, left)),
        (escaped(c) + left)[0] != '"',
{
    let text = escaped(c) + left;
    assert(text.skip(escaped(c).len() as int) =~= left);
    assert(text[0] == escaped(c)[0]);
    if escaped(c).len() >= 2 {
        assert(text[1] == escaped(c)[1]);
    }
    if escaped(c).len() == 6 {
        let code = text.skip(2);
        assert(code[0] == '0' && code[1] == '0');
        assert(code[2] == hex_digit(c as nat / 16) && code[3] == hex_digit(c as nat % 16));
        assert(hex_value(code[2]) == Some(c as nat / 16));
        assert(hex_value(code[3]) == Some(c as nat % 16));
        assert(read_code(code) == Some(c as nat));
    }
}

proof fn contents_read_back(text: Seq<char>, left: Seq<char>)
    ensures
        read_contents(escaped_text(text) + seq!['"'] + left) == Some((text, left)),
    decreases text.len(),
{
    let written = escaped_text(text) + seq!['"'] + left;
    if text.len() == 0 {
        assert(written[0] == '"');
        assert(written.skip(1) =~= left);
        assert(text =~= Seq::empty());
    } else {
        let rest = escaped_text(text.drop_first()) + seq!['"'] + left;
        assert(written =~= escaped(text.first()) + rest);
        escape_reads_back(text.first(), rest);
        contents_read_back(text.drop_first(), left);
        assert(seq![text.first()] + text.drop_first() =~= text);
    }
}

proof fn string_reads_back(text: Seq<char>, left: Seq<char>)
    ensures
        read_string(json_string(text) + left) == Some((text, left)),
{
    let written = json_string(text) + left;
    assert(written[0] == '"');
    assert(written.skip(1) =~= escaped_text(text) + seq!['"'] + left);
    contents_read_back(text, left);
}

/// An object can be read back: reading it gives its key and its value.
pub proof fn object_reads_back(key: Seq<char>, value: Seq<char>)
    ensures
        read_object(json_object(key, value)) == Some((key, value)),
{
    let text = json_object(key, value);
    let rest = seq![':'] + json_string(value) + seq!['}'];
    assert(text[0] == '{');
    assert(text.skip(1) =~= json_string(key) + rest);
    string_reads_back(key, rest);
    assert(rest[0] == ':');
    assert(rest.skip(1) =~= json_string(value) + seq!['}']);
    string_reads_back(value, seq!['}']);
}

/// Under one key, different values give different objects.
pub proof fn object_keeps_its_value(key: Seq<char>, a: Seq<char>, b: Seq<char>)
    requires
        json_object(key, a) == json_object(key, b),
    ensures
        a == b,
{
    object_reads_back(key, a);
    object_reads_back(key, b);
}

} // verus!
