//! JSON texts from and for the host.
use crate::text::{decimal, is_blank, joined};
#[allow(unused_imports)]
use crate::text::{blank, decimal_text, texts};
use vstd::prelude::*;
use vstd::string::*;

verus! {

/// Why a JSON text could not be read, and where.
pub struct JsonFault {
    pub message: String,
    pub line: usize,
    pub column: usize,
}

/// What is told of a JSON text that could not be read.
pub open spec fn fault_text(message: Seq<char>, line: usize, column: usize) -> Seq<char> {
    "Ошибка парсинга JSON от 1С: "@ + message + " (Позиция: линия "@ + decimal_text(line as nat)
        + ", колонка "@ + decimal_text(column as nat) + ")"@
}

/// What is told of an empty text.
pub open spec fn empty_text() -> Seq<char> {
    "1С передала пустую строку вместо JSON-данных"@
}

/// What is told of a text of the host when the JSON reader has made `parsed` of it;
/// nothing where it gives a value. A blank text gives none, whatever was made of it.
pub open spec fn complaint<T>(json: Seq<char>, parsed: Result<T, JsonFault>) -> Option<Seq<char>> {
    if blank(json) {
        Some(empty_text())
    } else {
        match parsed {
            Ok(_) => None,
            Err(fault) => Some(fault_text(fault.message@, fault.line, fault.column)),
        }
    }
}

/// `result` is what the host's text gives when the JSON reader has made `parsed` of it.
pub open spec fn deserialized<T>(
    json: Seq<char>,
    parsed: Result<T, JsonFault>,
    result: Result<T, String>,
) -> bool {
    match complaint(json, parsed) {
        Some(text) => result matches Err(told) && told@ == text,
        None => result is Ok && parsed is Ok && result->Ok_0 == parsed->Ok_0,
    }
}

/// Turns what the JSON reader has made of a text of the host into a value, or into a
/// message for people.
pub fn safe_deserialize_json<T>(json_str: &str, parsed: Result<T, JsonFault>) -> (result: Result<
    T,
    String,
>)
    ensures
        deserialized(json_str@, parsed, result),
{
    if is_blank(json_str) {
        return Err("1С передала пустую строку вместо JSON-данных".to_owned());
    }
    match parsed {
        Ok(value) => Ok(value),
        Err(fault) => {
            let mut told = joined("Ошибка парсинга JSON от 1С: ", &fault.message);
            told.append(" (Позиция: линия ");
            told.append(&decimal(fault.line as u128));
            told.append(", колонка ");
            told.append(&decimal(fault.column as u128));
            told.append(")");
            Err(told)
        },
    }
}

/// What is answered where a value could not be written as JSON.
pub open spec fn unwritable_text(reason: Seq<char>) -> Seq<char> {
    "{\"error\": \"Критическая ошибка сериализации на стороне Rust: "@ + reason + "\"}"@
}

/// The text for the host when the JSON writer has made `written` of a value.
pub open spec fn serialized(written: Result<Seq<char>, Seq<char>>) -> Seq<char> {
    match written {
        Ok(json) => json,
        Err(reason) => unwritable_text(reason),
    }
}

/// The text of what was written, or of why it could not be.
pub open spec fn written_text(written: Result<String, String>) -> Result<Seq<char>, Seq<char>> {
    match written {
        Ok(json) => Ok(json@),
        Err(reason) => Err(reason@),
    }
}

/// The JSON writer has written this.
pub open spec fn wrote(json: Seq<char>) -> Result<Seq<char>, Seq<char>> {
    Ok(json)
}

/// Turns what the JSON writer has made of a value into a text for the host.
pub fn safe_serialize_json(written: Result<String, String>) -> (json: String)
    ensures
        json@ == serialized(written_text(written)),
{
    match written {
        Ok(json) => json,
        Err(reason) => {
            let mut told = joined(
                "{\"error\": \"Критическая ошибка сериализации на стороне Rust: ",
                &reason,
            );
            told.append("\"}");
            told
        },
    }
}

/// A hexadecimal digit, in lower case.
pub open spec fn hex_char(digit: int) -> char {
    if digit < 10 {
        (48 + digit) as char
    } else {
        (87 + digit) as char
    }
}

/// What stands for a character between the quotation marks of a JSON string.
pub open spec fn escaped(c: char) -> Seq<char> {
    let code = c as int;
    if c == '"' || c == '\\' {
        seq!['\\', c]
    } else if code == 0x08 {
        seq!['\\', 'b']
    } else if code == 0x09 {
        seq!['\\', 't']
    } else if code == 0x0a {
        seq!['\\', 'n']
    } else if code == 0x0c {
        seq!['\\', 'f']
    } else if code == 0x0d {
        seq!['\\', 'r']
    } else if code < 0x20 {
        seq!['\\', 'u', '0', '0', hex_char(code / 16), hex_char(code % 16)]
    } else {
        seq![c]
    }
}

/// What stands for a text between the quotation marks of a JSON string.
pub open spec fn escaped_text(text: Seq<char>) -> Seq<char>
    decreases text.len(),
{
    if text.len() == 0 {
        Seq::empty()
    } else {
        escaped_text(text.drop_last()) + escaped(text.last())
    }
}

/// A text as a JSON string.
pub open spec fn json_string(text: Seq<char>) -> Seq<char> {
    seq!['"'] + escaped_text(text) + seq!['"']
}

/// Texts as JSON strings, with commas between them.
pub open spec fn json_entries(list: Seq<Seq<char>>) -> Seq<char>
    decreases list.len(),
{
    if list.len() == 0 {
        Seq::empty()
    } else if list.len() == 1 {
        json_string(list[0])
    } else {
        json_entries(list.drop_last()) + seq![','] + json_string(list.last())
    }
}

/// A list of texts as a JSON array of strings.
pub open spec fn json_list(list: Seq<Seq<char>>) -> Seq<char> {
    seq!['['] + json_entries(list) + seq![']']
}

/// `serde_json::to_string` of a string: quotation marks, a backslash before quotation
/// marks and backslashes, the escapes of the control characters, and everything else as
/// it is. Nothing keeps it from writing a string.
#[verifier::external_body]
pub(crate) fn write_json_string(text: &str) -> (written: Result<String, String>)
    ensures
        written_text(written) == wrote(json_string(text@)),
{
    serde_json::to_string(text).map_err(|e| e.to_string())
}

/// `serde_json::to_string` of a list of strings: the strings as `serde_json` writes each,
/// in brackets and with commas between them, without blanks. Nothing keeps it from
/// writing a list of strings.
#[verifier::external_body]
fn write_json_strings(list: &Vec<String>) -> (written: Result<String, String>)
    ensures
        written_text(written) == wrote(json_list(texts(list@))),
{
    serde_json::to_string(list).map_err(|e| e.to_string())
}

/// The texts of the strings of a list, or the fault that kept it from being read.
pub open spec fn list_texts(parsed: Result<Vec<String>, JsonFault>) -> Result<
    Seq<Seq<char>>,
    (Seq<char>, usize, usize),
> {
    match parsed {
        Ok(list) => Ok(texts(list@)),
        Err(fault) => Err((fault.message@, fault.line, fault.column)),
    }
}

/// The list of strings that `serde_json::from_str` reads out of a text, or the message,
/// line and column of its error.
pub uninterp spec fn json_strings(json: Seq<char>) -> Result<
    Seq<Seq<char>>,
    (Seq<char>, usize, usize),
>;

/// Where `json` is what is written for a list of texts, `strings` is that list.
pub open spec fn reads_back(
    json: Seq<char>,
    strings: Result<Seq<Seq<char>>, (Seq<char>, usize, usize)>,
) -> bool {
    forall|list: Seq<Seq<char>>|
        json == #[trigger] json_list(list) ==> strings is Ok && strings->Ok_0 == list
}

/// `serde_json::from_str` of a list of strings. What it reads depends on the text alone
/// and is named [`json_strings`]. Where `serde_json` has written the text for a list of
/// strings, it reads that list.
#[verifier::external_body]
fn read_json_strings(json: &str) -> (parsed: Result<Vec<String>, JsonFault>)
    ensures
        list_texts(parsed) == json_strings(json@),
        reads_back(json@, list_texts(parsed)),
{
    serde_json::from_str::<Vec<String>>(json).map_err(
        |e| JsonFault { message: e.to_string(), line: e.line(), column: e.column() },
    )
}

/// What a text of the host gives where a list of strings is expected and the JSON reader
/// has read `strings` out of it: the list, or what is told of the text.
pub open spec fn expected_strings(
    json: Seq<char>,
    strings: Result<Seq<Seq<char>>, (Seq<char>, usize, usize)>,
) -> Result<Seq<Seq<char>>, Seq<char>> {
    if blank(json) {
        Err(empty_text())
    } else {
        match strings {
            Ok(list) => Ok(list),
            Err((message, line, column)) => Err(fault_text(message, line, column)),
        }
    }
}

/// The texts of a list of strings, or of the message in its place.
pub open spec fn read_texts(result: Result<Vec<String>, String>) -> Result<
    Seq<Seq<char>>,
    Seq<char>,
> {
    match result {
        Ok(list) => Ok(texts(list@)),
        Err(told) => Err(told@),
    }
}

/// Writes a list of strings for the host.
pub fn serialize_strings(list: &Vec<String>) -> (json: String)
    ensures
        json@ == json_list(texts(list@)),
{
    safe_serialize_json(write_json_strings(list))
}

/// Reads a list of strings out of a text of the host, or tells people what is wrong with
/// it. A list that [`serialize_strings`] has written is read back, whatever its strings
/// hold.
pub fn deserialize_strings(json_str: &str) -> (result: Result<Vec<String>, String>)
    ensures
        read_texts(result) == expected_strings(json_str@, json_strings(json_str@)),
        forall|list: Seq<Seq<char>>|
            json_str@ == #[trigger] json_list(list) ==> result is Ok && texts(result->Ok_0@)
                == list,
{
    let parsed = read_json_strings(json_str);
    proof {
        assert forall|list: Seq<Seq<char>>| json_str@ == #[trigger] json_list(list) implies !blank(
            json_str@,
        ) by {
            assert(json_str@[0] == '[');
        }
    }
    safe_deserialize_json(json_str, parsed)
}

/// A text without quotation marks, backslashes and control characters is only put in
/// quotation marks.
pub proof fn plain_text_is_quoted(text: Seq<char>)
    requires
        forall|i: int|
            0 <= i < text.len() ==> #[trigger] text[i] as int >= 0x20 && text[i] != '"' && text[i]
                != '\\',
    ensures
        json_string(text) == seq!['"'] + text + seq!['"'],
{
    lemma_plain_text_stays(text);
}

proof fn lemma_plain_text_stays(text: Seq<char>)
    requires
        forall|i: int|
            0 <= i < text.len() ==> #[trigger] text[i] as int >= 0x20 && text[i] != '"' && text[i]
                != '\\',
    ensures
        escaped_text(text) == text,
    decreases text.len(),
{
    if text.len() > 0 {
        let fewer = text.drop_last();
        assert forall|i: int| 0 <= i < fewer.len() implies #[trigger] fewer[i] as int >= 0x20
            && fewer[i] != '"' && fewer[i] != '\\' by {
            assert(fewer[i] == text[i]);
        }
        lemma_plain_text_stays(fewer);
        let last = text[text.len() - 1];
        assert(escaped(last) == seq![last]);
        assert(fewer + seq![last] =~= text);
    } else {
        assert(text =~= Seq::empty());
    }
}

} // verus!
