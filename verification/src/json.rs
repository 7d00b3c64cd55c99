//! JSON texts and the one look at their contents that the crate takes.

use serde_json::Value;
use vstd::prelude::*;

use crate::text::integer_notation;

verus! {

/// The outermost layer of a JSON value. Nested values stay texts: each is the
/// compact notation of the value it stands for.
#[derive(Debug, PartialEq, Eq)]
pub enum JsonRoot {
    Null,
    Bool(bool),
    /// A number in decimal, with its value where it is a 64-bit signed integer, and
    /// whether it is one in floating point.
    Number { integer: Option<i64>, float: bool, text: String },
    Text(String),
    Array(Vec<String>),
    /// The members in ascending order of their names, each name once.
    Object(Vec<(String, String)>),
}

/// The model of [`JsonRoot`].
#[verifier::ext_equal]
pub enum JsonRootView {
    Null,
    Bool(bool),
    Number { integer: Option<i64>, float: bool, text: Seq<char> },
    Text(Seq<char>),
    Array(Seq<Seq<char>>),
    Object(Seq<(Seq<char>, Seq<char>)>),
}

impl View for JsonRoot {
    type V = JsonRootView;

    open spec fn view(&self) -> JsonRootView {
        match self {
            JsonRoot::Null => JsonRootView::Null,
            JsonRoot::Bool(b) => JsonRootView::Bool(*b),
            JsonRoot::Number { integer, float, text } => JsonRootView::Number {
                integer: *integer,
                float: *float,
                text: text@,
            },
            JsonRoot::Text(s) => JsonRootView::Text(s@),
            JsonRoot::Array(items) => JsonRootView::Array(items@.map_values(|s: String| s@)),
            JsonRoot::Object(members) => JsonRootView::Object(
                members@.map_values(|m: (String, String)| (m.0@, m.1@)),
            ),
        }
    }
}

/// What reading a text as JSON gives: the outermost layer of its value, or the
/// parser's message.
pub uninterp spec fn json_reading(text: Seq<char>) -> Result<JsonRootView, Seq<char>>;

/// The view of a reading.
pub open spec fn reading_view(r: Result<JsonRoot, String>) -> Result<JsonRootView, Seq<char>> {
    match r {
        Ok(root) => Ok(root@),
        Err(message) => Err(message@),
    }
}

/// The first member of the name `name`.
pub open spec fn member_of(
    members: Seq<(Seq<char>, Seq<char>)>,
    name: Seq<char>,
) -> Option<Seq<char>>
    decreases members.len(),
{
    if members.len() == 0 {
        None
    } else if members[0].0 == name {
        Some(members[0].1)
    } else {
        member_of(members.skip(1), name)
    }
}

/// What a text says that the crate writes as JSON.
pub enum JsonOutline {
    Text(Seq<char>),
    Integer(int),
    /// What a JSON text says, in compact notation.
    Json(Seq<char>),
    /// Members in the order in which they are written.
    Object(Seq<(Seq<char>, JsonOutline)>),
}

/// The JSON notation of an outline.
pub open spec fn outline_text(o: JsonOutline) -> Seq<char>
    decreases o,
{
    match o {
        JsonOutline::Text(s) => json_quoted(s),
        JsonOutline::Integer(n) => integer_notation(n),
        JsonOutline::Json(text) => json_compact(text)->Ok_0,
        JsonOutline::Object(members) => "{"@ + members_text(members) + "}"@,
    }
}

/// The members of an object in a row, parted by commas.
pub open spec fn members_text(members: Seq<(Seq<char>, JsonOutline)>) -> Seq<char>
    decreases members,
{
    if members.len() == 0 {
        Seq::empty()
    } else {
        let rest = members_text(members.drop_last());
        let last = json_quoted(members.last().0) + ":"@ + outline_text(members.last().1);
        if members.len() == 1 {
            last
        } else {
            rest + ","@ + last
        }
    }
}

/// The outline of the first member of the name `name`.
pub open spec fn outline_of(members: Seq<(Seq<char>, JsonOutline)>, name: Seq<char>) -> Option<
    JsonOutline,
>
    decreases members.len(),
{
    if members.len() == 0 {
        None
    } else if members[0].0 == name {
        Some(members[0].1)
    } else {
        outline_of(members.skip(1), name)
    }
}

/// A JSON text without its strings. `inside` says that it starts within one.
pub open spec fn without_strings(s: Seq<char>, inside: bool) -> Seq<char>
    decreases s.len(),
{
    if s.len() == 0 {
        Seq::empty()
    } else if !inside {
        if s[0] == '"' {
            without_strings(s.skip(1), true)
        } else {
            seq![s[0]] + without_strings(s.skip(1), false)
        }
    } else if s[0] == '\\' && s.len() > 1 {
        without_strings(s.skip(2), true)
    } else {
        without_strings(s.skip(1), s[0] != '"')
    }
}

/// Whether a number in floating point occurs in a compact JSON text: such a number
/// has a decimal point, or an exponent behind a digit.
pub open spec fn has_float(text: Seq<char>) -> bool {
    let s = without_strings(text, false);
    exists|i: int|
        0 <= i < s.len() && ((#[trigger] s[i]) == '.' || (s[i] == 'e' && i > 0 && '0' as int
            <= s[i - 1] as int <= '9' as int))
}

/// How many objects and arrays are open behind a text without strings.
pub open spec fn open_values(s: Seq<char>) -> int
    decreases s.len(),
{
    if s.len() == 0 {
        0
    } else if s.last() == '{' || s.last() == '[' {
        open_values(s.drop_last()) + 1
    } else if s.last() == '}' || s.last() == ']' {
        open_values(s.drop_last()) - 1
    } else {
        open_values(s.drop_last())
    }
}

/// How deep objects and arrays may be nested in a text that is read.
pub const MAX_JSON_DEPTH: u8 = 127;

/// Whether a JSON text is nested no deeper than may be read.
pub open spec fn is_shallow(text: Seq<char>) -> bool {
    let s = without_strings(text, false);
    forall|i: int| 0 <= i <= s.len() ==> open_values(#[trigger] s.take(i)) <= MAX_JSON_DEPTH
}

/// Whether what an outline says survives writing and reading: the JSON texts in it
/// are JSON, and either hold no number in floating point or are written as they are
/// read; and no object has two members of one name.
pub open spec fn is_steady(o: JsonOutline) -> bool
    decreases o,
{
    match o {
        JsonOutline::Text(_) => true,
        JsonOutline::Integer(n) => i64::MIN <= n <= i64::MAX,
        JsonOutline::Json(text) => json_compact(text) matches Ok(compact) && (!has_float(compact)
            || json_compact(compact) == Ok::<Seq<char>, Seq<char>>(compact)),
        JsonOutline::Object(members) => {
            &&& forall|i: int, j: int|
                0 <= i < j < members.len() ==> (#[trigger] members[i]).0 != (
                #[trigger] members[j]).0
            &&& forall|i: int|
                0 <= i < members.len() ==> is_steady((#[trigger] members[i]).1)
        },
    }
}

/// Whether `text` is the notation of an outline, or its compact notation.
pub open spec fn stands_for(text: Seq<char>, o: JsonOutline) -> bool {
    text == outline_text(o) || json_compact(outline_text(o)) == Ok::<Seq<char>, Seq<char>>(text)
}

/// Whether `found`, the members that were read, have under `name` what `members`
/// have there. What is no object itself is found as it was written.
pub open spec fn agrees_on(
    found: Seq<(Seq<char>, Seq<char>)>,
    members: Seq<(Seq<char>, JsonOutline)>,
    name: Seq<char>,
) -> bool {
    match outline_of(members, name) {
        None => member_of(found, name) is None,
        Some(o) => {
            &&& member_of(found, name) matches Some(text)
            &&& json_reading(text) is Ok
            &&& if o is Object {
                stands_for(text, o)
            } else {
                text == outline_text(o)
            }
        },
    }
}

/// Whether what was read is what an outline says, as far as the outermost layer
/// goes. Of a JSON text nothing is said.
pub open spec fn reads_as(root: JsonRootView, o: JsonOutline) -> bool {
    match o {
        JsonOutline::Text(s) => root == JsonRootView::Text(s),
        JsonOutline::Integer(n) => {
            &&& root matches JsonRootView::Number { integer: Some(read), .. }
            &&& read == n
        },
        JsonOutline::Json(_) => true,
        JsonOutline::Object(members) => {
            &&& root matches JsonRootView::Object(found)
            &&& forall|name: Seq<char>| #[trigger] agrees_on(found, members, name)
        },
    }
}

/// Reads `text` with `serde_json::from_str` as a `serde_json::Value` and takes
/// its outermost layer apart; nested values are written back with `to_string`.
/// The claims are that layer and message depend on the text alone, and that the
/// notation of a steady outline, unless it is nested too deep, is read as what the
/// outline says. Not claimed is which texts are JSON otherwise and what they are
/// read as, nor that every number in floating point is read as it was written: the
/// reader may be off in its last digit.
#[verifier::external_body]
pub(crate) fn read_json(text: &str) -> (r: Result<JsonRoot, String>)
    ensures
        reading_view(r) == json_reading(text@),
        forall|o: JsonOutline| #[trigger]
            stands_for(text@, o) && is_steady(o) && (is_shallow(text@) || r is Ok) ==> (
            reading_view(r) matches Ok(root) && reads_as(root, o)),
{
    let value = serde_json::from_str::<Value>(text).map_err(|e| e.to_string())?;
    Ok(match value {
        Value::Null => JsonRoot::Null,
        Value::Bool(b) => JsonRoot::Bool(b),
        Value::Number(n) => {
            JsonRoot::Number { integer: n.as_i64(), float: n.is_f64(), text: n.to_string() }
        },
        Value::String(s) => JsonRoot::Text(s),
        Value::Array(v) => JsonRoot::Array(v.iter().map(|e| e.to_string()).collect()),
        Value::Object(m) => {
            JsonRoot::Object(m.into_iter().map(|(k, e)| (k, e.to_string())).collect())
        },
    })
}

/// The compact notation of a JSON text, or the parser's message.
pub uninterp spec fn json_compact(text: Seq<char>) -> Result<Seq<char>, Seq<char>>;

/// The view of a text or a message.
pub open spec fn compact_view(r: Result<String, String>) -> Result<Seq<char>, Seq<char>> {
    match r {
        Ok(text) => Ok(text@),
        Err(message) => Err(message@),
    }
}

/// Reads `text` with `serde_json::from_str` as a `Value` and writes it
/// back with `to_string`. The claim is that the outcome depends on the text alone,
/// and that the compact notation holds neither line feeds nor carriage returns: the
/// writer puts none between tokens and escapes those inside strings.
#[verifier::external_body]
pub(crate) fn compact_json(text: &str) -> (r: Result<String, String>)
    ensures
        compact_view(r) == json_compact(text@),
        r matches Ok(compact) ==> !breaks_line(compact@),
{
    match serde_json::from_str::<Value>(text) {
        Ok(value) => Ok(value.to_string()),
        Err(error) => Err(error.to_string()),
    }
}

/// Whether a text goes on past the end of a line.
pub open spec fn breaks_line(s: Seq<char>) -> bool {
    exists|i: int| 0 <= i < s.len() && (#[trigger] s[i] == '\n' || s[i] == '\r')
}

/// A hexadecimal digit as a text of one character.
pub open spec fn hex_digit(d: int) -> Seq<char> {
    if d < 10 {
        seq![('0' as int + d) as char]
    } else {
        seq![('a' as int + d - 10) as char]
    }
}

/// A character inside a JSON string.
pub open spec fn json_escape(c: char) -> Seq<char> {
    let n = c as int;
    if c == '"' {
        "\\\""@
    } else if c == '\\' {
        "\\\\"@
    } else if n == 8 {
        "\\b"@
    } else if n == 9 {
        "\\t"@
    } else if n == 10 {
        "\\n"@
    } else if n == 12 {
        "\\f"@
    } else if n == 13 {
        "\\r"@
    } else if n < 32 {
        "\\u00"@ + hex_digit(n / 16) + hex_digit(n % 16)
    } else {
        seq![c]
    }
}

/// The characters of a text inside a JSON string.
pub open spec fn json_escaped(s: Seq<char>) -> Seq<char>
    decreases s.len(),
{
    if s.len() == 0 {
        Seq::empty()
    } else {
        json_escaped(s.drop_last()) + json_escape(s.last())
    }
}

/// The JSON notation of a text.
pub open spec fn json_quoted(text: Seq<char>) -> Seq<char> {
    "\""@ + json_escaped(text) + "\""@
}

/// Writes `text` as a JSON string with `Value::to_string`: between double quotes,
/// with quotes, backslashes and control characters escaped and all else as it is.
#[verifier::external_body]
pub(crate) fn quote_json(text: &str) -> (r: String)
    ensures
        r@ == json_quoted(text@),
{
    Value::String(text.to_owned()).to_string()
}

/// Two texts on one line make one.
pub(crate) proof fn lemma_one_line_concat(a: Seq<char>, b: Seq<char>)
    requires
        !breaks_line(a),
        !breaks_line(b),
    ensures
        !breaks_line(a + b),
{
    if breaks_line(a + b) {
        let i = choose|i: int|
            0 <= i < (a + b).len() && (#[trigger] (a + b)[i] == '\n' || (a + b)[i] == '\r');
        if i < a.len() {
            assert(a[i] == (a + b)[i]);
        } else {
            assert(b[i - a.len()] == (a + b)[i]);
        }
    }
}

proof fn lemma_escape_on_one_line(c: char)
    ensures
        !breaks_line(json_escape(c)),
{
    reveal_strlit("\\\"");
    reveal_strlit("\\\\");
    reveal_strlit("\\b");
    reveal_strlit("\\t");
    reveal_strlit("\\n");
    reveal_strlit("\\f");
    reveal_strlit("\\r");
    reveal_strlit("\\u00");
    let n = c as int;
    if n < 32 {
        assert(!breaks_line("\\u00"@));
        assert(!breaks_line(hex_digit(n / 16)));
        assert(!breaks_line(hex_digit(n % 16)));
        lemma_one_line_concat("\\u00"@, hex_digit(n / 16));
        lemma_one_line_concat("\\u00"@ + hex_digit(n / 16), hex_digit(n % 16));
    }
}

/// A JSON string stays on one line.
pub(crate) proof fn lemma_quoted_on_one_line(s: Seq<char>)
    ensures
        !breaks_line(json_quoted(s)),
        !breaks_line(json_escaped(s)),
    decreases s.len(),
{
    if s.len() > 0 {
        lemma_quoted_on_one_line(s.drop_last());
        lemma_escape_on_one_line(s.last());
        lemma_one_line_concat(json_escaped(s.drop_last()), json_escape(s.last()));
    }
    reveal_strlit("\"");
    assert(!breaks_line("\""@));
    lemma_one_line_concat("\""@, json_escaped(s));
    lemma_one_line_concat("\""@ + json_escaped(s), "\""@);
}

/// Whether a text is JSON.
pub open spec fn is_json(text: Seq<char>) -> bool {
    json_reading(text) is Ok
}

/// A text that stands for a JSON value, kept exactly as it was written. One that
/// comes from outside is read first.
#[derive(Debug, PartialEq, Eq)]
pub struct JsonText {
    text: String,
}

impl View for JsonText {
    type V = Seq<char>;

    closed spec fn view(&self) -> Seq<char> {
        self.text@
    }
}

impl Clone for JsonText {
    fn clone(&self) -> (r: Self)
        ensures
            r == *self,
    {
        JsonText { text: self.text.clone() }
    }
}

impl JsonText {
    /// Takes `text`, unless it is not JSON; the error is the parser's message.
    pub fn new(text: String) -> (r: Result<JsonText, String>)
        ensures
            match r {
                Ok(json) => is_json(text@) && json@ == text@,
                Err(message) => json_reading(text@) == Err::<JsonRootView, Seq<char>>(message@),
            },
    {
        let reading = read_json(text.as_str());
        JsonText::from_reading(text, reading)
    }

    /// Takes `text` where `reading`, what reading it as JSON gave, succeeded.
    pub fn from_reading(text: String, reading: Result<JsonRoot, String>) -> (r: Result<
        JsonText,
        String,
    >)
        ensures
            match r {
                Ok(json) => reading is Ok && json@ == text@,
                Err(message) => reading == Err::<JsonRoot, String>(message),
            },
    {
        match reading {
            Ok(_) => Ok(JsonText { text }),
            Err(message) => Err(message),
        }
    }

    /// Takes `text` as it is; the caller knows it to be JSON.
    pub(crate) fn of_notation(text: String) -> (r: JsonText)
        ensures
            r@ == text@,
    {
        JsonText { text }
    }

    pub fn as_str(&self) -> (r: &str)
        ensures
            r@ == self@,
    {
        self.text.as_str()
    }

    pub fn into_string(self) -> (r: String)
        ensures
            r@ == self@,
    {
        self.text
    }

    pub fn same(&self, other: &JsonText) -> (r: bool)
        ensures
            r == (self@ == other@),
    {
        self.text == other.text
    }
}

/// The member of a name is the first under it, and none is found under a name that no member
/// has.
pub proof fn law_members_are_found_by_name(members: Seq<(Seq<char>, Seq<char>)>, name: Seq<char>)
    ensures
        match member_of(members, name) {
            Some(text) => exists|i: int|
                0 <= i < members.len() && (#[trigger] members[i]) == (name, text) && forall|j: int|
                    0 <= j < i ==> (#[trigger] members[j]).0 != name,
            None => forall|i: int| 0 <= i < members.len() ==> (#[trigger] members[i]).0 != name,
        },
    decreases members.len(),
{
    if members.len() > 0 {
        let rest = members.skip(1);
        law_members_are_found_by_name(rest, name);
        if members[0].0 == name {
            assert(members[0] == (name, members[0].1));
        } else if let Some(text) = member_of(rest, name) {
            let i = choose|i: int|
                0 <= i < rest.len() && (#[trigger] rest[i]) == (name, text) && forall|j: int|
                    0 <= j < i ==> (#[trigger] rest[j]).0 != name;
            assert forall|j: int| 0 <= j < i + 1 implies (#[trigger] members[j]).0 != name by {
                if j > 0 {
                    assert(rest[j - 1] == members[j]);
                }
            }
            assert(members[i + 1] == (name, text));
        } else {
            assert forall|i: int| 0 <= i < members.len() implies (#[trigger] members[i]).0
                != name by {
                if i > 0 {
                    assert(rest[i - 1] == members[i]);
                }
            }
        }
    }
}

} // verus!
