//! Lines of JSON and the messages on them.

use vstd::prelude::*;

use crate::json::{
    agrees_on, breaks_line, compact_json, is_shallow, is_steady, json_compact, json_quoted,
    json_reading, lemma_one_line_concat, lemma_quoted_on_one_line, member_of, members_text,
    outline_of, outline_text, quote_json, read_json, reads_as, stands_for, JsonOutline, JsonRoot,
    JsonRootView, JsonText,
};
use crate::protocol::jsonrpc::{
    opt_json, InboundMessage, InboundView, OutcomeView, RpcErrorObject, RpcErrorResponse,
    RpcErrorView, RpcId, RpcNotification, RpcNotificationEnvelope, RpcRequest, RpcRequestEnvelope,
    RpcResponseEnvelope, RpcResponseOutcome, RpcSuccessResponse, JSONRPC_VERSION,
};
use crate::text::{
    concat2, concat3, concat4, decimal, decimal_text, integer_notation, integer_text, quoted,
    quoted_text, same_text,
};

verus! {

/// Why a message cannot be written or a line cannot be read.
#[derive(Debug, PartialEq, Eq)]
#[non_exhaustive]
pub enum ProtocolCodecError {
    Serialize(String),
    Deserialize(String),
    EmptyFrame,
    MultipleFrames,
    EnvelopeMustBeObject,
    InvalidJsonRpcVersion,
    MissingResponseId,
    RpcIdMustBeString,
    EmptyMethod,
    InvalidResponseShape,
}

#[verifier::ext_equal]
pub enum CodecErrorView {
    Serialize(Seq<char>),
    Deserialize(Seq<char>),
    EmptyFrame,
    MultipleFrames,
    EnvelopeMustBeObject,
    InvalidJsonRpcVersion,
    MissingResponseId,
    RpcIdMustBeString,
    EmptyMethod,
    InvalidResponseShape,
}

impl View for ProtocolCodecError {
    type V = CodecErrorView;

    open spec fn view(&self) -> CodecErrorView {
        match self {
            ProtocolCodecError::Serialize(message) => CodecErrorView::Serialize(message@),
            ProtocolCodecError::Deserialize(message) => CodecErrorView::Deserialize(message@),
            ProtocolCodecError::EmptyFrame => CodecErrorView::EmptyFrame,
            ProtocolCodecError::MultipleFrames => CodecErrorView::MultipleFrames,
            ProtocolCodecError::EnvelopeMustBeObject => CodecErrorView::EnvelopeMustBeObject,
            ProtocolCodecError::InvalidJsonRpcVersion => CodecErrorView::InvalidJsonRpcVersion,
            ProtocolCodecError::MissingResponseId => CodecErrorView::MissingResponseId,
            ProtocolCodecError::RpcIdMustBeString => CodecErrorView::RpcIdMustBeString,
            ProtocolCodecError::EmptyMethod => CodecErrorView::EmptyMethod,
            ProtocolCodecError::InvalidResponseShape => CodecErrorView::InvalidResponseShape,
        }
    }
}

pub open spec fn codec_error_text(e: CodecErrorView) -> Seq<char> {
    match e {
        CodecErrorView::Serialize(message) => "cannot serialize JSON-RPC message: "@ + message,
        CodecErrorView::Deserialize(message) => "cannot decode JSON-RPC message: "@ + message,
        CodecErrorView::EmptyFrame => "NDJSON frame is empty"@,
        CodecErrorView::MultipleFrames => {
            "one NDJSON decode call may contain exactly one physical line"@
        },
        CodecErrorView::EnvelopeMustBeObject => "JSON-RPC envelope must be a JSON object"@,
        CodecErrorView::InvalidJsonRpcVersion => "JSON-RPC version must equal 2.0"@,
        CodecErrorView::MissingResponseId => "JSON-RPC response is missing id"@,
        CodecErrorView::RpcIdMustBeString => {
            "Provider Protocol v1 requires non-empty string JSON-RPC ids"@
        },
        CodecErrorView::EmptyMethod => "JSON-RPC method must not be empty"@,
        CodecErrorView::InvalidResponseShape => {
            "JSON-RPC response must contain exactly one of result or error"@
        },
    }
}

impl ProtocolCodecError {
    pub fn message(&self) -> (r: String)
        ensures
            r@ == codec_error_text(self@),
    {
        match self {
            ProtocolCodecError::Serialize(message) => {
                concat2("cannot serialize JSON-RPC message: ", message.as_str())
            },
            ProtocolCodecError::Deserialize(message) => {
                concat2("cannot decode JSON-RPC message: ", message.as_str())
            },
            ProtocolCodecError::EmptyFrame => "NDJSON frame is empty".to_owned(),
            ProtocolCodecError::MultipleFrames => {
                "one NDJSON decode call may contain exactly one physical line".to_owned()
            },
            ProtocolCodecError::EnvelopeMustBeObject => {
                "JSON-RPC envelope must be a JSON object".to_owned()
            },
            ProtocolCodecError::InvalidJsonRpcVersion => {
                "JSON-RPC version must equal 2.0".to_owned()
            },
            ProtocolCodecError::MissingResponseId => "JSON-RPC response is missing id".to_owned(),
            ProtocolCodecError::RpcIdMustBeString => {
                "Provider Protocol v1 requires non-empty string JSON-RPC ids".to_owned()
            },
            ProtocolCodecError::EmptyMethod => "JSON-RPC method must not be empty".to_owned(),
            ProtocolCodecError::InvalidResponseShape => {
                "JSON-RPC response must contain exactly one of result or error".to_owned()
            },
        }
    }
}

/// A text without one `c` at its end.
pub open spec fn without_last(s: Seq<char>, c: char) -> Seq<char> {
    if s.len() > 0 && s.last() == c {
        s.drop_last()
    } else {
        s
    }
}

/// What a line holds before its end.
pub open spec fn frame_of(line: Seq<char>) -> Seq<char> {
    without_last(without_last(line, '\n'), '\r')
}

/// The value that a nested text stands for.
pub open spec fn value_of(text: Seq<char>) -> JsonRootView {
    match json_reading(text) {
        Ok(root) => root,
        Err(_) => JsonRootView::Null,
    }
}

/// Whether a text that can be read is read as what it stands for.
pub open spec fn is_faithful(text: Seq<char>) -> bool {
    forall|o: JsonOutline| #[trigger]
        stands_for(text, o) && is_steady(o) && json_reading(text) is Ok ==> reads_as(
            value_of(text),
            o,
        )
}

/// Whether the member of the name `name`, if there is one, is read as what it
/// stands for.
pub open spec fn is_faithful_at(members: Seq<(Seq<char>, Seq<char>)>, name: Seq<char>) -> bool {
    member_of(members, name) matches Some(text) ==> is_faithful(text)
}

/// The value of an optional text.
pub open spec fn opt_value(text: Option<Seq<char>>) -> Option<JsonRootView> {
    match text {
        Some(text) => Some(value_of(text)),
        None => None,
    }
}

/// How a value is named where another was expected.
pub open spec fn unexpected_value(root: JsonRootView) -> Seq<char> {
    match root {
        JsonRootView::Null => "null"@,
        JsonRootView::Bool(b) => if b {
            "boolean `true`"@
        } else {
            "boolean `false`"@
        },
        JsonRootView::Number { float, text, .. } => if float {
            "floating point `"@ + text + "`"@
        } else {
            "integer `"@ + text + "`"@
        },
        JsonRootView::Text(s) => "string "@ + quoted(s),
        JsonRootView::Array(_) => "sequence"@,
        JsonRootView::Object(_) => "map"@,
    }
}

/// The complaint about a value that is not what was expected.
pub open spec fn invalid_type(root: JsonRootView, expected: Seq<char>) -> Seq<char> {
    "invalid type: "@ + unexpected_value(root) + ", expected "@ + expected
}

/// The complaint about a row of values that is too short or too long.
pub open spec fn invalid_length(len: nat, expected: Seq<char>) -> Seq<char> {
    "invalid length "@ + decimal(len) + ", expected "@ + expected
}

/// A value as the code of an error: a 64-bit signed integer.
pub open spec fn code_of(root: JsonRootView) -> Result<i64, Seq<char>> {
    match root {
        JsonRootView::Number { integer: Some(code), .. } => Ok(code),
        JsonRootView::Number { float: false, .. } => Err(
            "invalid value: "@ + unexpected_value(root) + ", expected i64"@,
        ),
        _ => Err(invalid_type(root, "i64"@)),
    }
}

/// A value as the message of an error.
pub open spec fn message_text_of(root: JsonRootView) -> Result<Seq<char>, Seq<char>> {
    match root {
        JsonRootView::Text(text) => Ok(text),
        _ => Err(invalid_type(root, "a string"@)),
    }
}

/// The data of an error. Data that is `null` is no data.
pub open spec fn data_of(data: Option<(JsonRootView, Seq<char>)>) -> Option<Seq<char>> {
    match data {
        Some((JsonRootView::Null, _)) => None,
        Some((_, text)) => Some(text),
        None => None,
    }
}

/// An error object from its three fields. A field that is there and is not what it
/// should be comes before one that is missing.
pub open spec fn error_from_fields(
    code: Option<JsonRootView>,
    message: Option<JsonRootView>,
    data: Option<(JsonRootView, Seq<char>)>,
) -> Result<RpcErrorView, Seq<char>> {
    if code is Some && code_of(code->0) is Err {
        Err(code_of(code->0)->Err_0)
    } else if message is Some && message_text_of(message->0) is Err {
        Err(message_text_of(message->0)->Err_0)
    } else if code is None {
        Err("missing field `code`"@)
    } else if message is None {
        Err("missing field `message`"@)
    } else {
        Ok(
            RpcErrorView {
                code: code_of(code->0)->Ok_0,
                message: message_text_of(message->0)->Ok_0,
                data: data_of(data),
            },
        )
    }
}

/// An error object from its fields in a row: the code, the message and the data.
pub open spec fn error_from_row(items: Seq<Seq<char>>) -> Result<RpcErrorView, Seq<char>> {
    let whole = "struct RpcErrorObject with 3 elements"@;
    if items.len() == 0 {
        Err(invalid_length(0, whole))
    } else if let Err(fault) = code_of(value_of(items[0])) {
        Err(fault)
    } else if items.len() == 1 {
        Err(invalid_length(1, whole))
    } else if let Err(fault) = message_text_of(value_of(items[1])) {
        Err(fault)
    } else if items.len() == 2 {
        Err(invalid_length(2, whole))
    } else if items.len() > 3 {
        Err(invalid_length(items.len(), "fewer elements in array"@))
    } else {
        Ok(
            RpcErrorView {
                code: code_of(value_of(items[0]))->Ok_0,
                message: message_text_of(value_of(items[1]))->Ok_0,
                data: data_of(with_text(Some(items[2]))),
            },
        )
    }
}

pub open spec fn with_text(text: Option<Seq<char>>) -> Option<(JsonRootView, Seq<char>)> {
    match text {
        Some(text) => Some((value_of(text), text)),
        None => None,
    }
}

/// The error object that a JSON value stands for: an object with its fields, or
/// an array of the three in order.
pub open spec fn error_of(root: JsonRootView) -> Result<RpcErrorView, Seq<char>> {
    match root {
        JsonRootView::Object(members) => error_from_fields(
            opt_value(member_of(members, "code"@)),
            opt_value(member_of(members, "message"@)),
            with_text(member_of(members, "data"@)),
        ),
        JsonRootView::Array(items) => error_from_row(items),
        _ => Err(invalid_type(root, "struct RpcErrorObject"@)),
    }
}

/// The members of an envelope that decide what it is.
#[derive(Debug, PartialEq)]
pub struct Envelope {
    pub version: Option<JsonRoot>,
    pub method: Option<JsonRoot>,
    pub id: Option<JsonRoot>,
    pub params: Option<JsonText>,
    pub result: Option<JsonText>,
    /// What reading the error gave.
    pub error: Option<Result<RpcErrorObject, String>>,
}

#[verifier::ext_equal]
pub struct EnvelopeView {
    pub version: Option<JsonRootView>,
    pub method: Option<JsonRootView>,
    pub id: Option<JsonRootView>,
    pub params: Option<Seq<char>>,
    pub result: Option<Seq<char>>,
    pub error: Option<Result<RpcErrorView, Seq<char>>>,
}

pub open spec fn opt_root(o: Option<JsonRoot>) -> Option<JsonRootView> {
    match o {
        Some(root) => Some(root@),
        None => None,
    }
}

/// The view of a reading of an error object.
pub open spec fn error_view(r: Result<RpcErrorObject, String>) -> Result<RpcErrorView, Seq<char>> {
    match r {
        Ok(error) => Ok(error@),
        Err(message) => Err(message@),
    }
}

impl View for Envelope {
    type V = EnvelopeView;

    open spec fn view(&self) -> EnvelopeView {
        EnvelopeView {
            version: opt_root(self.version),
            method: opt_root(self.method),
            id: opt_root(self.id),
            params: opt_json(self.params),
            result: opt_json(self.result),
            error: match self.error {
                Some(error) => Some(error_view(error)),
                None => None,
            },
        }
    }
}

/// The envelope that the members of an object make up.
pub open spec fn envelope_of(members: Seq<(Seq<char>, Seq<char>)>) -> EnvelopeView {
    EnvelopeView {
        version: opt_value(member_of(members, "jsonrpc"@)),
        method: opt_value(member_of(members, "method"@)),
        id: opt_value(member_of(members, "id"@)),
        params: member_of(members, "params"@),
        result: member_of(members, "result"@),
        error: match member_of(members, "error"@) {
            Some(text) => Some(error_of(value_of(text))),
            None => None,
        },
    }
}

/// The request id that a JSON value stands for, where it is a non-empty string.
pub open spec fn id_of(root: JsonRootView) -> Option<Seq<char>> {
    match root {
        JsonRootView::Text(text) if text.len() > 0 => Some(text),
        _ => None,
    }
}

/// The outcome of a response: exactly one of a result and an error.
pub open spec fn outcome_of(e: EnvelopeView) -> Result<OutcomeView, CodecErrorView> {
    match (e.result, e.error) {
        (Some(value), None) => Ok(OutcomeView::Success(value)),
        (None, Some(Ok(error))) => Ok(OutcomeView::Error(error)),
        (None, Some(Err(message))) => Err(CodecErrorView::Deserialize(message)),
        _ => Err(CodecErrorView::InvalidResponseShape),
    }
}

/// The message that an envelope carries. With a method it is a request or a
/// notification, depending on whether there is an id; without one, a response.
pub open spec fn message_of(e: EnvelopeView) -> Result<InboundView, CodecErrorView> {
    if e.version != Some(JsonRootView::Text(JSONRPC_VERSION@)) {
        Err(CodecErrorView::InvalidJsonRpcVersion)
    } else if let Some(JsonRootView::Text(method)) = e.method {
        let params = match e.params {
            Some(params) => params,
            None => "null"@,
        };
        if e.id is Some && id_of(e.id->0) is None {
            Err(CodecErrorView::RpcIdMustBeString)
        } else if method.len() == 0 {
            Err(CodecErrorView::EmptyMethod)
        } else if let Some(id) = e.id {
            Ok(InboundView::Request { id: id_of(id)->0, method, params })
        } else {
            Ok(InboundView::Notification { method, params })
        }
    } else if e.id is None {
        Err(CodecErrorView::MissingResponseId)
    } else if id_of(e.id->0) is None {
        Err(CodecErrorView::RpcIdMustBeString)
    } else {
        match outcome_of(e) {
            Ok(outcome) => Ok(InboundView::Response { id: id_of(e.id->0)->0, outcome }),
            Err(error) => Err(error),
        }
    }
}

/// The message on one line.
pub open spec fn decoded_line(line: Seq<char>) -> Result<InboundView, CodecErrorView> {
    let frame = frame_of(line);
    if frame.len() == 0 {
        Err(CodecErrorView::EmptyFrame)
    } else if breaks_line(frame) {
        Err(CodecErrorView::MultipleFrames)
    } else {
        match json_reading(frame) {
            Err(message) => Err(CodecErrorView::Deserialize(message)),
            Ok(JsonRootView::Object(members)) => message_of(envelope_of(members)),
            Ok(_) => Err(CodecErrorView::EnvelopeMustBeObject),
        }
    }
}

/// The view of a decoding.
pub open spec fn decoding_view(r: Result<InboundMessage, ProtocolCodecError>) -> Result<
    InboundView,
    CodecErrorView,
> {
    match r {
        Ok(message) => Ok(message@),
        Err(error) => Err(error@),
    }
}

fn strip_last(s: &str, c: char) -> (r: &str)
    ensures
        r@ == without_last(s@, c),
{
    let n: usize = s.unicode_len();
    if n > 0 && s.get_char(n - 1) == c {
        let head = s.substring_char(0, n - 1);
        assert(head@ =~= s@.drop_last());
        head
    } else {
        s
    }
}

fn has_line_break(s: &str) -> (r: bool)
    ensures
        r == breaks_line(s@),
{
    for c in iter: s.chars()
        invariant
            iter.seq() == s@,
            forall|i: int| 0 <= i < iter.index() ==> #[trigger] s@[i] != '\n' && s@[i] != '\r',
    {
        if c == '\n' || c == '\r' {
            assert(s@[iter.index() as int] == c);
            return true;
        }
    }
    false
}

/// The model of the members of an object.
pub open spec fn members_view(s: Seq<(String, String)>) -> Seq<(Seq<char>, Seq<char>)> {
    s.map_values(|m: (String, String)| (m.0@, m.1@))
}

fn find_member<'a>(members: &'a Vec<(String, String)>, name: &str) -> (r: Option<&'a String>)
    ensures
        match r {
            Some(text) => member_of(members_view(members@), name@) == Some(text@),
            None => member_of(members_view(members@), name@) is None,
        },
{
    let ghost all = members_view(members@);
    let mut i: usize = 0;
    assert(all.skip(0) =~= all);
    while i < members.len()
        invariant
            i <= members@.len(),
            all == members_view(members@),
            member_of(all, name@) == member_of(all.skip(i as int), name@),
        decreases members@.len() - i,
    {
        assert(all.skip(i as int)[0] == all[i as int]);
        if same_text(members[i].0.as_str(), name) {
            return Some(&members[i].1);
        }
        assert(all.skip(i as int).skip(1) =~= all.skip(i + 1));
        i = i + 1;
    }
    None
}

fn read_value(text: &str) -> (r: JsonRoot)
    ensures
        r@ == value_of(text@),
        is_faithful(text@),
{
    match read_json(text) {
        Ok(root) => root,
        Err(_) => JsonRoot::Null,
    }
}

fn member_value(members: &Vec<(String, String)>, name: &str) -> (r: Option<JsonRoot>)
    ensures
        opt_root(r) == opt_value(member_of(members_view(members@), name@)),
        is_faithful_at(members_view(members@), name@),
{
    match find_member(members, name) {
        Some(text) => Some(read_value(text.as_str())),
        None => None,
    }
}

fn member_json(members: &Vec<(String, String)>, name: &str) -> (r: Option<JsonText>)
    ensures
        opt_json(r) == member_of(members_view(members@), name@),
{
    match find_member(members, name) {
        Some(text) => Some(JsonText::of_notation(text.clone())),
        None => None,
    }
}

/// The view of a value with the text it was read from.
pub open spec fn opt_data(o: Option<(JsonRoot, JsonText)>) -> Option<(JsonRootView, Seq<char>)> {
    match o {
        Some(data) => Some((data.0@, data.1@)),
        None => None,
    }
}

fn unexpected_text(root: &JsonRoot) -> (r: String)
    ensures
        r@ == unexpected_value(root@),
{
    match root {
        JsonRoot::Null => "null".to_owned(),
        JsonRoot::Bool(b) => if *b {
            "boolean `true`".to_owned()
        } else {
            "boolean `false`".to_owned()
        },
        JsonRoot::Number { float, text, .. } => if *float {
            concat3("floating point `", text.as_str(), "`")
        } else {
            concat3("integer `", text.as_str(), "`")
        },
        JsonRoot::Text(s) => concat2("string ", quoted_text(s.as_str()).as_str()),
        JsonRoot::Array(_) => "sequence".to_owned(),
        JsonRoot::Object(_) => "map".to_owned(),
    }
}

fn invalid_type_text(root: &JsonRoot, expected: &str) -> (r: String)
    ensures
        r@ == invalid_type(root@, expected@),
{
    concat4("invalid type: ", unexpected_text(root).as_str(), ", expected ", expected)
}

fn invalid_length_text(len: usize, expected: &str) -> (r: String)
    ensures
        r@ == invalid_length(len as nat, expected@),
{
    concat4("invalid length ", decimal_text(len as u64).as_str(), ", expected ", expected)
}

fn read_code(root: &JsonRoot) -> (r: Result<i64, String>)
    ensures
        match r {
            Ok(code) => code_of(root@) == Ok::<i64, Seq<char>>(code),
            Err(fault) => code_of(root@) == Err::<i64, Seq<char>>(fault@),
        },
{
    match root {
        JsonRoot::Number { integer: Some(code), .. } => Ok(*code),
        JsonRoot::Number { float: false, .. } => Err(
            concat3("invalid value: ", unexpected_text(root).as_str(), ", expected i64"),
        ),
        _ => Err(invalid_type_text(root, "i64")),
    }
}

fn read_message(root: JsonRoot) -> (r: Result<String, String>)
    ensures
        match r {
            Ok(text) => message_text_of(root@) == Ok::<Seq<char>, Seq<char>>(text@),
            Err(fault) => message_text_of(root@) == Err::<Seq<char>, Seq<char>>(fault@),
        },
{
    match root {
        JsonRoot::Text(text) => Ok(text),
        other => Err(invalid_type_text(&other, "a string")),
    }
}

fn kept_data(data: Option<(JsonRoot, JsonText)>) -> (r: Option<JsonText>)
    ensures
        opt_json(r) == data_of(opt_data(data)),
{
    match data {
        Some((JsonRoot::Null, _)) => None,
        Some((_, text)) => Some(text),
        None => None,
    }
}

/// An error object from the values of its fields.
pub fn error_object(
    code: Option<JsonRoot>,
    message: Option<JsonRoot>,
    data: Option<(JsonRoot, JsonText)>,
) -> (r: Result<RpcErrorObject, String>)
    ensures
        error_view(r) == error_from_fields(opt_root(code), opt_root(message), opt_data(data)),
{
    let code: Option<i64> = match code {
        Some(root) => match read_code(&root) {
            Ok(code) => Some(code),
            Err(fault) => {
                return Err(fault);
            },
        },
        None => None,
    };
    let message = match message {
        Some(root) => match read_message(root) {
            Ok(message) => Some(message),
            Err(fault) => {
                return Err(fault);
            },
        },
        None => None,
    };
    match (code, message) {
        (None, _) => Err("missing field `code`".to_owned()),
        (Some(_), None) => Err("missing field `message`".to_owned()),
        (Some(code), Some(message)) => Ok(
            RpcErrorObject { code, message, data: kept_data(data) },
        ),
    }
}

fn error_from_items(items: &Vec<String>) -> (r: Result<RpcErrorObject, String>)
    ensures
        error_view(r) == error_from_row(items@.map_values(|s: String| s@)),
{
    let whole = "struct RpcErrorObject with 3 elements";
    if items.len() == 0 {
        return Err(invalid_length_text(0, whole));
    }
    let code: i64 = match read_code(&read_value(items[0].as_str())) {
        Ok(code) => code,
        Err(fault) => {
            return Err(fault);
        },
    };
    if items.len() == 1 {
        return Err(invalid_length_text(1, whole));
    }
    let message = match read_message(read_value(items[1].as_str())) {
        Ok(message) => message,
        Err(fault) => {
            return Err(fault);
        },
    };
    if items.len() == 2 {
        return Err(invalid_length_text(2, whole));
    }
    if items.len() > 3 {
        return Err(invalid_length_text(items.len(), "fewer elements in array"));
    }
    let data = Some((read_value(items[2].as_str()), JsonText::of_notation(items[2].clone())));
    Ok(RpcErrorObject { code, message, data: kept_data(data) })
}

fn read_error(text: &str) -> (r: Result<RpcErrorObject, String>)
    ensures
        error_view(r) == error_of(value_of(text@)),
        is_faithful(text@),
        value_of(text@) matches JsonRootView::Object(members) ==> is_faithful_at(
            members,
            "code"@,
        ) && is_faithful_at(members, "message"@),
{
    match read_value(text) {
        JsonRoot::Object(members) => {
            let data = match find_member(&members, "data") {
                Some(text) => Some(
                    (read_value(text.as_str()), JsonText::of_notation(text.clone())),
                ),
                None => None,
            };
            assert(value_of(text@) == JsonRootView::Object(members_view(members@)));
            error_object(
                member_value(&members, "code"),
                member_value(&members, "message"),
                data,
            )
        },
        JsonRoot::Array(items) => error_from_items(&items),
        other => Err(invalid_type_text(&other, "struct RpcErrorObject")),
    }
}

fn parse_rpc_id(value: &JsonRoot) -> (r: Result<RpcId, ProtocolCodecError>)
    ensures
        match r {
            Ok(id) => id_of(value@) == Some(id@),
            Err(error) => id_of(value@) is None && error@ == CodecErrorView::RpcIdMustBeString,
        },
{
    match value {
        JsonRoot::Text(text) => match RpcId::new(text.as_str()) {
            Ok(id) => Ok(id),
            Err(_) => Err(ProtocolCodecError::RpcIdMustBeString),
        },
        _ => Err(ProtocolCodecError::RpcIdMustBeString),
    }
}

/// Takes a method's name, unless it is empty.
pub fn non_empty_method(method: String) -> (r: Result<String, ProtocolCodecError>)
    ensures
        match r {
            Ok(name) => method@.len() > 0 && name == method,
            Err(error) => method@.len() == 0 && error@ == CodecErrorView::EmptyMethod,
        },
{
    if method.as_str().is_empty() {
        Err(ProtocolCodecError::EmptyMethod)
    } else {
        Ok(method)
    }
}

/// Tells what an envelope is and takes it as that.
pub fn decode_envelope(envelope: Envelope) -> (r: Result<InboundMessage, ProtocolCodecError>)
    ensures
        decoding_view(r) == message_of(envelope@),
{
    let known_version = match &envelope.version {
        Some(JsonRoot::Text(version)) => same_text(version.as_str(), JSONRPC_VERSION),
        _ => false,
    };
    if !known_version {
        return Err(ProtocolCodecError::InvalidJsonRpcVersion);
    }
    if let Some(JsonRoot::Text(method)) = envelope.method {
        let params = match envelope.params {
            Some(params) => params,
            None => JsonText::of_notation("null".to_owned()),
        };
        return match envelope.id {
            Some(id) => match parse_rpc_id(&id) {
                Ok(id) => match non_empty_method(method) {
                    Ok(method) => Ok(
                        InboundMessage::Request(RpcRequestEnvelope { id, method, params }),
                    ),
                    Err(error) => Err(error),
                },
                Err(error) => Err(error),
            },
            None => match non_empty_method(method) {
                Ok(method) => Ok(
                    InboundMessage::Notification(RpcNotificationEnvelope { method, params }),
                ),
                Err(error) => Err(error),
            },
        };
    }
    let id = match envelope.id {
        Some(id) => match parse_rpc_id(&id) {
            Ok(id) => id,
            Err(error) => {
                return Err(error);
            },
        },
        None => {
            return Err(ProtocolCodecError::MissingResponseId);
        },
    };
    let outcome = match (envelope.result, envelope.error) {
        (Some(value), None) => RpcResponseOutcome::Success(value),
        (None, Some(Ok(error))) => RpcResponseOutcome::Error(error),
        (None, Some(Err(message))) => {
            return Err(ProtocolCodecError::Deserialize(message));
        },
        _ => {
            return Err(ProtocolCodecError::InvalidResponseShape);
        },
    };
    Ok(InboundMessage::Response(RpcResponseEnvelope { id, outcome }))
}

/// Reads the message on one line, with or without the line's end.
///
/// A line that was written for a message is read as that message.
pub fn decode_inbound_line(line: &str) -> (r: Result<InboundMessage, ProtocolCodecError>)
    ensures
        decoding_view(r) == decoded_line(line@),
        forall|m: OutboundMessage| #[trigger]
            is_line_of(line@, m) ==> decoding_view(r) == Ok::<InboundView, CodecErrorView>(
                received(m),
            ),
{
    let frame = strip_last(strip_last(line, '\n'), '\r');
    proof {
        assert forall|m: OutboundMessage| #[trigger] is_line_of(line@, m) implies frame@
            == outline_text(message_outline(m)) && frame@.len() > 0 by {
            lemma_frame_of_line(line@, m);
        }
    }
    if frame.is_empty() {
        return Err(ProtocolCodecError::EmptyFrame);
    }
    if has_line_break(frame) {
        return Err(ProtocolCodecError::MultipleFrames);
    }
    let reading = read_json(frame);
    proof {
        assert forall|m: OutboundMessage| #[trigger] is_line_of(line@, m) implies (json_reading(
            frame@,
        ) matches Ok(root) && reads_as(root, message_outline(m))) by {
            assert(stands_for(frame@, message_outline(m)));
        }
    }
    match reading {
        Err(message) => Err(ProtocolCodecError::Deserialize(message)),
        Ok(JsonRoot::Object(members)) => {
            let ghost found = members_view(members@);
            assert(json_reading(frame@) == Ok::<JsonRootView, Seq<char>>(
                JsonRootView::Object(found),
            ));
            let error = match find_member(&members, "error") {
                Some(text) => Some(read_error(text.as_str())),
                None => None,
            };
            let envelope = Envelope {
                version: member_value(&members, "jsonrpc"),
                method: member_value(&members, "method"),
                id: member_value(&members, "id"),
                params: member_json(&members, "params"),
                result: member_json(&members, "result"),
                error,
            };
            proof {
                let read = message_of(envelope_of(found));
                assert forall|m: OutboundMessage| #[trigger] is_line_of(line@, m) implies read
                    == Ok::<InboundView, CodecErrorView>(received(m)) by {
                    lemma_message_is_read(m, found);
                }
            }
            decode_envelope(envelope)
        },
        Ok(_) => Err(ProtocolCodecError::EnvelopeMustBeObject),
    }
}

/// A message to a provider or from one.
#[derive(Debug, PartialEq)]
pub enum OutboundMessage {
    Request(RpcRequest<JsonText>),
    Notification(RpcNotification<JsonText>),
    Success(RpcSuccessResponse<JsonText>),
    Error(RpcErrorResponse),
}

/// The members that every message but a notification starts with.
pub open spec fn addressed(jsonrpc: Seq<char>, id: Seq<char>) -> Seq<(Seq<char>, JsonOutline)> {
    seq![
        ("jsonrpc"@, JsonOutline::Text(jsonrpc)),
        ("id"@, JsonOutline::Text(id)),
    ]
}

/// The members of a message in the order in which they are written.
pub open spec fn message_members(m: OutboundMessage) -> Seq<(Seq<char>, JsonOutline)> {
    match m {
        OutboundMessage::Request(request) => addressed(request.jsonrpc@, request.id@).push(
            ("method"@, JsonOutline::Text(request.method@)),
        ).push(("params"@, JsonOutline::Json(request.params@))),
        OutboundMessage::Notification(notification) => seq![
            ("jsonrpc"@, JsonOutline::Text(notification.jsonrpc@)),
            ("method"@, JsonOutline::Text(notification.method@)),
            ("params"@, JsonOutline::Json(notification.params@)),
        ],
        OutboundMessage::Success(response) => addressed(response.jsonrpc@, response.id@).push(
            ("result"@, JsonOutline::Json(response.result@)),
        ),
        OutboundMessage::Error(response) => addressed(response.jsonrpc@, response.id@).push(
            ("error"@, JsonOutline::Object(error_members(response.error@))),
        ),
    }
}

/// The members of an error object. Without data it has no such member.
pub open spec fn error_members(e: RpcErrorView) -> Seq<(Seq<char>, JsonOutline)> {
    let head = seq![
        ("code"@, JsonOutline::Integer(e.code as int)),
        ("message"@, JsonOutline::Text(e.message)),
    ];
    match e.data {
        Some(data) => head.push(("data"@, JsonOutline::Json(data))),
        None => head,
    }
}

/// The JSON text that a message carries, where it carries one.
pub open spec fn payload_of(m: OutboundMessage) -> Option<Seq<char>> {
    match m {
        OutboundMessage::Request(request) => Some(request.params@),
        OutboundMessage::Notification(notification) => Some(notification.params@),
        OutboundMessage::Success(response) => Some(response.result@),
        OutboundMessage::Error(response) => response.error@.data,
    }
}

/// What a message says.
pub open spec fn message_outline(m: OutboundMessage) -> JsonOutline {
    JsonOutline::Object(message_members(m))
}

/// The JSON notation of a message, or the fault of a payload that is no JSON.
pub open spec fn notation(m: OutboundMessage) -> Result<Seq<char>, Seq<char>> {
    match payload_of(m) {
        Some(payload) => match json_compact(payload) {
            Ok(_) => Ok(outline_text(message_outline(m))),
            Err(message) => Err(message),
        },
        None => Ok(outline_text(message_outline(m))),
    }
}

/// The message that a line written for `m` is read as. The text that a message
/// carries comes in compact notation, and data that is `null` is no data.
pub open spec fn received(m: OutboundMessage) -> InboundView {
    match m {
        OutboundMessage::Request(request) => InboundView::Request {
            id: request.id@,
            method: request.method@,
            params: json_compact(request.params@)->Ok_0,
        },
        OutboundMessage::Notification(notification) => InboundView::Notification {
            method: notification.method@,
            params: json_compact(notification.params@)->Ok_0,
        },
        OutboundMessage::Success(response) => InboundView::Response {
            id: response.id@,
            outcome: OutcomeView::Success(json_compact(response.result@)->Ok_0),
        },
        OutboundMessage::Error(response) => InboundView::Response {
            id: response.id@,
            outcome: OutcomeView::Error(
                RpcErrorView {
                    data: match response.error@.data {
                        Some(data) => data_of(with_text(Some(json_compact(data)->Ok_0))),
                        None => None,
                    },
                    ..response.error@
                },
            ),
        },
    }
}

/// Whether a message is one of the protocol: it has the protocol's version, a
/// non-empty id unless it is a notification, and no empty method.
pub open spec fn is_proper(m: OutboundMessage) -> bool {
    match m {
        OutboundMessage::Request(request) => request.jsonrpc@ == JSONRPC_VERSION@
            && request.id@.len() > 0 && request.method@.len() > 0,
        OutboundMessage::Notification(notification) => notification.jsonrpc@ == JSONRPC_VERSION@
            && notification.method@.len() > 0,
        OutboundMessage::Success(response) => response.jsonrpc@ == JSONRPC_VERSION@
            && response.id@.len() > 0,
        OutboundMessage::Error(response) => response.jsonrpc@ == JSONRPC_VERSION@
            && response.id@.len() > 0,
    }
}

/// Whether `line` is a line that [`encode_ndjson`] writes for the proper message
/// `m`. Left out are payloads with a number in floating point that is not written as
/// it is read, and those nested too deep to be read.
pub open spec fn is_line_of(line: Seq<char>, m: OutboundMessage) -> bool {
    &&& is_proper(m)
    &&& is_steady(message_outline(m))
    &&& notation(m) matches Ok(text)
    &&& line == text.push('\n')
    &&& !breaks_line(text)
    &&& is_shallow(text)
}

proof fn lemma_frame_of_line(line: Seq<char>, m: OutboundMessage)
    requires
        is_line_of(line, m),
    ensures
        frame_of(line) == outline_text(message_outline(m)),
        frame_of(line).len() > 0,
        !breaks_line(frame_of(line)),
{
    let text = outline_text(message_outline(m));
    reveal_strlit("{");
    reveal_strlit("}");
    assert(line.drop_last() =~= text);
    assert(text.last() == '}');
}

proof fn lemma_outline_at(members: Seq<(Seq<char>, JsonOutline)>, i: int)
    requires
        0 <= i < members.len(),
        forall|j: int| 0 <= j < i ==> (#[trigger] members[j]).0 != members[i].0,
    ensures
        outline_of(members, members[i].0) == Some(members[i].1),
    decreases i,
{
    if i > 0 {
        let rest = members.skip(1);
        assert(members[0].0 != members[i].0);
        assert forall|j: int| 0 <= j < i - 1 implies (#[trigger] rest[j]).0 != rest[i - 1].0 by {
            assert(members[j + 1].0 != members[i].0);
        }
        lemma_outline_at(rest, i - 1);
    }
}

proof fn lemma_no_outline(members: Seq<(Seq<char>, JsonOutline)>, name: Seq<char>)
    requires
        forall|j: int| 0 <= j < members.len() ==> (#[trigger] members[j]).0 != name,
    ensures
        outline_of(members, name) is None,
    decreases members.len(),
{
    if members.len() > 0 {
        let rest = members.skip(1);
        assert forall|j: int| 0 <= j < rest.len() implies (#[trigger] rest[j]).0 != name by {
            assert(members[j + 1].0 != name);
        }
        lemma_no_outline(rest, name);
    }
}

proof fn lemma_member_names()
    ensures
        "jsonrpc"@ != "id"@,
        "jsonrpc"@ != "method"@,
        "jsonrpc"@ != "params"@,
        "jsonrpc"@ != "result"@,
        "jsonrpc"@ != "error"@,
        "id"@ != "method"@,
        "id"@ != "params"@,
        "id"@ != "result"@,
        "id"@ != "error"@,
        "method"@ != "params"@,
        "method"@ != "result"@,
        "method"@ != "error"@,
        "params"@ != "result"@,
        "params"@ != "error"@,
        "result"@ != "error"@,
        "code"@ != "message"@,
        "code"@ != "data"@,
        "message"@ != "data"@,
{
    reveal_strlit("jsonrpc");
    reveal_strlit("id");
    reveal_strlit("method");
    reveal_strlit("params");
    reveal_strlit("result");
    reveal_strlit("error");
    reveal_strlit("code");
    reveal_strlit("message");
    reveal_strlit("data");
    assert("id"@.len() == 2);
    assert("error"@.len() == 5);
    assert("method"@[0] != "params"@[0]);
    assert("method"@[0] != "result"@[0]);
    assert("params"@[0] != "result"@[0]);
    assert("code"@[0] != "data"@[0]);
    assert("jsonrpc"@[0] != "message"@[0]);
}

/// What it means that an object is steady and read as what it is.
proof fn lemma_object_is_read(
    members: Seq<(Seq<char>, JsonOutline)>,
    found: Seq<(Seq<char>, Seq<char>)>,
)
    requires
        is_steady(JsonOutline::Object(members)),
        reads_as(JsonRootView::Object(found), JsonOutline::Object(members)),
    ensures
        forall|i: int, j: int|
            0 <= i < j < members.len() ==> (#[trigger] members[i]).0 != (
            #[trigger] members[j]).0,
        forall|i: int| 0 <= i < members.len() ==> is_steady((#[trigger] members[i]).1),
        forall|name: Seq<char>| #[trigger] agrees_on(found, members, name),
{
    assert(JsonOutline::Object(members)->Object_0 == members);
    assert(JsonRootView::Object(found)->Object_0 == found);
}

/// The member at `i` of an outline is found under its name, and read as what it is.
proof fn lemma_member_is_read(
    members: Seq<(Seq<char>, JsonOutline)>,
    found: Seq<(Seq<char>, Seq<char>)>,
    i: int,
)
    requires
        is_steady(JsonOutline::Object(members)),
        reads_as(JsonRootView::Object(found), JsonOutline::Object(members)),
        0 <= i < members.len(),
    ensures
        agrees_on(found, members, members[i].0),
        outline_of(members, members[i].0) == Some(members[i].1),
        !(members[i].1 is Object) ==> member_of(found, members[i].0) == Some(
            outline_text(members[i].1),
        ),
        is_faithful_at(found, members[i].0) ==> reads_as(
            value_of(member_of(found, members[i].0)->0),
            members[i].1,
        ),
{
    lemma_object_is_read(members, found);
    lemma_outline_at(members, i);
    assert(agrees_on(found, members, members[i].0));
    let text = member_of(found, members[i].0)->0;
    assert(stands_for(text, members[i].1));
    assert(is_steady(members[i].1));
}

/// What is read of an error object that was written.
proof fn lemma_error_is_read(e: RpcErrorView, text: Seq<char>)
    requires
        is_steady(JsonOutline::Object(error_members(e))),
        reads_as(value_of(text), JsonOutline::Object(error_members(e))),
        value_of(text) matches JsonRootView::Object(found) ==> is_faithful_at(found, "code"@)
            && is_faithful_at(found, "message"@),
    ensures
        error_of(value_of(text)) == Ok::<RpcErrorView, Seq<char>>(
            RpcErrorView {
                data: match e.data {
                    Some(data) => data_of(with_text(Some(json_compact(data)->Ok_0))),
                    None => None,
                },
                ..e
            },
        ),
{
    let members = error_members(e);
    let found = value_of(text)->Object_0;
    lemma_member_names();
    lemma_object_is_read(members, found);
    assert(members[0] == ("code"@, JsonOutline::Integer(e.code as int)));
    assert(members[1] == ("message"@, JsonOutline::Text(e.message)));
    lemma_member_is_read(members, found, 0);
    lemma_member_is_read(members, found, 1);
    match e.data {
        Some(data) => {
            assert(members[2] == ("data"@, JsonOutline::Json(data)));
            lemma_member_is_read(members, found, 2);
        },
        None => {
            lemma_no_outline(members, "data"@);
            assert(agrees_on(found, members, "data"@));
        },
    }
}

/// What is read of a message that was written.
proof fn lemma_message_is_read(m: OutboundMessage, found: Seq<(Seq<char>, Seq<char>)>)
    requires
        is_proper(m),
        is_steady(message_outline(m)),
        reads_as(JsonRootView::Object(found), message_outline(m)),
        is_faithful_at(found, "jsonrpc"@),
        is_faithful_at(found, "method"@),
        is_faithful_at(found, "id"@),
        member_of(found, "error"@) matches Some(text) ==> is_faithful(text) && (value_of(
            text,
        ) matches JsonRootView::Object(members) ==> is_faithful_at(members, "code"@)
            && is_faithful_at(members, "message"@)),
    ensures
        message_of(envelope_of(found)) == Ok::<InboundView, CodecErrorView>(received(m)),
{
    let members = message_members(m);
    lemma_member_names();
    lemma_object_is_read(members, found);
    lemma_member_is_read(members, found, 0);
    lemma_member_is_read(members, found, 1);
    lemma_member_is_read(members, found, 2);
    match m {
        OutboundMessage::Request(request) => {
            assert(members[0] == ("jsonrpc"@, JsonOutline::Text(request.jsonrpc@)));
            assert(members[1] == ("id"@, JsonOutline::Text(request.id@)));
            assert(members[2] == ("method"@, JsonOutline::Text(request.method@)));
            assert(members[3] == ("params"@, JsonOutline::Json(request.params@)));
            lemma_member_is_read(members, found, 3);
        },
        OutboundMessage::Notification(notification) => {
            assert(members[0] == ("jsonrpc"@, JsonOutline::Text(notification.jsonrpc@)));
            assert(members[1] == ("method"@, JsonOutline::Text(notification.method@)));
            assert(members[2] == ("params"@, JsonOutline::Json(notification.params@)));
            lemma_no_outline(members, "id"@);
            assert(agrees_on(found, members, "id"@));
        },
        OutboundMessage::Success(response) => {
            assert(members[0] == ("jsonrpc"@, JsonOutline::Text(response.jsonrpc@)));
            assert(members[1] == ("id"@, JsonOutline::Text(response.id@)));
            assert(members[2] == ("result"@, JsonOutline::Json(response.result@)));
            lemma_no_outline(members, "method"@);
            lemma_no_outline(members, "error"@);
            assert(agrees_on(found, members, "method"@));
            assert(agrees_on(found, members, "error"@));
        },
        OutboundMessage::Error(response) => {
            assert(members[0] == ("jsonrpc"@, JsonOutline::Text(response.jsonrpc@)));
            assert(members[1] == ("id"@, JsonOutline::Text(response.id@)));
            assert(members[2] == (
                "error"@,
                JsonOutline::Object(error_members(response.error@)),
            ));
            lemma_no_outline(members, "method"@);
            lemma_no_outline(members, "result"@);
            assert(agrees_on(found, members, "method"@));
            assert(agrees_on(found, members, "result"@));
            assert(is_steady(members[2].1));
            lemma_error_is_read(response.error@, member_of(found, "error"@)->0);
        },
    }
}

/// The members of an object as they are written, on one line.
struct ObjectWriter {
    text: String,
    members: Ghost<Seq<(Seq<char>, JsonOutline)>>,
}

impl ObjectWriter {
    spec fn wf(&self) -> bool {
        &&& self.text@ == members_text(self.members@)
        &&& !breaks_line(self.text@)
    }

    fn new() -> (r: ObjectWriter)
        ensures
            r.wf(),
            r.members@ == Seq::<(Seq<char>, JsonOutline)>::empty(),
    {
        let text = String::new();
        assert(text@ =~= members_text(Seq::empty()));
        ObjectWriter { text, members: Ghost(Seq::empty()) }
    }

    fn put(&mut self, name: &str, value: &str, Ghost(outline): Ghost<JsonOutline>)
        requires
            old(self).wf(),
            value@ == outline_text(outline),
            !breaks_line(value@),
        ensures
            final(self).wf(),
            final(self).members@ == old(self).members@.push((name@, outline)),
    {
        let ghost before = self.members@;
        let ghost after = before.push((name@, outline));
        let label = quote_json(name);
        let mut text = self.text.clone();
        proof {
            reveal_strlit(",");
            reveal_strlit(":");
            assert(!breaks_line(","@));
            assert(!breaks_line(":"@));
            lemma_quoted_on_one_line(name@);
            assert(after.drop_last() =~= before);
            assert(after.last() == (name@, outline));
            lemma_one_line_concat(json_quoted(name@), ":"@);
            lemma_one_line_concat(json_quoted(name@) + ":"@, value@);
            if before.len() > 0 {
                lemma_one_line_concat(text@, ","@);
                lemma_one_line_concat(text@ + ","@, json_quoted(name@) + ":"@ + value@);
            }
        }
        let member = concat3(label.as_str(), ":", value);
        proof {
            lemma_members_are_seen(before);
        }
        if text.as_str().is_empty() {
            text = member;
        } else {
            text.append(",");
            text.append(member.as_str());
        }
        self.text = text;
        self.members = Ghost(after);
    }

    fn close(self) -> (r: String)
        requires
            self.wf(),
        ensures
            r@ == outline_text(JsonOutline::Object(self.members@)),
            !breaks_line(r@),
    {
        proof {
            reveal_strlit("{");
            reveal_strlit("}");
            assert(!breaks_line("{"@));
            assert(!breaks_line("}"@));
            lemma_one_line_concat("{"@, self.text@);
            lemma_one_line_concat("{"@ + self.text@, "}"@);
        }
        concat3("{", self.text.as_str(), "}")
    }
}

/// Only an object without members has none to show.
proof fn lemma_members_are_seen(members: Seq<(Seq<char>, JsonOutline)>)
    ensures
        members_text(members).len() == 0 <==> members.len() == 0,
{
    reveal_strlit(":");
}

proof fn lemma_decimal_on_one_line(n: nat)
    ensures
        !breaks_line(decimal(n)),
    decreases n,
{
    if n >= 10 {
        lemma_decimal_on_one_line(n / 10);
        assert(!breaks_line(crate::text::digit(n % 10)));
        lemma_one_line_concat(decimal(n / 10), crate::text::digit(n % 10));
    }
}

proof fn lemma_integer_on_one_line(n: int)
    ensures
        !breaks_line(integer_notation(n)),
{
    if n < 0 {
        reveal_strlit("-");
        lemma_decimal_on_one_line((-n) as nat);
        assert(!breaks_line("-"@));
        lemma_one_line_concat("-"@, decimal((-n) as nat));
    } else {
        lemma_decimal_on_one_line(n as nat);
    }
}

impl ObjectWriter {
    fn put_text(&mut self, name: &str, text: &str)
        requires
            old(self).wf(),
        ensures
            final(self).wf(),
            final(self).members@ == old(self).members@.push((name@, JsonOutline::Text(text@))),
    {
        let value = quote_json(text);
        proof {
            lemma_quoted_on_one_line(text@);
        }
        self.put(name, value.as_str(), Ghost(JsonOutline::Text(text@)));
    }

    fn put_integer(&mut self, name: &str, n: i64)
        requires
            old(self).wf(),
        ensures
            final(self).wf(),
            final(self).members@ == old(self).members@.push(
                (name@, JsonOutline::Integer(n as int)),
            ),
    {
        let value = integer_text(n);
        proof {
            lemma_integer_on_one_line(n as int);
        }
        self.put(name, value.as_str(), Ghost(JsonOutline::Integer(n as int)));
    }

    fn put_json(&mut self, name: &str, json: &JsonText) -> (r: Result<(), String>)
        requires
            old(self).wf(),
        ensures
            match r {
                Ok(_) => {
                    &&& json_compact(json@) is Ok
                    &&& final(self).wf()
                    &&& final(self).members@ == old(self).members@.push(
                        (name@, JsonOutline::Json(json@)),
                    )
                },
                Err(fault) => json_compact(json@) == Err::<Seq<char>, Seq<char>>(fault@),
            },
    {
        match compact_json(json.as_str()) {
            Ok(value) => {
                self.put(name, value.as_str(), Ghost(JsonOutline::Json(json@)));
                Ok(())
            },
            Err(fault) => Err(fault),
        }
    }

    fn put_error(&mut self, name: &str, error: &RpcErrorObject) -> (r: Result<(), String>)
        requires
            old(self).wf(),
        ensures
            match r {
                Ok(_) => {
                    &&& error@.data matches Some(data) ==> json_compact(data) is Ok
                    &&& final(self).wf()
                    &&& final(self).members@ == old(self).members@.push(
                        (name@, JsonOutline::Object(error_members(error@))),
                    )
                },
                Err(fault) => error@.data matches Some(data) && json_compact(data) == Err::<
                    Seq<char>,
                    Seq<char>,
                >(fault@),
            },
    {
        let mut object = ObjectWriter::new();
        object.put_integer("code", error.code);
        object.put_text("message", error.message.as_str());
        if let Some(data) = &error.data {
            if let Err(fault) = object.put_json("data", data) {
                return Err(fault);
            }
        }
        assert(object.members@ =~= error_members(error@));
        let value = object.close();
        self.put(name, value.as_str(), Ghost(JsonOutline::Object(error_members(error@))));
        Ok(())
    }
}

/// The JSON notation of a message. It stays on one line.
fn message_text(message: &OutboundMessage) -> (r: Result<String, String>)
    ensures
        match r {
            Ok(text) => notation(*message) == Ok::<Seq<char>, Seq<char>>(text@) && !breaks_line(
                text@,
            ),
            Err(fault) => notation(*message) == Err::<Seq<char>, Seq<char>>(fault@),
        },
{
    let mut line = ObjectWriter::new();
    let carried = match message {
        OutboundMessage::Request(request) => {
            line.put_text("jsonrpc", request.jsonrpc.as_str());
            line.put_text("id", request.id.as_str());
            line.put_text("method", request.method.as_str());
            line.put_json("params", &request.params)
        },
        OutboundMessage::Notification(notification) => {
            line.put_text("jsonrpc", notification.jsonrpc.as_str());
            line.put_text("method", notification.method.as_str());
            line.put_json("params", &notification.params)
        },
        OutboundMessage::Success(response) => {
            line.put_text("jsonrpc", response.jsonrpc.as_str());
            line.put_text("id", response.id.as_str());
            line.put_json("result", &response.result)
        },
        OutboundMessage::Error(response) => {
            line.put_text("jsonrpc", response.jsonrpc.as_str());
            line.put_text("id", response.id.as_str());
            line.put_error("error", &response.error)
        },
    };
    match carried {
        Ok(()) => {
            assert(line.members@ =~= message_members(*message));
            Ok(line.close())
        },
        Err(fault) => Err(fault),
    }
}

/// Writes a message as one line: its JSON notation in UTF-8 and a line feed.
pub fn encode_ndjson(message: &OutboundMessage) -> (r: Result<Vec<u8>, ProtocolCodecError>)
    ensures
        match r {
            Ok(bytes) => {
                &&& notation(*message) matches Ok(text)
                &&& bytes@ == vstd::utf8::encode_utf8(text.push('\n'))
                &&& !breaks_line(text)
                &&& is_one_frame(bytes@)
            },
            Err(error) => notation(*message) matches Err(fault) && error@
                == CodecErrorView::Serialize(fault),
        },
{
    match message_text(message) {
        Ok(text) => {
            let mut bytes = text.as_str().as_bytes_vec();
            proof {
                law_utf8_keeps_line_feeds(text@);
                lemma_utf8_push(text@, '\n');
                assert(vstd::utf8::encode_scalar('\n' as u32) =~= seq![10u8]) by {
                    assert((10u32 & 0x7F) as u8 == 10u8) by (bit_vector);
                }
            }
            bytes.push(10u8);
            Ok(bytes)
        },
        Err(fault) => Err(ProtocolCodecError::Serialize(fault)),
    }
}

/// Whether bytes are exactly one line: they end in a line feed and hold no other.
pub open spec fn is_one_frame(bytes: Seq<u8>) -> bool {
    &&& bytes.len() > 0
    &&& bytes.last() == 10u8
    &&& forall|i: int| 0 <= i < bytes.len() - 1 ==> #[trigger] bytes[i] != 10u8
}

/// No character but the line feed has a byte of that value in UTF-8.
proof fn lemma_scalar_without_line_feed(c: char)
    requires
        c != '\n',
    ensures
        forall|i: int|
            0 <= i < vstd::utf8::encode_scalar(c as u32).len()
                ==> #[trigger] vstd::utf8::encode_scalar(c as u32)[i] != 10u8,
{
    let n = c as u32;
    assert(n != 10);
    assert(n <= 0x7f && n != 10 ==> (n & 0x7F) as u8 != 10u8) by (bit_vector);
    assert(0xC0u8 | ((n >> 6) & 0x1F) as u8 != 10u8) by (bit_vector);
    assert(0xE0u8 | ((n >> 12) & 0x0F) as u8 != 10u8) by (bit_vector);
    assert(0xF0u8 | ((n >> 18) & 0x7) as u8 != 10u8) by (bit_vector);
    assert(0x80u8 | (n & 0x3F) as u8 != 10u8) by (bit_vector);
    assert(0x80u8 | ((n >> 6) & 0x3F) as u8 != 10u8) by (bit_vector);
    assert(0x80u8 | ((n >> 12) & 0x3F) as u8 != 10u8) by (bit_vector);
}

/// The bytes of one more character come last.
proof fn lemma_utf8_push(s: Seq<char>, c: char)
    ensures
        vstd::utf8::encode_utf8(s.push(c)) == vstd::utf8::encode_utf8(s)
            + vstd::utf8::encode_scalar(c as u32),
    decreases s.len(),
{
    let all = s.push(c);
    if s.len() == 0 {
        assert(all.drop_first() =~= Seq::empty());
        assert(vstd::utf8::encode_utf8(all.drop_first()) =~= Seq::empty());
    } else {
        lemma_utf8_push(s.drop_first(), c);
        assert(all.drop_first() =~= s.drop_first().push(c));
    }
}

/// A text without a line feed has none in UTF-8.
pub proof fn law_utf8_keeps_line_feeds(s: Seq<char>)
    requires
        !s.contains('\n'),
    ensures
        forall|i: int|
            0 <= i < vstd::utf8::encode_utf8(s).len() ==> #[trigger] vstd::utf8::encode_utf8(s)[i]
                != 10u8,
    decreases s.len(),
{
    if s.len() > 0 {
        assert(s[0] != '\n');
        lemma_scalar_without_line_feed(s[0]);
        assert(!s.drop_first().contains('\n')) by {
            if s.drop_first().contains('\n') {
                let i = choose|i: int|
                    0 <= i < s.drop_first().len() && s.drop_first()[i] == '\n';
                assert(s[i + 1] == '\n');
            }
        }
        law_utf8_keeps_line_feeds(s.drop_first());
        let head = vstd::utf8::encode_scalar(s[0] as u32);
        let rest = vstd::utf8::encode_utf8(s.drop_first());
        assert(vstd::utf8::encode_utf8(s) == head + rest);
        assert forall|i: int|
            0 <= i < vstd::utf8::encode_utf8(s).len() implies #[trigger] vstd::utf8::encode_utf8(
            s,
        )[i] != 10u8 by {
            if i < head.len() {
                assert(head[i] != 10u8);
            } else {
                assert(rest[i - head.len()] != 10u8);
            }
        }
    }
}

/// A response with both a result and an error, or with neither, is never taken.
pub proof fn law_responses_carry_one_outcome(e: EnvelopeView, id: Seq<char>, outcome: OutcomeView)
    requires
        message_of(e) == Ok::<InboundView, CodecErrorView>(InboundView::Response { id, outcome }),
    ensures
        e.result is Some <==> e.error is None,
        outcome is Success <==> e.result is Some,
        id.len() > 0,
{
}

/// A line is read without its end: one line feed, and a carriage return before it.
pub proof fn law_frames_leave_out_the_line_end(s: Seq<char>)
    ensures
        frame_of(s.push('\r').push('\n')) == s,
        s.len() == 0 || s.last() != '\r' ==> frame_of(s.push('\n')) == s,
        s.len() == 0 || (s.last() != '\r' && s.last() != '\n') ==> frame_of(s) == s,
{
    assert(s.push('\r').push('\n').drop_last() =~= s.push('\r'));
    assert(s.push('\r').drop_last() =~= s);
    assert(s.push('\n').drop_last() =~= s);
}

/// Whether a value is a text that is not empty.
pub open spec fn is_full_text(v: Option<JsonRootView>, text: Seq<char>) -> bool {
    v == Some(JsonRootView::Text(text)) && text.len() > 0
}

/// What an envelope of this protocol is: with a method and no id a notification, with both a
/// request, and with an id alone a response, with its result or its error. Parameters that
/// are left out are null.
pub proof fn law_envelopes_are_told_apart(e: EnvelopeView, id: Seq<char>, method: Seq<char>)
    requires
        e.version == Some(JsonRootView::Text("2.0"@)),
    ensures
        is_full_text(e.method, method) && e.id is None ==> (message_of(e) matches Ok(
            InboundView::Notification { method: m, params },
        ) && m == method && params == (match e.params {
            Some(p) => p,
            None => "null"@,
        })),
        is_full_text(e.method, method) && is_full_text(e.id, id) ==> (message_of(e) matches Ok(
            InboundView::Request { id: i, method: m, params },
        ) && i == id && m == method && params == (match e.params {
            Some(p) => p,
            None => "null"@,
        })),
        e.method is None && is_full_text(e.id, id) ==> match (e.result, e.error) {
            (Some(value), None) => message_of(e) == Ok::<InboundView, CodecErrorView>(
                InboundView::Response { id, outcome: OutcomeView::Success(value) },
            ),
            (None, Some(Ok(error))) => message_of(e) == Ok::<InboundView, CodecErrorView>(
                InboundView::Response { id, outcome: OutcomeView::Error(error) },
            ),
            _ => message_of(e) is Err,
        },
{
}

/// An envelope of another version is refused, and so is one with an id that is no text or an
/// empty one, with an empty method, or with neither method nor id.
pub proof fn law_bad_envelopes_are_refused(e: EnvelopeView)
    ensures
        e.version != Some(JsonRootView::Text("2.0"@)) ==> message_of(e) == Err::<
            InboundView,
            CodecErrorView,
        >(CodecErrorView::InvalidJsonRpcVersion),
        (e.id matches Some(id) && !(id is Text && id->Text_0.len() > 0)) ==> message_of(e) is Err,
        e.method == Some(JsonRootView::Text(Seq::empty())) ==> message_of(e) is Err,
        e.id is None && !(e.method matches Some(JsonRootView::Text(_))) ==> message_of(e) is Err,
{
}

/// A line is read as the message of the one JSON object on it, made up of the members that
/// the protocol names; anything else on it is refused.
pub proof fn law_lines_hold_one_object(line: Seq<char>)
    ensures
        ({
            let frame = frame_of(line);
            &&& frame.len() == 0 ==> decoded_line(line) is Err
            &&& frame.contains('\n') || frame.contains('\r') ==> decoded_line(line) is Err
            &&& json_reading(frame) is Err ==> decoded_line(line) is Err
            &&& json_reading(frame) matches Ok(root) ==> !(root is Object) ==> decoded_line(
                line,
            ) is Err
            &&& json_reading(frame) matches Ok(JsonRootView::Object(members)) ==> frame.len() > 0
                && !breaks_line(frame) ==> decoded_line(line) == message_of(
                EnvelopeView {
                    version: value_at(members, "jsonrpc"@),
                    method: value_at(members, "method"@),
                    id: value_at(members, "id"@),
                    params: member_of(members, "params"@),
                    result: member_of(members, "result"@),
                    error: match value_at(members, "error"@) {
                        Some(root) => Some(error_of(root)),
                        None => None,
                    },
                },
            )
        }),
{
    let frame = frame_of(line);
    if frame.contains('\n') {
        let i = choose|i: int| 0 <= i < frame.len() && frame[i] == '\n';
        assert(frame[i] == '\n' || frame[i] == '\r');
    }
    if frame.contains('\r') {
        let i = choose|i: int| 0 <= i < frame.len() && frame[i] == '\r';
        assert(frame[i] == '\n' || frame[i] == '\r');
    }
}

/// The value of the member of the name `name`; what cannot be read is null.
pub open spec fn value_at(members: Seq<(Seq<char>, Seq<char>)>, name: Seq<char>) -> Option<
    JsonRootView,
> {
    match member_of(members, name) {
        Some(text) => Some(
            match json_reading(text) {
                Ok(root) => root,
                Err(_) => JsonRootView::Null,
            },
        ),
        None => None,
    }
}

/// An error object has a code that is an integer and a message that is a text, and its data
/// is kept as it was written unless it is null.
pub proof fn law_error_objects_are_read(members: Seq<(Seq<char>, Seq<char>)>)
    ensures
        error_of(JsonRootView::Object(members)) is Ok <==> {
            &&& value_at(members, "code"@) matches Some(
                JsonRootView::Number { integer: Some(_), .. },
            )
            &&& value_at(members, "message"@) matches Some(JsonRootView::Text(_))
        },
        error_of(JsonRootView::Object(members)) matches Ok(e) ==> {
            &&& value_at(members, "code"@) matches Some(
                JsonRootView::Number { integer: Some(code), .. },
            )
            &&& e.code == code
            &&& value_at(members, "message"@) == Some(JsonRootView::Text(e.message))
            &&& match value_at(members, "data"@) {
                Some(JsonRootView::Null) => e.data is None,
                _ => e.data == member_of(members, "data"@),
            }
        },
{
}

/// An error in a row is the code, the message and the data, no more and no less.
pub proof fn law_error_rows_are_read(items: Seq<Seq<char>>)
    ensures
        error_of(JsonRootView::Array(items)) matches Ok(e) ==> {
            &&& items.len() == 3
            &&& json_reading(items[0]) matches Ok(
                JsonRootView::Number { integer: Some(code), .. },
            )
            &&& e.code == code
            &&& json_reading(items[1]) == Ok::<JsonRootView, Seq<char>>(
                JsonRootView::Text(e.message),
            )
            &&& e.data is None || e.data == Some(items[2])
            &&& json_reading(items[2]) is Ok && !(json_reading(items[2])->Ok_0 is Null) ==> e.data
                == Some(items[2])
        },
        items.len() != 3 ==> error_of(JsonRootView::Array(items)) is Err,
{
}

/// A message is written with the members that the protocol names, in this order: the
/// version, the id where it has one, the method with its parameters, or the result, or the
/// error.
pub proof fn law_messages_are_written_member_by_member(m: OutboundMessage)
    ensures
        ({
            let s = message_members(m);
            match m {
                OutboundMessage::Request(r) => s == seq![
                    ("jsonrpc"@, JsonOutline::Text(r.jsonrpc@)),
                    ("id"@, JsonOutline::Text(r.id@)),
                    ("method"@, JsonOutline::Text(r.method@)),
                    ("params"@, JsonOutline::Json(r.params@)),
                ],
                OutboundMessage::Notification(n) => s == seq![
                    ("jsonrpc"@, JsonOutline::Text(n.jsonrpc@)),
                    ("method"@, JsonOutline::Text(n.method@)),
                    ("params"@, JsonOutline::Json(n.params@)),
                ],
                OutboundMessage::Success(r) => s == seq![
                    ("jsonrpc"@, JsonOutline::Text(r.jsonrpc@)),
                    ("id"@, JsonOutline::Text(r.id@)),
                    ("result"@, JsonOutline::Json(r.result@)),
                ],
                OutboundMessage::Error(r) => {
                    &&& s.len() == 3
                    &&& s[0] == ("jsonrpc"@, JsonOutline::Text(r.jsonrpc@))
                    &&& s[1] == ("id"@, JsonOutline::Text(r.id@))
                    &&& s[2].0 == "error"@
                    &&& s[2].1 matches JsonOutline::Object(e)
                    &&& e[0] == ("code"@, JsonOutline::Integer(r.error.code as int))
                    &&& e[1] == ("message"@, JsonOutline::Text(r.error.message@))
                    &&& r.error@.data matches Some(data) ==> e.len() == 3 && e[2] == (
                        "data"@,
                        JsonOutline::Json(data),
                    )
                    &&& r.error@.data is None ==> e.len() == 2
                },
            }
        }),
{
}

/// What is received is what was sent: the same kind of message, id, method, code and
/// message, and the JSON that it carries in compact notation.
pub proof fn law_received_is_what_was_sent(m: OutboundMessage)
    ensures
        match m {
            OutboundMessage::Request(r) => {
                &&& received(m) matches InboundView::Request { id, method, params }
                &&& id == r.id@ && method == r.method@
                &&& json_compact(r.params@) matches Ok(text) ==> params == text
            },
            OutboundMessage::Notification(n) => {
                &&& received(m) matches InboundView::Notification { method, params }
                &&& method == n.method@
                &&& json_compact(n.params@) matches Ok(text) ==> params == text
            },
            OutboundMessage::Success(r) => {
                &&& received(m) matches InboundView::Response {
                    id,
                    outcome: OutcomeView::Success(value),
                }
                &&& id == r.id@
                &&& json_compact(r.result@) matches Ok(text) ==> value == text
            },
            OutboundMessage::Error(r) => {
                &&& received(m) matches InboundView::Response {
                    id,
                    outcome: OutcomeView::Error(error),
                }
                &&& id == r.id@ && error.code == r.error.code && error.message
                    == r.error.message@
                &&& r.error.data is None ==> error.data is None
                &&& r.error.data matches Some(data) ==> (json_compact(data@) matches Ok(text)
                    ==> error.data == (if json_reading(text) is Err || json_reading(
                    text,
                )->Ok_0 is Null {
                    None
                } else {
                    Some(text)
                }))
            },
        },
{
}

/// A message is a proper one if and only if it has the version of the protocol, an id unless
/// it is a notification, and a method unless it is a response.
pub proof fn law_proper_messages_are_addressed(m: OutboundMessage)
    ensures
        is_proper(m) <==> match m {
            OutboundMessage::Request(r) => r.jsonrpc@ == "2.0"@ && r.id@.len() > 0
                && r.method@.len() > 0,
            OutboundMessage::Notification(n) => n.jsonrpc@ == "2.0"@ && n.method@.len() > 0,
            OutboundMessage::Success(r) => r.jsonrpc@ == "2.0"@ && r.id@.len() > 0,
            OutboundMessage::Error(r) => r.jsonrpc@ == "2.0"@ && r.id@.len() > 0,
        },
{
}

/// A text that breaks no line, ended by a line feed, is exactly one line of bytes: only the
/// last byte is a line feed.
pub proof fn law_frames_are_one_line(text: Seq<char>)
    requires
        !text.contains('\n'),
    ensures
        ({
            let bytes = vstd::utf8::encode_utf8(text.push('\n'));
            &&& is_one_frame(bytes)
            &&& bytes == vstd::utf8::encode_utf8(text).push(10u8)
        }),
{
    law_utf8_keeps_line_feeds(text);
    lemma_utf8_push(text, '\n');
    assert(vstd::utf8::encode_scalar('\n' as u32) =~= seq![10u8]) by {
        assert((10u32 & 0x7F) as u8 == 10u8) by (bit_vector);
    }
    assert(vstd::utf8::encode_utf8(text.push('\n')) =~= vstd::utf8::encode_utf8(text).push(10u8));
}

/// One line of bytes has one line feed, which ends it.
pub proof fn law_one_line_has_one_end(bytes: Seq<u8>, i: int)
    requires
        is_one_frame(bytes),
        0 <= i < bytes.len(),
    ensures
        bytes[i] == 10u8 <==> i == bytes.len() - 1,
{
}

/// A value that was not expected is named by its kind, a truth value, a number and a text
/// along with what they are.
pub proof fn law_unexpected_values_are_named(root: JsonRootView)
    ensures
        match root {
            JsonRootView::Null => unexpected_value(root) == "null"@,
            JsonRootView::Bool(true) => unexpected_value(root) == "boolean `true`"@,
            JsonRootView::Bool(false) => unexpected_value(root) == "boolean `false`"@,
            JsonRootView::Number { float: true, text, .. } => unexpected_value(root)
                == "floating point `"@ + text + "`"@,
            JsonRootView::Number { float: false, text, .. } => unexpected_value(root)
                == "integer `"@ + text + "`"@,
            JsonRootView::Text(s) => unexpected_value(root) == "string "@ + quoted(s),
            JsonRootView::Array(_) => unexpected_value(root) == "sequence"@,
            JsonRootView::Object(_) => unexpected_value(root) == "map"@,
        },
{
}

} // verus!
