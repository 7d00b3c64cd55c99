//! Model requests.

use vstd::prelude::*;

use crate::json::JsonText;
use crate::message::{messages_view, Message, MessageView};
use crate::text::{concat3, opt_text};
use crate::types::{ProviderId, RequestId, SessionId};

verus! {

#[derive(Clone, Copy, Debug, PartialEq, Eq, Structural)]
pub struct ModelOptions {
    pub max_output_tokens: Option<u32>,
}

impl Default for ModelOptions {
    fn default() -> (r: Self)
        ensures
            r.max_output_tokens is None,
    {
        ModelOptions { max_output_tokens: None }
    }
}

/// A tool as it is offered to the model.
#[derive(Debug, PartialEq, Eq)]
pub struct ModelToolSpec {
    pub name: String,
    pub description: String,
    pub input_schema: JsonText,
}

impl Clone for ModelToolSpec {
    fn clone(&self) -> (r: Self)
        ensures
            r == *self,
    {
        ModelToolSpec {
            name: self.name.clone(),
            description: self.description.clone(),
            input_schema: self.input_schema.clone(),
        }
    }
}

/// A copy of a row of tools.
pub fn clone_tools(tools: &Vec<ModelToolSpec>) -> (r: Vec<ModelToolSpec>)
    ensures
        r@ == tools@,
{
    let r = tools.clone();
    assert(r@ =~= tools@);
    r
}

/// One request to one model of one provider.
#[derive(Debug, PartialEq)]
pub struct ModelRequest {
    pub request_id: RequestId,
    pub session_id: SessionId,
    pub provider: ProviderId,
    pub model: String,
    pub system: Option<String>,
    pub messages: Vec<Message>,
    pub tools: Vec<ModelToolSpec>,
    pub options: ModelOptions,
}

#[verifier::ext_equal]
pub struct ModelRequestView {
    pub request_id: Seq<char>,
    pub session_id: Seq<char>,
    pub provider: Seq<char>,
    pub model: Seq<char>,
    pub system: Option<Seq<char>>,
    pub messages: Seq<MessageView>,
    pub tools: Seq<ModelToolSpec>,
    pub options: ModelOptions,
}

impl View for ModelRequest {
    type V = ModelRequestView;

    open spec fn view(&self) -> ModelRequestView {
        ModelRequestView {
            request_id: self.request_id@,
            session_id: self.session_id@,
            provider: self.provider@,
            model: self.model@,
            system: opt_text(self.system),
            messages: messages_view(self.messages@),
            tools: self.tools@,
            options: self.options,
        }
    }
}

/// What all requests of an agent have in common.
#[derive(Debug, PartialEq, Eq)]
pub struct ModelRequestConfig {
    pub provider: ProviderId,
    pub model: String,
    pub system: Option<String>,
    pub tools: Vec<ModelToolSpec>,
    pub options: ModelOptions,
}

/// Why a request is refused.
#[derive(Debug, PartialEq, Eq)]
pub enum ModelRequestError {
    EmptyModel,
    EmptyToolName,
    DuplicateToolName(String),
    ZeroMaxOutputTokens,
}

#[verifier::ext_equal]
pub enum ModelRequestErrorView {
    EmptyModel,
    EmptyToolName,
    DuplicateToolName(Seq<char>),
    ZeroMaxOutputTokens,
}

impl View for ModelRequestError {
    type V = ModelRequestErrorView;

    open spec fn view(&self) -> ModelRequestErrorView {
        match self {
            ModelRequestError::EmptyModel => ModelRequestErrorView::EmptyModel,
            ModelRequestError::EmptyToolName => ModelRequestErrorView::EmptyToolName,
            ModelRequestError::DuplicateToolName(name) => ModelRequestErrorView::DuplicateToolName(
                name@,
            ),
            ModelRequestError::ZeroMaxOutputTokens => ModelRequestErrorView::ZeroMaxOutputTokens,
        }
    }
}

pub open spec fn request_error_text(e: ModelRequestErrorView) -> Seq<char> {
    match e {
        ModelRequestErrorView::EmptyModel => "model name must not be empty"@,
        ModelRequestErrorView::EmptyToolName => "model tool name must not be empty"@,
        ModelRequestErrorView::DuplicateToolName(name) => {
            "model tool "@ + name + " is declared more than once"@
        },
        ModelRequestErrorView::ZeroMaxOutputTokens => {
            "maxOutputTokens must be greater than zero when specified"@
        },
    }
}

impl ModelRequestError {
    pub fn message(&self) -> (r: String)
        ensures
            r@ == request_error_text(self@),
    {
        match self {
            ModelRequestError::EmptyModel => "model name must not be empty".to_owned(),
            ModelRequestError::EmptyToolName => "model tool name must not be empty".to_owned(),
            ModelRequestError::DuplicateToolName(name) => {
                concat3("model tool ", name.as_str(), " is declared more than once")
            },
            ModelRequestError::ZeroMaxOutputTokens => {
                "maxOutputTokens must be greater than zero when specified".to_owned()
            },
        }
    }
}

/// Whether one of the first `n` tools has the name `name`.
pub open spec fn named_before(tools: Seq<ModelToolSpec>, n: int, name: Seq<char>) -> bool {
    exists|i: int| 0 <= i < n && (#[trigger] tools[i]).name@ == name
}

/// What is wrong with the tool at `i`: it has no name, or the name of a tool
/// before it.
pub open spec fn tool_fault(tools: Seq<ModelToolSpec>, i: int) -> Option<ModelRequestErrorView> {
    if tools[i].name@.len() == 0 {
        Some(ModelRequestErrorView::EmptyToolName)
    } else if named_before(tools, i, tools[i].name@) {
        Some(ModelRequestErrorView::DuplicateToolName(tools[i].name@))
    } else {
        None
    }
}

/// The fault of the first faulty tool from `from` on.
pub open spec fn tools_fault(tools: Seq<ModelToolSpec>, from: int) -> Option<ModelRequestErrorView>
    decreases tools.len() - from,
{
    if from >= tools.len() {
        None
    } else if let Some(fault) = tool_fault(tools, from) {
        Some(fault)
    } else {
        tools_fault(tools, from + 1)
    }
}

/// What is wrong with a request: the model first, then the limit, then the tools.
pub open spec fn request_fault(
    model: Seq<char>,
    tools: Seq<ModelToolSpec>,
    options: ModelOptions,
) -> Option<ModelRequestErrorView> {
    if model.len() == 0 {
        Some(ModelRequestErrorView::EmptyModel)
    } else if options.max_output_tokens == Some(0u32) {
        Some(ModelRequestErrorView::ZeroMaxOutputTokens)
    } else {
        tools_fault(tools, 0)
    }
}

/// The view of a check.
pub open spec fn check_view(r: Result<(), ModelRequestError>) -> Option<ModelRequestErrorView> {
    match r {
        Ok(_) => None,
        Err(e) => Some(e@),
    }
}

fn validate_request_fields(
    model: &str,
    tools: &Vec<ModelToolSpec>,
    options: &ModelOptions,
) -> (r: Result<(), ModelRequestError>)
    ensures
        check_view(r) == request_fault(model@, tools@, *options),
{
    if model.is_empty() {
        return Err(ModelRequestError::EmptyModel);
    }
    if let Some(limit) = options.max_output_tokens {
        if limit == 0 {
            return Err(ModelRequestError::ZeroMaxOutputTokens);
        }
    }
    let mut i: usize = 0;
    while i < tools.len()
        invariant
            i <= tools@.len(),
            request_fault(model@, tools@, *options) == tools_fault(tools@, i as int),
        decreases tools@.len() - i,
    {
        let name = &tools[i].name;
        if name.as_str().is_empty() {
            return Err(ModelRequestError::EmptyToolName);
        }
        let mut j: usize = 0;
        while j < i
            invariant
                j <= i < tools@.len(),
                name == tools@[i as int].name,
                name@.len() > 0,
                forall|k: int| 0 <= k < j ==> (#[trigger] tools@[k]).name@ != name@,
                request_fault(model@, tools@, *options) == tools_fault(tools@, i as int),
            decreases i - j,
        {
            if tools[j].name == *name {
                assert(named_before(tools@, i as int, name@));
                return Err(ModelRequestError::DuplicateToolName(name.clone()));
            }
            j = j + 1;
        }
        i = i + 1;
    }
    Ok(())
}

impl ModelRequest {
    /// Checks the request.
    pub fn validate(&self) -> (r: Result<(), ModelRequestError>)
        ensures
            check_view(r) == request_fault(self.model@, self.tools@, self.options),
    {
        validate_request_fields(self.model.as_str(), &self.tools, &self.options)
    }
}

/// The request that a configuration gives.
pub open spec fn built_request(
    config: ModelRequestConfig,
    request_id: RequestId,
    session_id: SessionId,
    messages: Seq<Message>,
) -> ModelRequestView {
    ModelRequestView {
        request_id: request_id@,
        session_id: session_id@,
        provider: config.provider@,
        model: config.model@,
        system: opt_text(config.system),
        messages: messages_view(messages),
        tools: config.tools@,
        options: config.options,
    }
}

impl ModelRequestConfig {
    /// Checks what all requests have in common.
    pub fn validate(&self) -> (r: Result<(), ModelRequestError>)
        ensures
            check_view(r) == request_fault(self.model@, self.tools@, self.options),
    {
        validate_request_fields(self.model.as_str(), &self.tools, &self.options)
    }

    /// The request for `messages`, unless the configuration is refused.
    pub fn build(
        &self,
        request_id: RequestId,
        session_id: SessionId,
        messages: Vec<Message>,
    ) -> (r: Result<ModelRequest, ModelRequestError>)
        ensures
            match r {
                Ok(request) => request_fault(self.model@, self.tools@, self.options) is None
                    && request@ == built_request(*self, request_id, session_id, messages@),
                Err(e) => request_fault(self.model@, self.tools@, self.options) == Some(e@),
            },
    {
        match self.validate() {
            Err(e) => Err(e),
            Ok(()) => Ok(
                ModelRequest {
                    request_id,
                    session_id,
                    provider: self.provider.clone(),
                    model: self.model.clone(),
                    system: self.system.clone(),
                    messages,
                    tools: clone_tools(&self.tools),
                    options: self.options,
                },
            ),
        }
    }

    /// A copy of the configuration that offers `tools`.
    pub fn with_tools(&self, tools: Vec<ModelToolSpec>) -> (r: ModelRequestConfig)
        ensures
            r == (ModelRequestConfig { tools, ..*self }),
    {
        ModelRequestConfig {
            provider: self.provider.clone(),
            model: self.model.clone(),
            system: self.system.clone(),
            tools,
            options: self.options,
        }
    }
}

/// A configuration is refused exactly if its model has no name, its limit is
/// zero, a tool has no name or two tools share one.
pub proof fn law_request_refusals(model: Seq<char>, tools: Seq<ModelToolSpec>, options: ModelOptions)
    ensures
        request_fault(model, tools, options) is None <==> {
            &&& model.len() > 0
            &&& options.max_output_tokens != Some(0u32)
            &&& forall|i: int| 0 <= i < tools.len() ==> (#[trigger] tools[i]).name@.len() > 0
            &&& forall|i: int, j: int|
                0 <= i < j < tools.len() ==> (#[trigger] tools[i]).name@ != (
                #[trigger] tools[j]).name@
        },
{
    lemma_tools_fault(tools, 0);
}

proof fn lemma_tools_fault(tools: Seq<ModelToolSpec>, from: int)
    requires
        0 <= from <= tools.len(),
    ensures
        tools_fault(tools, from) is None <==> forall|i: int|
            from <= i < tools.len() ==> (#[trigger] tools[i]).name@.len() > 0 && forall|j: int|
                0 <= j < i ==> (#[trigger] tools[j]).name@ != tools[i].name@,
    decreases tools.len() - from,
{
    if from < tools.len() {
        lemma_tools_fault(tools, from + 1);
        if tool_fault(tools, from) is None {
            assert(!named_before(tools, from, tools[from].name@));
        }
    }
}

/// What is reported of a request is what is wrong with it.
pub proof fn law_request_refusals_are_named(
    model: Seq<char>,
    tools: Seq<ModelToolSpec>,
    options: ModelOptions,
)
    ensures
        match request_fault(model, tools, options) {
            None => true,
            Some(ModelRequestErrorView::EmptyModel) => model.len() == 0,
            Some(ModelRequestErrorView::ZeroMaxOutputTokens) => options.max_output_tokens == Some(
                0u32,
            ),
            Some(ModelRequestErrorView::EmptyToolName) => exists|i: int|
                0 <= i < tools.len() && (#[trigger] tools[i]).name@.len() == 0,
            Some(ModelRequestErrorView::DuplicateToolName(name)) => exists|i: int, j: int|
                0 <= i < j < tools.len() && (#[trigger] tools[i]).name@ == name && (
                #[trigger] tools[j]).name@ == name,
        },
{
    lemma_tools_are_named(tools, 0);
}

proof fn lemma_tools_are_named(tools: Seq<ModelToolSpec>, from: int)
    requires
        0 <= from,
    ensures
        match tools_fault(tools, from) {
            None => true,
            Some(ModelRequestErrorView::EmptyToolName) => exists|i: int|
                0 <= i < tools.len() && (#[trigger] tools[i]).name@.len() == 0,
            Some(ModelRequestErrorView::DuplicateToolName(name)) => exists|i: int, j: int|
                0 <= i < j < tools.len() && (#[trigger] tools[i]).name@ == name && (
                #[trigger] tools[j]).name@ == name,
            Some(_) => false,
        },
    decreases tools.len() - from,
{
    if from < tools.len() {
        if tools[from].name@.len() == 0 {
        } else if named_before(tools, from, tools[from].name@) {
            let i = choose|i: int|
                0 <= i < from && (#[trigger] tools[i]).name@ == tools[from].name@;
            assert(tools[i].name@ == tools[from].name@);
        } else {
            lemma_tools_are_named(tools, from + 1);
        }
    }
}

} // verus!
