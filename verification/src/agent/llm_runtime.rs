//! The model that is attached to an agent.

use vstd::prelude::*;

use crate::llm::request::{
    request_error_text, request_fault, ModelRequestConfig,
};
use crate::text::{concat2, concat4};
use crate::types::ProviderId;

verus! {

pub const DEFAULT_LLM_TIMEOUT_MS: u64 = 120_000;

#[derive(Debug)]
pub struct AgentLlmRuntime {
    request_config: ModelRequestConfig,
    timeout_ms: u64,
}

#[derive(Debug, PartialEq, Eq)]
pub enum AgentLlmRuntimeError {
    InvalidRequestConfig(String),
    ProviderMismatch { configured: ProviderId, actual: ProviderId },
    ZeroTimeout,
}

#[verifier::ext_equal]
pub enum LlmRuntimeErrorView {
    InvalidRequestConfig(Seq<char>),
    ProviderMismatch { configured: Seq<char>, actual: Seq<char> },
    ZeroTimeout,
}

impl View for AgentLlmRuntimeError {
    type V = LlmRuntimeErrorView;

    open spec fn view(&self) -> LlmRuntimeErrorView {
        match self {
            AgentLlmRuntimeError::InvalidRequestConfig(message) => {
                LlmRuntimeErrorView::InvalidRequestConfig(message@)
            },
            AgentLlmRuntimeError::ProviderMismatch { configured, actual } => {
                LlmRuntimeErrorView::ProviderMismatch { configured: configured@, actual: actual@ }
            },
            AgentLlmRuntimeError::ZeroTimeout => LlmRuntimeErrorView::ZeroTimeout,
        }
    }
}

pub open spec fn llm_runtime_error_text(e: LlmRuntimeErrorView) -> Seq<char> {
    match e {
        LlmRuntimeErrorView::InvalidRequestConfig(message) => {
            "invalid model request configuration: "@ + message
        },
        LlmRuntimeErrorView::ProviderMismatch { configured, actual } => {
            "configured LLM provider "@ + configured + " does not match runtime provider "@
                + actual
        },
        LlmRuntimeErrorView::ZeroTimeout => {
            "LLM timeout must be greater than zero milliseconds"@
        },
    }
}

impl AgentLlmRuntimeError {
    pub fn message(&self) -> (r: String)
        ensures
            r@ == llm_runtime_error_text(self@),
    {
        match self {
            AgentLlmRuntimeError::InvalidRequestConfig(message) => {
                concat2("invalid model request configuration: ", message.as_str())
            },
            AgentLlmRuntimeError::ProviderMismatch { configured, actual } => {
                concat4(
                    "configured LLM provider ",
                    configured.as_str(),
                    " does not match runtime provider ",
                    actual.as_str(),
                )
            },
            AgentLlmRuntimeError::ZeroTimeout => {
                "LLM timeout must be greater than zero milliseconds".to_owned()
            },
        }
    }
}

impl AgentLlmRuntime {
    pub closed spec fn config(&self) -> ModelRequestConfig {
        self.request_config
    }

    pub closed spec fn timeout(&self) -> u64 {
        self.timeout_ms
    }

    /// Attaches the model of `request_config`, which the provider named
    /// `provider_id` carries out.
    pub fn new(request_config: ModelRequestConfig, provider_id: &ProviderId) -> (r: Result<
        AgentLlmRuntime,
        AgentLlmRuntimeError,
    >)
        ensures
            ({
                let fault = request_fault(
                    request_config.model@,
                    request_config.tools@,
                    request_config.options,
                );
                match r {
                    Ok(runtime) => fault is None && provider_id@ == request_config.provider@
                        && runtime.config() == request_config && runtime.timeout()
                        == DEFAULT_LLM_TIMEOUT_MS,
                    Err(e) => match fault {
                        Some(f) => e@ == LlmRuntimeErrorView::InvalidRequestConfig(
                            request_error_text(f),
                        ),
                        None => provider_id@ != request_config.provider@ && e@ == (
                        LlmRuntimeErrorView::ProviderMismatch {
                            configured: request_config.provider@,
                            actual: provider_id@,
                        }),
                    },
                }
            }),
    {
        if let Err(error) = request_config.validate() {
            return Err(AgentLlmRuntimeError::InvalidRequestConfig(error.message()));
        }
        if !provider_id.same(&request_config.provider) {
            return Err(
                AgentLlmRuntimeError::ProviderMismatch {
                    configured: request_config.provider,
                    actual: provider_id.clone(),
                },
            );
        }
        Ok(AgentLlmRuntime { request_config, timeout_ms: DEFAULT_LLM_TIMEOUT_MS })
    }

    /// The runtime with another time limit.
    pub fn with_timeout_ms(self, timeout_ms: u64) -> (r: Result<
        AgentLlmRuntime,
        AgentLlmRuntimeError,
    >)
        ensures
            match r {
                Ok(runtime) => timeout_ms > 0 && runtime.config() == self.config()
                    && runtime.timeout() == timeout_ms,
                Err(e) => timeout_ms == 0 && e@ == LlmRuntimeErrorView::ZeroTimeout,
            },
    {
        if timeout_ms == 0 {
            return Err(AgentLlmRuntimeError::ZeroTimeout);
        }
        Ok(AgentLlmRuntime { request_config: self.request_config, timeout_ms })
    }

    pub fn request_config(&self) -> (r: &ModelRequestConfig)
        ensures
            *r == self.config(),
    {
        &self.request_config
    }

    pub fn timeout_ms(&self) -> (r: u64)
        ensures
            r == self.timeout(),
    {
        self.timeout_ms
    }
}

} // verus!
