//! Refusals of a configuration.

use vstd::prelude::*;

use crate::text::{concat2, concat3, concat4, concat5, quoted, quoted_text};

verus! {

#[derive(Debug, PartialEq, Eq)]
pub enum HarnessConfigError {
    ResolvePath { path: String, message: String },
    Read { path: String, message: String },
    Parse { path: String, message: String },
    Invalid(String),
    InvalidProviderId { value: String, message: String },
    DuplicateProvider(String),
    UnknownProviderReference { profile: String, provider: String },
    UnknownToolProviderReference { profile: String, tool: String, provider: String },
    SchemaJson { profile: String, tool: String, field: String, message: String },
    SchemaDatetime { profile: String, tool: String, field: String },
    SchemaNonFiniteFloat { profile: String, tool: String, field: String },
}

#[verifier::ext_equal]
pub enum ConfigErrorView {
    ResolvePath { path: Seq<char>, message: Seq<char> },
    Read { path: Seq<char>, message: Seq<char> },
    Parse { path: Seq<char>, message: Seq<char> },
    Invalid(Seq<char>),
    InvalidProviderId { value: Seq<char>, message: Seq<char> },
    DuplicateProvider(Seq<char>),
    UnknownProviderReference { profile: Seq<char>, provider: Seq<char> },
    UnknownToolProviderReference { profile: Seq<char>, tool: Seq<char>, provider: Seq<char> },
    SchemaJson { profile: Seq<char>, tool: Seq<char>, field: Seq<char>, message: Seq<char> },
    SchemaDatetime { profile: Seq<char>, tool: Seq<char>, field: Seq<char> },
    SchemaNonFiniteFloat { profile: Seq<char>, tool: Seq<char>, field: Seq<char> },
}

impl View for HarnessConfigError {
    type V = ConfigErrorView;

    open spec fn view(&self) -> ConfigErrorView {
        match self {
            HarnessConfigError::ResolvePath { path, message } => ConfigErrorView::ResolvePath {
                path: path@,
                message: message@,
            },
            HarnessConfigError::Read { path, message } => ConfigErrorView::Read {
                path: path@,
                message: message@,
            },
            HarnessConfigError::Parse { path, message } => ConfigErrorView::Parse {
                path: path@,
                message: message@,
            },
            HarnessConfigError::Invalid(message) => ConfigErrorView::Invalid(message@),
            HarnessConfigError::InvalidProviderId { value, message } => {
                ConfigErrorView::InvalidProviderId { value: value@, message: message@ }
            },
            HarnessConfigError::DuplicateProvider(id) => ConfigErrorView::DuplicateProvider(id@),
            HarnessConfigError::UnknownProviderReference { profile, provider } => {
                ConfigErrorView::UnknownProviderReference {
                    profile: profile@,
                    provider: provider@,
                }
            },
            HarnessConfigError::UnknownToolProviderReference { profile, tool, provider } => {
                ConfigErrorView::UnknownToolProviderReference {
                    profile: profile@,
                    tool: tool@,
                    provider: provider@,
                }
            },
            HarnessConfigError::SchemaJson { profile, tool, field, message } => {
                ConfigErrorView::SchemaJson {
                    profile: profile@,
                    tool: tool@,
                    field: field@,
                    message: message@,
                }
            },
            HarnessConfigError::SchemaDatetime { profile, tool, field } => {
                ConfigErrorView::SchemaDatetime { profile: profile@, tool: tool@, field: field@ }
            },
            HarnessConfigError::SchemaNonFiniteFloat { profile, tool, field } => {
                ConfigErrorView::SchemaNonFiniteFloat {
                    profile: profile@,
                    tool: tool@,
                    field: field@,
                }
            },
        }
    }
}

/// A refusal in words.
pub open spec fn config_error_text(e: ConfigErrorView) -> Seq<char> {
    match e {
        ConfigErrorView::ResolvePath { path, message } => {
            "failed to resolve Harness config path "@ + path + ": "@ + message
        },
        ConfigErrorView::Read { path, message } => {
            "failed to read Harness config "@ + path + ": "@ + message
        },
        ConfigErrorView::Parse { path, message } => {
            "failed to parse Harness config "@ + path + ": "@ + message
        },
        ConfigErrorView::Invalid(message) => "invalid Harness config: "@ + message,
        ConfigErrorView::InvalidProviderId { value, message } => {
            "provider id "@ + quoted(value) + " cannot be represented by Harness: "@ + message
        },
        ConfigErrorView::DuplicateProvider(id) => {
            "provider "@ + id + " is configured more than once"@
        },
        ConfigErrorView::UnknownProviderReference { profile, provider } => {
            "profile "@ + quoted(profile) + " references provider "@ + quoted(provider)
                + ", which is not configured"@
        },
        ConfigErrorView::UnknownToolProviderReference { profile, tool, provider } => {
            "profile "@ + quoted(profile) + " tool "@ + quoted(tool) + " references provider "@
                + quoted(provider) + ", which is not configured"@
        },
        ConfigErrorView::SchemaJson { profile, tool, field, message } => {
            "profile "@ + quoted(profile) + " tool "@ + quoted(tool)
                + " contains invalid JSON text in "@ + field + ": "@ + message
        },
        ConfigErrorView::SchemaDatetime { profile, tool, field } => {
            "profile "@ + quoted(profile) + " tool "@ + quoted(tool)
                + " has an unsupported TOML datetime in "@ + field
        },
        ConfigErrorView::SchemaNonFiniteFloat { profile, tool, field } => {
            "profile "@ + quoted(profile) + " tool "@ + quoted(tool)
                + " has a non-finite float in "@ + field
        },
    }
}

fn of_tool(profile: &String, tool: &String, what: &str) -> (r: String)
    ensures
        r@ == "profile "@ + quoted(profile@) + " tool "@ + quoted(tool@) + what@,
{
    concat5(
        "profile ",
        quoted_text(profile.as_str()).as_str(),
        " tool ",
        quoted_text(tool.as_str()).as_str(),
        what,
    )
}

impl HarnessConfigError {
    pub fn message(&self) -> (r: String)
        ensures
            r@ == config_error_text(self@),
    {
        match self {
            HarnessConfigError::ResolvePath { path, message } => {
                concat4(
                    "failed to resolve Harness config path ",
                    path.as_str(),
                    ": ",
                    message.as_str(),
                )
            },
            HarnessConfigError::Read { path, message } => {
                concat4("failed to read Harness config ", path.as_str(), ": ", message.as_str())
            },
            HarnessConfigError::Parse { path, message } => {
                concat4("failed to parse Harness config ", path.as_str(), ": ", message.as_str())
            },
            HarnessConfigError::Invalid(message) => {
                concat2("invalid Harness config: ", message.as_str())
            },
            HarnessConfigError::InvalidProviderId { value, message } => {
                concat4(
                    "provider id ",
                    quoted_text(value.as_str()).as_str(),
                    " cannot be represented by Harness: ",
                    message.as_str(),
                )
            },
            HarnessConfigError::DuplicateProvider(id) => {
                concat3("provider ", id.as_str(), " is configured more than once")
            },
            HarnessConfigError::UnknownProviderReference { profile, provider } => {
                concat5(
                    "profile ",
                    quoted_text(profile.as_str()).as_str(),
                    " references provider ",
                    quoted_text(provider.as_str()).as_str(),
                    ", which is not configured",
                )
            },
            HarnessConfigError::UnknownToolProviderReference { profile, tool, provider } => {
                let mut text = of_tool(profile, tool, " references provider ");
                text.append(quoted_text(provider.as_str()).as_str());
                text.append(", which is not configured");
                text
            },
            HarnessConfigError::SchemaJson { profile, tool, field, message } => {
                let mut text = of_tool(profile, tool, " contains invalid JSON text in ");
                text.append(field.as_str());
                text.append(": ");
                text.append(message.as_str());
                text
            },
            HarnessConfigError::SchemaDatetime { profile, tool, field } => {
                let mut text = of_tool(profile, tool, " has an unsupported TOML datetime in ");
                text.append(field.as_str());
                text
            },
            HarnessConfigError::SchemaNonFiniteFloat { profile, tool, field } => {
                let mut text = of_tool(profile, tool, " has a non-finite float in ");
                text.append(field.as_str());
                text
            },
        }
    }
}

} // verus!
