//! The tools that are attached to an agent.

use vstd::prelude::*;

use crate::llm::request::ModelToolSpec;
use crate::tools::{registration_of, ToolRegistration, ToolRegistry};

verus! {

#[derive(Debug, PartialEq, Eq)]
pub struct AgentToolRuntime {
    registry: ToolRegistry,
    max_automatic_attempts: u32,
}

#[derive(Clone, Copy, Debug, PartialEq, Eq, Structural)]
pub enum AgentToolRuntimeError {
    ZeroMaxAutomaticAttempts,
}

impl AgentToolRuntimeError {
    pub fn message(&self) -> (r: String)
        ensures
            r@ == "maxAutomaticAttempts must be greater than zero"@,
    {
        "maxAutomaticAttempts must be greater than zero".to_owned()
    }
}

/// A registered tool as it is offered to the model.
pub open spec fn offered(t: ToolRegistration) -> ModelToolSpec {
    ModelToolSpec {
        name: t.definition.name,
        description: t.definition.description,
        input_schema: t.definition.input_schema,
    }
}

impl AgentToolRuntime {
    /// The registered tools.
    pub closed spec fn tools(&self) -> Seq<ToolRegistration> {
        self.registry.registrations@
    }

    /// How often a call is tried without being asked.
    pub closed spec fn attempts(&self) -> u32 {
        self.max_automatic_attempts
    }

    pub fn new(registry: ToolRegistry, max_automatic_attempts: u32) -> (r: Result<
        AgentToolRuntime,
        AgentToolRuntimeError,
    >)
        ensures
            match r {
                Ok(runtime) => max_automatic_attempts > 0 && runtime.tools()
                    == registry.registrations@ && runtime.attempts() == max_automatic_attempts,
                Err(e) => max_automatic_attempts == 0,
            },
    {
        if max_automatic_attempts == 0 {
            return Err(AgentToolRuntimeError::ZeroMaxAutomaticAttempts);
        }
        Ok(AgentToolRuntime { registry, max_automatic_attempts })
    }

    pub fn registry(&self) -> (r: &ToolRegistry)
        ensures
            r.registrations@ == self.tools(),
    {
        &self.registry
    }

    pub fn max_automatic_attempts(&self) -> (r: u32)
        ensures
            r == self.attempts(),
    {
        self.max_automatic_attempts
    }

    pub fn resolve(&self, name: &String) -> (r: Option<&ToolRegistration>)
        ensures
            match r {
                Some(t) => registration_of(self.tools(), name@) == Some(*t),
                None => registration_of(self.tools(), name@) is None,
            },
    {
        self.registry.resolve(name)
    }

    /// The tools as they are offered to the model.
    pub fn model_tool_specs(&self) -> (r: Vec<ModelToolSpec>)
        ensures
            r@ == self.tools().map_values(|t: ToolRegistration| offered(t)),
    {
        let tools = &self.registry.registrations;
        let mut specs: Vec<ModelToolSpec> = Vec::new();
        let mut i: usize = 0;
        while i < tools.len()
            invariant
                i <= tools@.len(),
                specs@ =~= tools@.take(i as int).map_values(|t: ToolRegistration| offered(t)),
            decreases tools@.len() - i,
        {
            let definition = &tools[i].definition;
            specs.push(
                ModelToolSpec {
                    name: definition.name.clone(),
                    description: definition.description.clone(),
                    input_schema: definition.input_schema.clone(),
                },
            );
            i = i + 1;
        }
        assert(tools@.take(i as int) =~= tools@);
        specs
    }
}

} // verus!
