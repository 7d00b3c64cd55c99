# harness

A language-agnostic harness for durable agent sessions, written in Verus.

A session is a history of events. The library decides what an agent does next
from what its history adds up to, speaks the wire protocol of capability
providers (models and tools that live in other processes), and compiles the
configuration that binds them together. It does no input or output: every
decision is a function with a contract that Verus proves.

## Layout

- `src/agent`: recovery after a restart, the loop and tool drivers, and the actor
  that owns a session; it drafts events and is told what was written.
- `src/llm`: model requests, and the assembly of streamed answers.
- `src/protocol`: JSON-RPC over lines of JSON, manifests, invocations, streams.
- `src/host`: the connection to a provider process, replaceable provider slots, and
  the bindings between providers and the agent.
- `src/config`: the configuration, layered scopes, and credentials.
- `src/cli`, `src/conformance`, `src/identity`: the command line, scripted sessions,
  and names.
- `src/session`, `src/message`, `src/tools`, `src/types`, `src/json`, `src/text`,
  `src/rows`: the shared vocabulary.
- `app`: the program around the library: arguments, files, processes and tasks. It
  is composed with a session store, a projector, a blob store and a tool check.
- `tests`: executable scenarios.

Laws of the library as a whole are public proof functions whose names begin with
`law_`; that a written line is read back as the message it was written for stands in
the contract of `decode_inbound_line`. What is taken on trust is marked `external_body`; each such function names
the outside call it stands for.
