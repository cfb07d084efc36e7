# flovo

A workflow engine that is described by JSON and driven by events, with its logic
verified in Verus.

A workflow is a set of nodes. Each node waits for its activation, reads its inputs
from a parameter bus, writes its outputs there, and chooses the node that goes on; a
node that chooses `finish` ends the workflow, and its outputs are the result.

## Layout

`src/` is the library. It does no I/O and starts no tasks. What takes time outside
(a task, a message, a read from a store, an HTTP request) is an event that the host
reports, and what has to be done outside is an action or an effect that the library
hands out:

| Module | Contents |
| --- | --- |
| `text`, `string_map`, `value`, `json` | texts, maps in key order, JSON values and their texts |
| `parameter_bus` | step values and streams between nodes |
| `workflow`, `run` | the state of a workflow, and its run from the first read to the last write |
| `context_sync` | what is read from an outside store before a run and written back after it |
| `node`, `nodes` | what a node is, and the node types that the engine brings along |
| `config`, `builder` | configurations, their validation, and the building of workflows |
| `prompt`, `llm` | prompts from templates, and answers of language models in pieces |
| `ws` | the WebSocket protocol: envelopes, batches, connections and sessions, and the client of OpenAI-compatible services |

`app/` is the host: tasks and channels, files and the environment, HTTP and WebSocket.
`tests/` runs the library, with small hosts of its own.

## Contracts

The types that hold data have views: values of specification types (`JsonView`,
`BusView`, `WorkFlowView`, ...). Contracts say over these views what a function returns
or changes; `StringMap` is seen as the sequence of its entries, in the order of the
keys. Of nodes, sessions, servers and builders the contracts speak field by field.
Functions that may have to wait return what they find at the moment, and are called
again when something has changed.

Floating-point numbers are carried as their bits; only the host adds them.
