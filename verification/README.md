# peer

A peer of a network that shares language models: it offers the models of its own
servers to clusters and swarms, and lets local clients use the models of others.

- `src/` is the library, verified with Verus. Every function states in its
  contract what it returns; functions named `law_..` state what holds of several
  functions together.
- `app/` is the program around it: HTTP, files, processes and sockets.
- `tests/` run the library on concrete values.

The library in short:

| Module | What it holds |
| --- | --- |
| `agent_compat` | requests and responses of agent clients, brought into one form; tool calls written as text |
| `llm_proxy` | where requests go, and what clients are answered |
| `llm_backend`, `llm_discovery`, `llm_chat` | the servers that run models |
| `crypto`, `proxy_e2ee`, `cluster_dc_e2ee`, `inference_sidecar`, `inference_ipc` | requests and responses that only the other end can read |
| `client_config`, `api`, `startup`, `desktop` | what a peer remembers, and how it is set up and shown |
| `cluster_manager`, `connect_allowance`, `attestation` | the networks that a peer takes part in |
| `gpu`, `gpu_history`, `gpu_thermal_guard` | the GPUs of the host |
| `hf_catalog`, `inference_cell_run`, `chat_models` | models to run and to choose from |
| `text`, `json`, `decimal`, `double`, `strmap`, `outside`, `shared`, `p2p_protocol` | what the others build on |

What the library takes from other crates stands behind functions marked
`external_body` in `json`, `text`, `outside` and `crypto::primitives`. Their doc
comments say what is believed of them without proof.
