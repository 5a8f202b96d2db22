# Reloopy

The core of a self-evolving agent system: a boot kernel that supervises an
agent and its services, and lets the agent replace itself only through
compilation, tests and a check of its capabilities.

The library under `src/` is verified with Verus. It decides and computes; it
does no input or output.

- `kernel`, `update`, `requests`: the boot kernel. Each function takes an event
  and returns the actions it leads to.
- `lease`, `runlevel`, `resource`, `capability`, `constitution`, `protocol`,
  `state`, `migration`, `router`: what the kernel keeps account of.
- `version`, `repo`: the version repository, as steps that name one call each.
- `judge`, `compiler`, `service`, `admin`: the services and the administrator.
- `agent`, `deepseek`, `scripted_llm`, `tools`, `source`, `gitignore`,
  `memory`, `memory_writer`, `ipc_client`, `scenario`: the agent.
- `messages`, `msg_types`, `wire`, `json`, `crypto`: messages and their form.
- `text`, `split`, `scan`, `paths`, `calendar`, `table`, `log_err`: what the
  rest is built from.

Functions named `law_...` state what holds across several functions.

The program under `app/` performs what the library decides: sockets, files,
processes, HTTP, and the floating-point scores.
