# devo_server

The decision logic of a session server for a coding agent, written in Verus: what
the server answers, what it records, and in which order.

A request that has to wait for files, models or clients is a machine: a phase, an
event, and the action that comes next. The library decides, the host acts. What can
be decided at once is a function. Every function states its result over
mathematical models; what holds of a request from its beginning to its end is
stated and proved in the `law_` functions next to it.

| Part | Modules |
|------|---------|
| Turns | `turn_start`, `turn_model`, `queue`, `queue_requests`, `compaction`, `inputs` |
| History | `message_edit`, `edit_requests`, `turn_cut`, `workspace_restore`, `rollback`, `rollback_preview`, `rollback_workspace`, `pages` |
| Sessions | `sessions`, `session_state`, `session_list`, `session_metadata`, `session_admin`, `session_fork`, `session_tree`, `transcript`, `schedule` |
| Goals | `goal`, `goal_requests` |
| Clients | `subscription`, `replay`, `acp`, `acp_session`, `acp_history`, `config_options`, `slash_commands` |
| Ground | `protocol`, `text`, `paths`, `json`, `ids` |

What an action asks of the host stands at its variant. What a request has learned
on the way stands in its phase, which the host sees too.

`app/` holds what acts: files, the clock, JSON on the wire, and the tasks that run
the machines. Where a request needs the database, the rollouts, the connections or
a model, `app/` names a trait, and the runtime of the server implements it.
`tests/` runs the library on values.

What is not proved is what other crates do: the contracts of `serde_json`,
`base64`, `diffy`, `uuid` and `chrono` stand in `json`, `inputs`,
`workspace_restore` and `ids`, each above the call that it is about, and so do two
functions of the standard library in `text`.
