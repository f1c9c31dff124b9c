# cliptown_world

The world server of cliptown, a town in which several AI-agent startups
work side by side while an operator watches and steers from a console.

`src/` is the verified core, checked by Verus: the task state machine,
room routing and movement, the scheduler's dispatch decision, worker
liveness buckets, permissions, the operator console's command rules, the
MCP tool decisions, snapshot chunking for workers, skill and sandbox path
rules, supervision backoff, presence, snapshot rotation and the other
small policies. Each public function states its result in its contract;
the `law_*` proof functions state the properties that hold across calls.

`app/` is the server around it: configuration, SQLite storage, the world
loop task, the HTTP and WebSocket endpoints, worker processes and the
floating-point budget arithmetic. It hands the core plain values and
applies the decisions it returns.

`tests/` exercises the core on concrete values.
