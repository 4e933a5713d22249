# celery_brokers

Message brokers for Celery tasks over AMQP and Redis streams. What a broker decides and computes
is verified with Verus; what goes over the network is ordinary Rust around it.

- `src/` is the verified library.
  - `protocol`, `error`, `task`: messages, errors and result handles.
  - `broker::amqp`: messages as AMQP deliveries and back, the configuration of a broker, the
    declaration of its queues, consuming, publishing and closing.
  - `broker::redis`: the same for Redis streams, with the task that reads many streams at once.
  - `text`, `utc_time`, `string_map`, `convert`: what the rest is built from.
- `app/` holds the connections. It carries out the actions that the library asks for and hands
  back what came of them.
- `tests/` runs the library.

Where an operation alternates between the network and a decision, the library has a task with a
`step` function: it takes an event and gives the next action. The contract of `step` names a spec
function that says what comes next, and the laws about whole runs are proved of that function.
