# pulsync

Scheduling of recurring tasks, verified with Verus.

- `src/` is the verified library: recurrences (`recurrence.rs`), instants,
  leap seconds included (`time.rs`), task identifiers, status and traits
  (`task.rs`), the registry of scheduled tasks and the decision each worker
  tick takes (`scheduler.rs`), title and salt templates: their field names,
  their `format!` plan and their rendering (`template.rs`), the checks that
  the `Task` derive makes of a struct, over a model of its syntax
  (`derive.rs`), error messages (`error.rs`), and the laws that tie the
  operations together (`laws.rs`).
- `app/` runs the workers: threads (or tokio tasks) that read the clock,
  tick the registry, call the tasks and sleep; it also holds the error type
  displayed through `thiserror`, serialisable copies of the recurrence and
  task state, and a helper that renders a task's title or salt from its
  template.
