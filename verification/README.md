# hunter

A daemon that looks for bugs and improvements in repositories, lets a worker
fix what an operator has queued, and follows the pull requests until they are
merged. It spends only what the operator's own usage windows leave over.

- `src/` is the library: every rule the daemon decides by, with contracts that
  Verus proves. It does no input or output. What takes several steps outside
  (a launch, a fix, an answer to a pull request, the making of a tree) is a
  machine: a step takes an event and gives effects and the next action.
- `app/` is the program around it: the database, the commands, the API and the
  loop that drives the machines. Floating point lives here.
- `tests/` runs the library on concrete values.

The playbooks are read from `<root>/playbooks`, the settings from
`<root>/config.json`.
