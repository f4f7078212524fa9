# nature_db

The storage layer of a flow engine: metas (the kinds of business object),
instances of them, relations that say how an instance of one meta is converted
into instances of others, and the tasks that carry those conversions.

- `src/` is the library, verified with Verus: meta strings and keys and their
  parsing, selectors, relations and one-step flows read from their stored form,
  the missions an instance gives, the stored forms of instances, metas and tasks,
  the decisions of the data access layer, and the meta and relation caches.
- `tests/` runs the library on concrete values.
- `app/` is the ordinary Rust around it: the MySQL statements, the JSON forms of
  the settings, the asynchronous drivers of the caches, and the weighted choice
  among the executors of a group.
