# ogonek

The data layer of a learning platform (lessons, tasks, flash-card decks, files and a
calendar with recurring events), written in Verus.

- `src/` is the verified library: request models and their validation rules,
  pagination, activity labels, the error type of the data layer, and the calendar
  logic — parsing stored dates, expanding the events of a time window into the
  instances a calendar shows, ending and splitting recurring series, and what an edit
  or a delete does. Calls into `chrono`, `nanoid`, `validator` and `sqlx` go through
  small trusted wrappers whose contracts are stated next to them.
- `app/` holds the Postgres queries, which hand rows to the library and write back
  what it computes, the display texts of errors, and the serde forms of instants.
- `tests/` exercises the library on concrete values.
