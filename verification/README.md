# edna-server

The database side of the websubmit server, written in Verus.

- `src/` is the verified library:
  - `text`: joining strings and searching for a substring;
  - `decimal`: decimal numerals of integers, with the proof that distinct
    numbers have distinct numerals;
  - `sql`: cell values, their SQL literals (rendered by the `mysql` driver),
    and the row-insert and upsert statements;
  - `connect`: the connection settings, the URL of a local port, and the
    driver options for that URL;
  - `parsed_url`: driver options that only the driver's URL parser builds,
    marked with the URL they were parsed from;
  - `retry`: the step that follows each attempt at a statement;
  - `routes`: the decision of the index page;
  - `form`: form-encoded request bodies (through `serde_urlencoded`);
  - `bench`, `prime`: the benchmark's names, statements, request bodies,
    expected row counts, statistics lines, and the database priming script;
  - `driver`: the benchmark run as a script, the step function that plays
    it, and the proof of how many durations each timer receives.
- `app/` holds the parts that do I/O: the MySQL connection with its retry
  loops, the terminal logger, the loop that performs the benchmark's
  actions against a web site, and the statistics file.
- `tests/` exercises the library on concrete values.
