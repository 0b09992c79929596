# spider_node

The core of Node.js bindings to the `spider` web crawler, verified with Verus.

- `src/` is the library. `website` holds the website with its settings, its tables of
  registered tasks and its dataset; `session` decides the steps of crawls, scrapes and
  scheduled jobs; `record`, `storage`, `budget` and `headers` hold the rules for
  records, exports, crawl budgets and request headers; `json` is the reader against
  which records are proved; `site` and `handles` state what the calls into `spider` and
  `indexmap` do. `laws` states what holds of all of it
  together.
- `app/` is the Node.js module: bindings, tasks and files.
- `tests/` runs the library on concrete values, with the outside crates linked.
