# quake

The logic of the 360 Quake command-line client as a verified library, and
the command-line tool around it.

- `src/` is the library. `text` and `json` hold the string and JSON
  operations the rest is built on (std's `trim_end`, `replace`, `lines`,
  `split`; the accessors of a JSON value and the JSON text that the tool
  shows of one, each with a contract); `models` the request types, the coloured console lines and the
  dates; `client` the request bodies, search period, filters and the reading
  of responses, including the page-by-page host scroll; `display` what the
  tool prints and saves for each kind of response; `persistence` the query
  files and saved lines; `cli` the option values and the directives of an
  AI-written query; `api` the key files. `regex_ops` and `ip_check` reach
  the `regex` and `ipaddress` crates.
- `app/` is the tool: the command line (clap), the HTTP exchange (reqwest,
  with serde_json reading and writing the bodies), files, the home
  directory and the terminal.
- `tests/` runs the library on concrete values.
