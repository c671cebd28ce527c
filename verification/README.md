# qrich

Listings of the jobs of a PBS cluster, and of their logs, as a library verified with Verus.

`qrich` reads `qstat -f -F json` and shows what the plain table leaves out: GPU count, a
walltime progress bar, point burn against the group's balance, the node the job landed on,
and the log path to tail; `qrich -c` shows the capacity of the cluster. `qlog` indexes, streams and searches the logs of the jobs.

## Layout

`src/` is the library. Every function in it has a contract that says what it returns.

| Module | Role |
|---|---|
| `text`, `digits`, `wrap` | texts, decimal notation, 64-bit words |
| `calendar` | days and dates |
| `reals` | binary64 numbers as their bits, and finished figures |
| `fmt` | durations, sizes, timestamps, bars, cells |
| `json` | JSON documents, read by `serde_json` |
| `pbs` | jobs, rate cards, balances, what the commands print |
| `cluster`, `capacity` | the capacity of the cluster, and the view of it |
| `opts`, `logopts` | the two command lines |
| `order`, `select` | which jobs are listed, and in which order |
| `paint`, `view` | colours, and the cells of a listing |
| `groups` | the groups that jobs are charged to, and their colours |
| `table`, `card`, `footer`, `render` | the listing |
| `find`, `logtext` | finding and marking a pattern, what a terminal would show |
| `logs`, `search`, `follow` | the index, the search and the live stream of logs |
| `pager` | the full-screen view of logs, a page for each job, and the picker |
| `plain` | what holds no control sequence of the terminal |
| `laws` | what is written can be read back, and cells keep their width |

`app/` is the program around it, under two names: `qrich` and `qlog`. It runs the commands,
reads the files and the keyboard, and does the arithmetic on floating-point numbers, which
the library takes as finished figures.

`tests/` runs the library on concrete values.

## What is trusted

Four things are believed without proof: that `String::push` appends a character, that
`String::from_utf8_lossy` depends on its bytes alone and decodes valid UTF-8, that
`serde_json::from_str` depends on its text alone, and that a `serde_json::Value` is taken
apart as its variants say.

Sums that do not fit in 64 bits wrap around.
