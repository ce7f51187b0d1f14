# wqms

The library of a water quality monitoring station, verified with Verus.

A station keeps its state in a directory of small text files: a registry of
measuring channels (value, unit, status, scale, range and a signal file per
channel, intervals and a daily history table for the registry), an analog
input, and a TOML configuration. `src/` holds the rules of those files and the
decisions of the station's programs, each with a contract that Verus proves:

- `text`: trimming, decimal numbers, splitting and path joining as the
  standard library does them;
- `channel`: the channel and registry files, the signal file and the history
  table;
- `clock`: day stamps and time stamps from the UTC calendar (chrono);
- `display`: when the e-paper display has to be redrawn;
- `bot`: the command languages of the two chat bots and their replies;
- `prop`: the property commands (`/set`, `/get`, `/wifi`, the keys);
- `wifi`: the wireless setting forms and API, as step functions that say
  which call comes next and what is answered;
- `collect`: the measuring loop;
- `users`, `analog`, `nitri`, `config`, `cli`, `models`, `error`.

`app/` is the console program around it: file access, the TOML file, argument
parsing, random test values, the floating point measurements, the wireless
calls, and a console stand-in for the chat transport (`wqms bot` answers the
messages read from the standard input).
