# cliser

A small client/server system for a Raspberry Pi: clients connect to a
server, authenticate with a password, register under an id and are then kept
alive or told to shut down; a console on a third port lists the clients and
sends them commands. An agent keeps a table of clients driven by text or JSON
commands, and a sensor reader reports DS18B20 temperatures.

Messages of the connection protocol (the server speaks, the client answers):

    100: keep alive        110: qual a senha (password?)
    120: qual o ID (id?)   140: Connected
    999: shutdown

Console commands: `200:` keep-alive to every client, `201:` shutdown to every
client, `202:<id>` shutdown to one client, `L` list, `E` leave.

## Layout

- `src/` is the verified library (Verus):
  - `text` — whitespace, trimming, words, decimal numbers, searching;
  - `maps` — walking the keys of a hash map;
  - `pattern` — regular expressions (through `regex`) and `Debug` text;
  - `clientdata` — the server's registry of connected clients;
  - `server` — the connection handler's state machine, the console, the
    reader's and writer's rules;
  - `servermod` — the first server: its settings, its client store, its
    connection handler and console;
  - `client`, `configcli` — the client's settings and protocol;
  - `agent`, `agent_json` — the agent's line and JSON protocols;
  - `tempsensor` — which device entries are sensors, where the reading sits.
- `app/` holds the programs: sockets, threads, channels, settings files,
  logging, the GPIO pin and the HTTP report. Each handler loop asks the library
  what to do and does it.
- `tests/` exercises the library on concrete values.
