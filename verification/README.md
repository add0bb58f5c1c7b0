# speed_browser_system

The core logic of NeuroFlow, a desktop companion that watches the network,
authenticates its browser extension and warms up the pages a user is likely
to open next.

`src/` is a library verified with Verus:

- `text` — character-level helpers (trimming, matching, splitting, decimal
  numbers) and the few std text functions the logic relies on
- `models` — the data exchanged with the extension and the front end
- `utils` — host name extraction
- `privacy` — the sensitive-page guard
- `config` — session tokens: start-up, mode switches, rotation, fingerprints,
  constant-time comparison
- `server` — origin and token checks of the local service, answers to refused
  requests, CORS origins and the MCP request dispatcher
- `network` — ping targets, probe scoring, pre-connect addresses
- `preload` — manual rules, visit counting and next-page prediction
- `monitor` — the periodic monitor's state: speed, strategy, warnings
- `diagnosis` — fix suggestions, mobile-network watch, connectivity verdicts
- `commands` — what the front-end commands compute

`app/` holds the program around it: the Tauri application, the warp service,
the sled store, sysinfo readings, file access and sockets.

`tests/` exercises the library on concrete values.
