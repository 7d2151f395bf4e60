# wuma_tracker

The verified core of WumaTracker, a position tracker for Wuthering Waves:
a kernel driver reads the player's position out of the game, and a desktop
client polls it and shares it with map viewers over WebRTC signalling.

`src/` holds the logic, each function with a Verus contract:

- `abi`, `bytes`, `names`, `device`, `process_list`, `pe_scan`,
  `coord_chain`, `locator_cache` — the driver's side: the IOCTL and its
  single-instance device, finding the game in the process list, locating
  the world anchor by scanning `.pdata` batches for one instruction, and
  the pointer chain to the player's transform with its failure stages.
- `driver_client`, `helper` — how the client and the helper service judge a
  location reply.
- `errors`, `offsets`, `process_backend`, `user_scan`, `mac_image`,
  `macho_lookup` — the user-mode readers: offset variants, the GWorld scan,
  the macOS image list and symbol lookup, and their caches.
- `collector`, `supervisor`, `signaling`, `keyed_table`, `room_code`,
  `game_paths`, `text` — the client's control logic: the poll loop's
  reporting rules, the collection loop's lifecycle, keep-alive and
  reconnection of the signalling link, the switch table, room codes and
  where the game is installed.

`app/` is a thin headless client around the library: operating-system
calls, threads, JSON, and the floating-point assembly of the position.
`tests/` exercise the library on concrete values.
