# sonos_controller

A controller for Sonos speakers on the local network, with its logic verified by Verus.

The library (`src/`) builds every request a controller sends and reads every answer it gets
back; the desktop application (`app/`) sends them.

- `ssdp` — discovery (collecting SSDP answers, reading device descriptions, one device per
  IP sorted by room), zone groups from the status page or the topology service, the play
  queue and ContentDirectory listings, and the request sequences that play a URI or a queue
  track.
- `upnp` — AVTransport and RenderingControl calls, the checks of device answers, and the
  readers of every answer (`extract` and the typed parsers).
- `music_services` — SMAPI requests and answers (credentials, browsing, search, AppLink
  sign-in), the list of bound music services, and QQ Music search answers.
- `text`, `bytes`, `xml`, `json`, `urls`, `regexes`, `sort`, `soap` — the string, parsing and
  sorting pieces these are built from, with their specifications.

Laws that span several functions are public proof functions, for example
`upnp::lemma_volume_roundtrip` (what `SetVolume` sends reads back as the same volume),
`ssdp::lemma_merged_ips_distinct` (discovery lists each speaker once) and
`music_services::lemma_decode_descriptors_undoes_escape`.

`app/` holds the Tauri commands, the HTTP and UDP traffic, and serde copies of the library's
types for the web front end.
