# rsntp metrics

Metrics for an NTP server, written in Verus.

`src/` is the verified library:

- `packet_metrics`: packets received, sent and dropped, and distinct remote
  addresses per IP version (kept in vstd's `StringHashSet`), as
  `prometheus` counter vectors. Its
  well-formedness states that, for each IP version, the received counter
  counts that version's packets and the distinct-address counter the
  distinct addresses seen, both modulo 2^64, and that there are no more
  distinct addresses than packets received. The two versions' counters are
  kept under different label keys (FNV-1a of `ipv4` and `ipv6`). The
  vectors' own registry always accepts them (their descriptor ids differ),
  so only the process-wide default registry can refuse a construction. Its
  text exposition lists the vectors that hold a counter, by name, each
  with one line per label value in label order and the count (in decimal
  below 2^53).
- `collector`: per-thread and global packet event counters, first-seen and
  last-seen time stamps, and distinct clients per minute, hour and day, as
  `prometheus_client` families. Its text exposition reports, for each
  counter and gauge family, one line per label set with the value the
  collector holds. The distinct client gauges count first sightings per
  window and never go down; nothing refreshes them before the registry is
  encoded.
- `client_cache`: the per-period client caches (`moka`), modelled by the
  count last written per address: a sighting counts 1, or one more than
  that count, and is then written back.
- `process`: process gauges, and the reading of `/proc/self/limits` and
  `/proc/self/status` text into them.
- `routes`: request routing and replies of the metrics endpoint.
- `clock`: clock readings as nanoseconds or seconds since the Unix epoch.
- `text`: line and field splitting, prefix tests, integer parsing and
  printing.
- `prom_client`, and the top of `packet_metrics` and `client_cache`: the
  outside types and calls, each with the contract it is trusted for.

`app/` holds what does I/O or uses floating point: the HTTP servers, the
reading of `/proc` and of the system process list, conversion of socket
addresses, and the packet size histogram.
