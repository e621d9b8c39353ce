# proxide

A proxy scanner. The library (`src/`) holds the verified logic; the program
(`app/main.rs`) reads the command line and the proxy list file, runs the
checks over the network with an async runtime, and prints the results.

Library modules:

- `text`, `digits`: character-level helpers (splitting, trimming, lower case,
  decimal and hexadecimal numbers) with their specifications.
- `net`: IPv4/IPv6 and socket addresses, their text forms, IPv4 parsing.
- `common`: proxy types and connection details, the scanner configuration,
  the error type, and a duration type.
- `proxy`: the `scheme:ip:port` proxy notation.
- `proxy_list`: reading a proxy list, one `ip:port[:type[:user:password]]` per line.
- `options`: setting a scanner up from option texts.
- `protocols`: the HTTP checker: proxy URL, client proxies, error classification.
- `scanner`: the scanner, its builder, and scan results.
- `transport`: the HTTP client items the library calls, with their assumed contracts.
