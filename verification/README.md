# kodik

A verified core for a Kodik / Shikimori client, written in Verus.

- `src/` is the library. Every function is proved against its contract,
  except seven small wrappers around outside crates, whose contracts are
  taken on trust from those crates' sources and documentation:
  `static_agents` and `random_below` (`ua_generator`, `fastrand`),
  `check_header_value` (`http`'s `HeaderValue::from_str`),
  `ParsedUrl::parse` (`url`), and `CompiledPattern::compile`,
  `CompiledPattern::is_match` and `syntax_error` (`regex`). The library's
  parts:
  - `utils`: host-name and anime-id grammars (`re`), Netscape cookie lines
    (`cookies`), the request policy (`client`: headers, user agent,
    back-off on 429), run-time patterns through the `regex` crate
    (`pattern`) and `api_url`.
  - `parser`: the Kodik search records and the choice of a video source
    (`find_result`).
  - `shiki`: Shikimori records, URL builders, franchise paging and the
    chronological ordering of a franchise (`sort_by_chrono`), with its laws.
  - `text`: decimal rendering, joining, trimming.
- `app/` is the I/O around it: the `reqwest` client, serde forms of the
  records, cookie files and the async request loops.
- `tests/` exercise the library, including comparisons of the two grammars
  with the `regex` crate on generated inputs.
