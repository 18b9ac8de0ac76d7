# fp-appimage-updater

A command-line manager for AppImages driven by YAML recipes: it checks forges
(GitHub, GitLab, Gitea, Forgejo), direct links and custom scripts for new
releases, downloads them (zsync deltas, segmented HTTP ranges or plain HTTP),
and installs them with symlinks and desktop entries.

## Layout

- `src/` — the library, written in Verus, with contracts that Verus proves:
  recipes and configuration, resolvers and release-asset choice, rate limits
  and GitHub proxies, the update engine's queues, provider slots, retries and
  loop steps, the choice of download method, segment ranges, zip and icon
  choice, checksums, the state cache, the process lock, doctor checks and
  shell completion. Laws about the library as a whole are public proof
  functions named `law_*`.
- `app/` — the program around the library: argument handling, files, network,
  threads and the terminal, and the download-speed statistics, which are
  floating point. It gathers facts, calls the library and carries out what
  the library decides.
- `tests/` — tests of the library on concrete values.
