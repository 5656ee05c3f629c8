# embypanel

The verified core of EmbyPanel, a panel and reverse proxy for Emby servers whose `.strm`
media is answered with `302` redirects to direct links.

- `src/` is the library, checked by Verus: configuration normalization, client control
  (user-agent rules, playback rate and concurrency limits, blocks), the routing of video
  stream requests, direct-link cache decisions, OpenList paths, proxy header handling, the
  block, activity and file logs, telemetry aggregation, password hashing and the sign-in limit, user lists,
  user policy changes, trusted proxy lists, settings checks, encrypted backups and their
  restore plan, and the unsealing of encrypted forms. Calls into `url`, `regex`, `chrono`,
  `sha2`, `base64`, `rand`, `ipnet`, `argon2`, `aes-gcm` and `rsa` go through small trusted
  wrappers whose contracts name what those crates compute.
- `tests/` runs the library on concrete inputs.
- `app/` is a small command-line front end: it reads configuration files, prints what the
  library decides, performs the log rotation it plans, and exports or inspects encrypted
  backups.
