# songhunter

A service that finds the songs in the audio of a link (TikTok, YouTube,
Instagram and any site `yt-dlp` supports): it downloads the audio, converts
it, asks Shazam, AcoustID and ACRCloud, and returns the four most likely
songs, ranked and without duplicates.

## Layout

- `src/` is the verified library (Verus). It holds the service's decisions:
  link rewriting and the command lines of `yt-dlp`, `ffmpeg` and `fpcalc`;
  the reading of each provider's answer into songs; the ACRCloud request
  signature; the merge and ranking of the answers; the pipeline of a task as
  a state machine; the configuration with its environment fallbacks; the
  choice of ads per slot; the origin check and the per-client sliding-window
  rate limit. Laws about these (ranking, deduplication, the rate limit, the
  pipeline's progress, the ad choice) are proof functions named `law_*`.
- `app/` is the server around it: axum routes, the SQLite cache, the tokio
  worker that performs the pipeline's actions, process and HTTP calls, and
  the serde copies of the library's records.
- `tests/` runs the library on concrete values.
