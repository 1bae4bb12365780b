# aura_factory

The verified core of a small audio/video conversion tool that drives FFmpeg.

- `src/` is checked by Verus:
  - `media` — ffprobe's report (`ProbeResult`, `Format`, `Stream`) and the
    texts shown for it and the search for a working ffprobe: the clock time of a length, the description of the
    first video and audio stream, the fields of time and frame-rate texts.
  - `conversion` — the plan of a conversion (output path next to the input,
    FFmpeg options, logged command line), the answer to each FFmpeg report
    while it runs, and whether a conversion may start.
  - `clock` — the consultation of the network clock: a random order of web
    sites, at most three asked, the first parsable `Date` header wins.
  - `timetext` — FFmpeg's duration syntax, checked for the cut before a
    conversion is planned.
  - `text` — decimal rendering, splitting, trimming.
- `app/` is the command-line program around it: running ffprobe and FFmpeg,
  reading JSON, HTTP requests, and the arithmetic on floating-point seconds.
- `tests/` exercises the library on concrete values.
