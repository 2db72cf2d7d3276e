# bumps-pipe

A live video relay. A publisher sends RTMP; the relay flattens its timestamps,
re-encodes the video and sends it on over SRT, while a browser dashboard shows a
preview, statistics and operator controls.

The relay's decisions live in the library and are verified with Verus, but for those
that rest on floating point:

| module | what it decides |
| --- | --- |
| `rtmp`, `rtmp_session` | a publisher connection: handshake, session events, the FLV stream |
| `chunks`, `amf0` | which bytes of a publisher the RTMP session survives |
| `flv`, `wsproto`, `buffer` | FLV tags and preview frames, byte by byte |
| `pipeline`, `bus` | the life of the media pipeline: sessions, failures, rebuilds, the watchdog |
| `topology`, `encoder`, `codec` | the pipeline's elements, their settings, and codec strings |
| `flatten`, `preview` | timestamps on the way in, access units on the way to the dashboard |
| `adapt`, `collector`, `stats`, `ping` | bitrate adaptation and statistics |
| `web` | operator commands and dashboard connections |
| `capture`, `calendar`, `retention`, `events` | session artifacts: names, times, records, what is kept |
| `config`, `text` | command-line defaults, numbers and text |

`app/` is the program around it: sockets, files, the media framework, the command
line, JSON, and floating point: smoothing, and judging loss and buffers. `tests/` runs the library, a whole RTMP
connection included.
