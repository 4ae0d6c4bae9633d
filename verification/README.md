# media_daemon

The media daemon of the dashcam SoC: video capture into a shared-memory frame
ring, hardware encoding into one-minute H.264 segments, loop recording with
eviction and collision pre-roll preservation, voice-activity gating of the
microphone, and the event bus link to the other daemons.

Layout:

- `src/` — the library, verified with Verus: the frame ring, segment assembly,
  loop-recording bookkeeping, event framing, voice chunking and the event
  dispatch decisions, each with its contract, plus the laws that relate them.
- `app/` — the daemon around the library: V4L2 and ALSA capture, the POSIX
  shared memory mapping, the MPP encoder binding, files on eMMC, the Unix
  socket to the event bus and the threads that tie them together.
- `tests/` — tests of the library on concrete values.
