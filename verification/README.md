# mve_transport

A transport that carries many independent contexts over one framed byte stream. Each frame starts
with the four bytes of the handle of its context; the payload behind it is an item in the encoding
of `bincode`. Either side of a connection can open further contexts, which the other side joins by
their handles.

The library under `src/` is verified with Verus:

- `handle`: context handles, and how the two sides give them out without ever meeting.
- `frame`: how a handle and a payload make a frame, and how a frame is taken apart.
- `codec`: handles as items on the wire.
- `stream`: what the items of the stream are, and how far the stream is read.
- `router`: where an arriving frame goes, what is kept for contexts that are not known yet, and how
  every channel is let go when the stream ends.
- `history`: what becomes of the frames of a connection over any run of events.
- `delivery`: from what one side writes to what the other side reads.
- `transport`: what a transport writes, what its reads and polls answer, and its copies.
- `context`: opening and joining further contexts, and notifications.
- `session`: the receiving and the sending end of a connection.
- `error`, `poll`, `display`, `schema`: the values that these speak of.

Work that has to be waited for is handed to the library as a function that polls it. What such a
function needs is asked of it only where the library calls it, so the contracts also say when it is
not called.

`app/` is the program around the library: the channels, the tasks, the impls of the traits of the
protocols that run over a transport, and the wire form of `schema`.
