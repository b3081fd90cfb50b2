# duocb

End-to-end encrypted clipboard sharing between two devices that trust each other's
signed identity cards. The logic is a Verus library: Verus proves every function under
`src/` except the small wrappers around outside calls, whose contracts it believes.

- `src/` holds the logic: identity cards and names, the framed protocol, the key and PIN
  handshakes, the records by which devices find each other, and the state machines of
  hosting, joining and card setup. Each wrapper says in its doc comment which outside
  function it stands for and what is believed of it. Of two nothing is believed: the one
  that reads the clock and the one that draws random bytes.
- `tests/` runs the compiled library.
- `app/` is what runs around it: the iroh transport, DNS-SD, relays, timers and the C
  interface. It performs the actions that the state machines ask for and reports back
  what happened. A program that embeds it installs its PIN scheme first.

The laws of the library, such as that a sent item is received as sent, that one PIN
admits one device, or that card setup never carries clipboard content, are public proof
functions beside the functions they speak of.
