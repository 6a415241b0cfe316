# kvmshare

Share one keyboard and mouse across machines: one machine (the *server*)
shares its input with others (*clients*) across a virtual desktop. Move the
cursor off one screen's edge and it appears on the neighbor, taking the
keyboard and the clipboard with it.

* `src/` is the library, verified with Verus: the desktop layout, the
  session that decides when the cursor crosses, the shortcuts, the server's
  registry and policy, the client's steering, and the rules of the config,
  the command line and the state files. The executable functions carry
  their contracts; the guarantees that span several functions are public proof
  functions.
* `app/` is the program around it: sockets, threads, files, environment, and
  whatever is computed in floating point. Operating-system backends plug in
  through `app/platform.rs`.
* `tests/` run the library.

What the library takes on trust is little, and each item says so: how text is
quoted, the monotonic clock, and the system's random bytes.
