# thrussh_client

The client side of an SSH connection: what a client does with the packets of a server, how it
authenticates, and channels as streams of bytes, shells and tunnels on top of it. The logic is
verified with Verus.

- `src/` is the library. `encoding`, `packet`, `names`, `address` and `msg` are the wire format;
  `auth` is user authentication; `session` is the state of a session; `client` is what a client
  does with it.
  Every function states its effect over mathematical views of the state; `client/laws.rs` and the
  `law_` functions of the other modules state what holds across functions.
- `app/` carries out what the library decides: queues, sockets, streams, and the calls into the
  layers of key exchange, cipher and signatures.
- `tests/` runs the library.

A session is driven in steps. `Session::client_read_encrypted` takes a packet and returns the
session and a `Step`; the documentation of each step names the method to go on with.
