# arti-proxy

A rotating SOCKS5 proxy over Tor. Each `CONNECT` request is forwarded through an
Arti client from a pool of isolated clients.

- `src/` is the library, verified with Verus: the configuration and its
  environment variables, the settings of the Tor client, and the course of a
  connection from the handshake to the end of the relay.
- `app/` is the program around it: the environment, the sockets and the Tor network.
- `tests/` runs the library.

## Environment

- `ARTI_PROXY_LISTEN_ADDR`: socket address to bind, default `127.0.0.1:9050`
- `ARTI_PROXY_POOL_SIZE`: number of pooled clients, default `8`
- `ARTI_PROXY_REQUEST_TIMEOUT_SECS`: limit to one request, default `30`
- `ARTI_PROXY_NEW_CIRCUIT_PERIOD_SECS`: circuit request loyalty and prediction
  lifetime, default `120`
- `ARTI_PROXY_MAX_CIRCUIT_DIRTINESS_SECS`: circuit dirtiness, default `600`
- `ARTI_PROXY_CIRCUIT_BUILD_TIMEOUT_SECS`: circuit request timeout, default `60`
- `ARTI_PROXY_OPTIMISTIC_STREAMS`: optimistic streams, default `true`
- `ARTI_PROXY_STATE_DIR` and `ARTI_PROXY_CACHE_DIR`: directories of the client, set
  together or not at all

## Where the proofs are

- `config.rs` states what the variables make of the configuration, which fault is
  reported first, and that every configuration that is read is valid.
- `address.rs` states which texts are socket addresses and what they mean.
- `client.rs` states which settings the client is given.
- `connector.rs` and `server.rs` state what each step of setting up, dialing and
  serving hands to the network, and what is made of the answer.
- `session.rs` states a connection as transitions between stages, and proves what
  holds of every course that it can take.
- `disconnect.rs` states which errors are part of a normal teardown.
