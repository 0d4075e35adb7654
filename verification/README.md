# varlink-httpd

An HTTP/WebSocket server in front of varlink sockets, and `varlinkctl-http`, which
connects a varlink client to such a server.

- `src/` is the library, verified with Verus: which socket a request reaches, who
  may send it, what is forwarded, and how both programs are configured.
- `app/` is the two programs around it: files, sockets, TLS and signals.
- `tests/` runs the library.

The modules of the library:

| module | what it holds |
| --- | --- |
| `interface_name`, `sockets`, `paths` | varlink interface names and the sockets behind them |
| `auth`, `auth_ssh`, `nonce`, `token`, `headers`, `base64` | signed requests and their authentication |
| `ssh_keys`, `signer` | SSH keys, and the one that a client signs with |
| `tls`, `config`, `cli`, `import_ssh` | how the programs are set up |
| `ws`, `client` | forwarding bytes, on the server and on the client |
| `error`, `idl` | answers to failed calls, and interface descriptions |
| `text`, `text_map` | texts |
