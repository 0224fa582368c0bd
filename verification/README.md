# easytier_ssh

The rules behind the management shell and the SSH server of a node, written in
Verus. The functions of the library are verified against their contracts. What is
taken from outside crates is stated where the calls are made.

- `text`, `wire`, `address`: words and lines, the encoding of SFTP packets,
  addresses and URLs in their normal form.
- `command`, `runtime`, `rpc_readonly`, `router`: the commands of the shell, the
  configuration of the network, starting and stopping it, and the calls that
  answer read-only commands.
- `session`: the line editor of a shell session, with its history.
- `auth`, `config`: who may log in, and the server's configuration and host key.
- `sftp_path`, `sftp_attrs`, `sftp_request`, `sftp`: the SFTP server without the
  file system.
- `pty`: the shell on a terminal, and the delivery of its output.

`app/` holds the sockets, files, terminals and the connection to the services of
the network. It asks the library what to do, does it, and reports what came of
it. `tests/` runs the library.
