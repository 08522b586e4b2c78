# Oxiterm

A tabbed terminal client for SSH, Telnet, serial consoles, local shells and
VNC, with SFTP, tunnels, a session manager, an encrypted password vault and
Git sync of the configuration.

- `src/` is the verified library (Verus): the known-hosts trust decision and
  the SOCKS5 exchange of dynamic forwarding, the `~/.ssh/config` parser, the
  Telnet option filter, the VNC pixel conversions and client decisions, the
  vault (key derivation, encryption, unlock, read after write), the address
  book (save, delete, merge by id), the SFTP listing order and the auto-save
  of files opened in the local editor, MAC parsing and
  the Wake-on-LAN packet, and the texts of commands and tunnels. Each public
  function states its result in its contract; the laws that relate several
  functions are public proof functions (`legge_*`).
- `app/` is ordinary Rust around it: files, sockets, SSH and SFTP sessions,
  pseudo-terminals, serial ports, the VNC socket, Git, and the command layer
  that the user interface calls.
- `tests/` runs the library on concrete values.
