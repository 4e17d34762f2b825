# gitconfig_proxy

A small HTTP proxy between a DayZ server and GitHub. Clients ask it for the file tree of a
repository (`/tree`), for the text of a file (`/raw`), or to download a file to disk (`/write`);
`/lfs-status` tells how many background downloads of Git LFS files are under way and have failed,
and `/health` answers `OK`.

- `src/` is the verified library. It decides what is asked of GitHub, what is answered to clients,
  and where a download may be written. Every function states its result exactly, and the functions
  named `law_..` state what holds of the proxy as a whole.
- `app/` is the program around it: arguments, sockets, TLS, requests and files.
- `tests/` runs the library on concrete values.

The library does no input or output. Where a request needs several steps outside, each step's
outcome is handed to a value of the library that answers with the next step or with the reply;
`src/write.rs` follows one download from the query to the renamed file in this way.
