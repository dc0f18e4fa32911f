# QuicFS

A directory served over HTTP/3, and mounted as a file system elsewhere. The server answers reads
of files and of parts of them, changes of files and directories, and requests for listings and
attributes; the client is a FUSE file system.

- `src/` is the library, verified with Verus: routing, paths, byte ranges, bodies in pieces,
  answers, the client's requests and its table of inodes. `src/laws.rs` states what holds of the
  client and the server together, such as that a read gives back what a write wrote.
  `src/outside.rs` holds the contracts of what the library calls in other crates; they are
  believed, not proved.
- `app/` is the program around the library: `quicfs serve` and `quicfs mount`.
- `tests/` runs the library on examples.

## Protocol

| Request | Answer |
| --- | --- |
| `GET /file/*path` | 200 with the file, or with `Range: bytes=start-end` 206 with a part of it |
| `PATCH /file/*path`, `Content-Range: bytes start-end/total` | 200 once the body is written; without the field it is written from the start. An empty body makes the file where the field is missing or `total` is 0 |
| `PATCH /file/*path`, `Content-Range: bytes */size` | 200 once the file has that size |
| `PATCH /file/*path`, `Destination: /file/other` | 200 once the file is moved |
| `PUT /file/*path?mode=0644` | 201 once the file is made |
| `DELETE /file/*path` | 200 once the file is removed |
| `GET /dir/*path` | 200 with the entries of the directory as JSON |
| `PUT /dir/*path?mode=0755` | 201 once the directory is made |
| `DELETE /dir/*path` | 200 once the empty directory is removed |
| `GET /attr/*path` | 200 with the attributes as JSON |
| `PATCH /attr/*path` | 200 once `mode`, `mtime` and `atime` are set as the JSON body says |
| `GET /fs/stats` | 200 with the space for files as JSON |

A path that leaves the served directory is refused.

An error is answered with a status and an object:

```json
{"status": "error", "error": "No such file or directory (os error 2)", "code": "ENOENT", "details": {}}
```

| Code | Status |
| --- | --- |
| `EINVAL` | 400 |
| `EACCES` | 403 |
| `ENOENT` | 404 |
| `EEXIST`, `ENOTEMPTY` | 409 |
| `EIO` | 500 |
| `ENOSPC` | 507 |
