# vault

A remotely controlled filesystem: it receives procedure calls from Maestro
(the scheduler) and manages the files of users on the disks of the machine.

The library (`src/`) is written in Verus and verified:

- `filesystem` — the on-disk layout (`file/<id>/file`, `user/<user>/<id>`,
  `disk/<disk>/<id>` and the links between them), the plans of filesystem
  operations that create and remove a file, the reading back of its links,
  the listing of directories into files; `cache` (storage queues) and `vault`
  (files spread over disks); `disks` (disk selection); `encryption` (age);
  `path` (path components, over `std::path`).
- `maestro` — the service over the selected filesystem and the helpers of
  its handlers; `models`, `stats` — the records of the logs database.
- `storage_type` — the storage queues and their wire codes.

Laws of the library are public proof functions named `law_*`.

`app/` holds the input/output around it: running the plans on the real
filesystem, reading the system's disks, the handlers of the gRPC service and
the logs database.
