# spacedrive_core

The decision logic of the Spacedrive file manager's core, written in Verus
and proved against its contracts.

- `src/` is the verified library. Each module states, over mathematical
  models (`Seq`, `Map`, `Set`, spec functions and views), what its functions
  return or change, and proves it:
  - the job system: reports (`job_report`), job handles and their children
    (`job_handle`), the runner's bookkeeping of queued and running jobs
    (`job_runner`) and a spawned job's reaction to commands (`job_task`);
  - sync: the ingest state machine (`ingest`), peer and instance tracking,
    the wire framing of sync messages (`p2p_sync`) and the listener and
    discovery plans of the P2P manager (`p2p_manager`);
  - the indexer's rule decisions and the merging of what a walk found
    (`walk`), the file identifier (`file_identifier`), the media processor's
    planning (`media`), the image labeler's batches (`labeler`), the
    thumbnail directory's layout and migrations (`thumbnail`), the Windows
    watcher's event pairing (`watcher`);
  - the custom URI server's response planning, MIME types, route parsing and
    CORS (`custom_uri`), database migrations (`migrate`), the library
    manager (`library`), tags (`tags`), desktop integration (`desktop`) and
    file operations (`fs_ops`).

  Calls into outside crates (`http-range`, `ring`, `data-encoding`, `uuid`,
  `image`) go through a few trusted wrappers whose contracts state what those
  crates document.
- `tests/` runs the library on concrete values.
- `app/` is the program around it: reading directories and files (and the
  paths' ancestors), matching the indexer rules' globs and child
  directories, serving responses, the wire encoding of sync messages, the
  job store, migrations and the thumbnail directory on disk. What is
  indexed, moved, run or answered is decided by the library.
