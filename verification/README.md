# windows-cleaner

Deletes the paths that a config file or the command line names, and moves entries
elsewhere, with or without a symbolic link left in their place.

`src/` is the verified library. It touches no disk: an operation that alternates
between the file system and a decision is a value that names its next request and
is resumed with the reply. Its contracts say which request follows which reply,
and the proof functions whose names begin with `law_` state what holds of whole
operations.

- `walk`, `removal`, `attributes`, `repair`: deleting one path, with retries,
  read-only attributes and permissions
- `run`, `delete`: runs of deletions, what stayed, and the summary
- `link`, `transfer`, `copy`, `symlink`: moving an entry and linking to it
- `rename`: moving an entry with the commands of Windows
- `batch`: moving a list of entries
- `cli`, `config`: the command line and the config file as plain values
- `path`, `platform`, `text`, `fault`: paths, texts and failures

`app/` is the program: it reads the command line and the config file, performs the
requests, runs deletions on a thread pool and shows progress.
