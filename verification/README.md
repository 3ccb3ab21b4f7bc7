# kuro

A native installer and updater for Kuro Games titles (Wuthering Waves and Punishing: Gray Raven): it
talks to the publisher's servers, applies their patches without wine, and repairs, installs and
switches games from a terminal interface or the command line.

- `src/` is the library: every decision of the program, with contracts that Verus proves. It reads no
  file and opens no connection. An operation that needs either is a course of actions: the library
  says what to do next, whoever does it answers with what came of it.
- `app/` is the program around it: the terminal, the files, the network, the patch engine and the
  threads.
- `tests/` runs the library, whole operations among it, on a disk and a server held in memory.

## The library

| Modules | What they hold |
|---------|----------------|
| `text`, `paths` | texts and Unix paths |
| `types`, `error`, `progress` | the launcher protocol, failures, messages of long operations |
| `config`, `pgr_meta`, `tokens`, `client` | the registry of games and servers, addresses, the choice of a server |
| `state`, `manifest`, `digest`, `download` | the layout on the disk, manifests, digests, downloads and their ranges |
| `atomic`, `moves` | replacing a file so that an interruption never loses it, and so that it can be taken back |
| `game`, `install`, `steam` | an opened game folder, new installations, Steam and its libraries |
| `predownload`, `order`, `merge`, `apply`, `apply_laws`, `apply_disk` | fetching an update, merging its patches, putting it in place |
| `sync`, `sync_laws`, `sweep`, `checkout` | verifying and repairing, removing what nobody lists, switching the channel |
| `ui`, `ui_events`, `ui_laws`, `screen`, `area`, `messages` | the interface: keys, messages, what is shown and where; the command line |

What holds of several functions together is stated by the proof functions whose names begin with
`law_`.
