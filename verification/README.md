# plugind

`plugind` is a daemon that runs plugins when something happens on the system: a
file changes, the battery runs low, a device is connected, the session is
locked. `pluginctl` is its command line client.

What the daemon and the client decide is a library that is verified with Verus;
what they read, run, fork and print is a thin program around it.

## Plugins

A plugin is a directory with a file `manifest.plug` in it, below `/etc/plugins`
or below `.config/plugins` in the home directory of the user who asks. The file
is sourced by `bash`:

```bash
SLOT="AB"                      # runs in slot A, in slot B, or in both
EVENT="OnEnabled OnBatteryLow" # the events that it is run for
RUN_AS="@"                     # @ the user who asks, # root, or a user's name
WATCH_PATH="/var/log"          # changes below this path are events, too

main() {
    echo "$EVENT_NAME $EVENT_RETURN"
}
```

Only the events that `EVENT` lists run a plugin, `OnEnabled` and `OnDisabled`
among them; `pluginctl trigger` runs an enabled plugin for any event.

A change below the watched path is `OnFileCreate`, `OnFileModify`,
`OnFileDelete`, `OnFileAccess` or `OnFileChange`; a manifest may also list the
bare kind of change, such as `Create` or `Modify`.

## Layout

- `src/` is the library.
  - `text`, `number`, `path`, `bytes`, `json`, `gather` and `name_map` are what
    the rest is built from: text, path names, decoding, and a map that is walked
    in the order of insertion.
  - `power`, `network`, `usb`, `display`, `resources`, `disk`, `bluetooth`,
    `session` and `audio` turn what is seen of the system into events, over the
    `state` that was seen last.
  - `plugin` reads manifests into the registry, `dispatch` finds the plugins
    that an event or a changed path runs, and `execute` takes a run through its
    steps.
  - `command` carries out the requests of clients, and `client` makes them and
    shows the answers.
- `app/` is the program: sockets, files, processes, timers, and the few figures
  that are floating point.
- `tests/` runs the library on concrete values.

The contracts speak of sequences of characters and bytes. The proof functions
whose names begin with `law_` state what holds of several functions together.
Decoding bytes to text and writing JSON are left to the standard library and to
`serde_json`; `bytes` and `json` say what is relied on.
