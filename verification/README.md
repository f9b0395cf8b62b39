# DeepSeek Harness Runtime

A desktop runtime for the DeepSeek Harness. It provides Node.js (and pnpm, where a version of
it is asked for), keeps a local copy of the repository up to date, installs and builds it,
starts its web host, and shows the host in a window. Everything that it fetches or writes lies
in one working directory.

The runtime is split in two.

- `src/` is a library verified with [Verus](https://github.com/verus-lang/verus). It makes
  every decision: which distribution fits the machine, which address is asked, when the local
  copy is good enough, which command is run with which environment, which line says that the
  host is ready, which file a request leads to, what the window is told.
- `app/` is the program around it. It reads and writes files, sends requests, starts programs
  and drives the window, as the library asks it to.

## How the library is written

`text.rs` and `path.rs` give texts and paths a mathematical meaning; contracts elsewhere are
stated over them.

A procedure that needs the outside world is a value with two methods. `action` says what is
wanted next, `advance` takes note of what that came to. Both have exact contracts: the
procedure is a function from state and event to state. Beside each stand laws about whole runs,
as public proof functions: a failed download leaves nothing behind, the old copy of the
repository is given up only for a new one, no request leads out of the built pages, a burst of
changes leads to one reload, a burst of changes of the sources to one build and at most one
reload, the start always ends and marks the stage in which it failed.

| Module | Subject |
|---|---|
| `text`, `path`, `json` | vocabulary |
| `i18n` | the texts that users see, in two languages |
| `config` | the configuration file and the working directory |
| `http_util` | requests for JSON, downloads |
| `extract` | archives |
| `node_manager` | Node.js and pnpm |
| `repo_manager`, `repo_rebuild` | the local copy of the repository |
| `command`, `builder` | tools, installation, build |
| `host_runner` | the web host |
| `watcher` | live reload: of the built pages, and of the sources by way of a build |
| `webview_app`, `ui` | the page, its scripts, the built pages, what the window is told |
| `bootstrap` | the start as a whole |

Three functions are trusted, each a call into another crate: the system's locale
(`sys-locale`), a text written as a JSON string, and one field of a JSON object (`serde_json`).

## Configuration

`config.toml` beside the executable, or else in the current directory. Every key has a default.

```toml
[repo]
url = "https://github.com/deepseek-ai/deepseek-harness"
branch = "master"

[node]
version = "24.19.0"
mirror = "https://nodejs.org/dist"
# pnpm_version = "10.9.1"

[workspace]
root = ".runtime"

[build]
script = "build"
install_args = []

[host]
port = 0           # 0 lets the system choose
read_timeout = 180 # seconds
```

The section `[app]` with the keys `repo_url` and `branch` says the same as `[repo]` and goes
before it.
