# hotreload

Hot reloading of large Python projects, with its decisions verified by
[Verus](https://github.com/verus-lang/verus).

Once a project is large, most of its start-up goes into importing third-party
packages. `hotreload` keeps a loader process that has imported them and forks it
for each run of the project's own code. When the imports of the project change,
the loader process is torn down and a new one is started; when they do not, the
next run is a fork.

## Layout

- `src/` is the library. Everything in it is verified:
  - `imports`, `python_source`, `package_name`, `file_hash`, `ast`: which
    third-party modules a project imports, and what was added or removed since the
    last look;
  - `loader`: what a loader process is told, and what its answers decide;
  - `environment`: a runner with its isolated processes, and whether it has to be
    restarted;
  - `runners`: the runners of a program, by their identifiers;
  - `layer`, `async_resolve`: the watch over the two output streams of a loader
    process, and those who wait for its forks;
  - `multiplex_logs`, `messages`, `processes`: lines of output, messages, and whose
    they are;
  - `python`, `redirect`: search paths and executable of Python, captured output;
  - `string_map`, `module_set`, `text`, `style`, `ids`: what the others are made of;
  - `scan_laws`, `layer_laws`, `environment_laws`: what holds of several calls
    taken together.
- `app/` is the Python extension module round it: files, processes, threads, JSON.
- `tests/` runs the library on concrete values.

## What is taken on trust

The library calls `rustpython_parser`, `regex`, `sha2`, `uuid` and `owo_colors`, and
a few functions of `std`. Each call stands in a small function of its own, whose
contract says what is taken on trust of it.
