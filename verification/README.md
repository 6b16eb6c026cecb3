# FerrumPHP

A PHP application server. It embeds the Zend engine and serves HTTP requests through a SAPI of
its own. It is meant to run behind a reverse proxy, for applications with a front controller.

| Flag | Default | Description |
|---|---|---|
| `--entrypoint` | — | PHP front controller (required) |
| `--bind` | `127.0.0.1:8080` | Address to bind |
| `--workers` | `10` | Number of PHP worker threads |
| `--trusted-proxy` | — | Trusted proxy CIDR (repeatable) |

## Layout

- `src/` is the verified library: what the server decides or computes about settings, requests,
  responses and workers. It knows nothing of threads, sockets or the engine; channel ends and
  worker handles are type parameters.
  - `text`, `path`, `net`, `headers`, `chunk`: byte strings, paths, networks, header maps, body
    chunks
  - `cli`: settings and their checks
  - `php::context`, `php::variables`, `php::interned`: the request as PHP sees it
  - `php::execution`: the order of the calls into the engine, with its bailouts
  - `php::sapi`: headers, output and the request body while a script runs
  - `php::service`: the way of a request to a worker and of the response back
  - `php::worker`, `php::supervisor`: when workers end and when they are replaced
- `app/` is the program around it: command line, listener, threads, futures and the engine's
  callbacks. It performs what the library asks for, reports how it went, and
  answers the engine itself where there is no worker or no buffer to ask the library about.
- `tests/` runs the library on concrete requests.

Functions whose name starts with `law_` state properties that span several functions.
