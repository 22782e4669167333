# rust_module

A Docker container monitor and an athlete registration router, with their
decision logic verified by Verus.

- `src/` is the verified library:
  - `container`: the containers that the kernel module reports;
  - `ranking`: the utilisation ranking (three bubble-sort passes by processor
    time, resident memory and virtual memory), proved to be the unique stable
    sort by those keys in decreasing order;
  - `selection`: setting the log container aside and deciding which ranked
    containers are removed (all but the three busiest and the two least busy);
  - `report`: the report posted to the log service, stamped with the local time;
  - `text`, `host`: reading `ps aux` and `docker ps -q` output;
  - `athlete`: which gRPC service registers an athlete, and the page answered;
  - `lifecycle`: the monitor's stages, from setting up the log service to
    tidying up after a stop request.
- `app/` holds the programs: it runs the commands, reads `/proc`, parses and
  posts JSON, calls the gRPC services and serves HTTP.
- `tests/` exercises the library on concrete values.
