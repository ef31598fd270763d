# cni-gesprek

An IPv6-only CNI plugin that gives each container an `ipvlan` interface
(L2, bridge mode) with a random address in the host's subnet and the host's
default gateway.

The library under `src/` holds the plugin's logic with its contracts,
proved by Verus:

- `utils`: CIDR parsing, subnet membership, splitting addresses and drawing
  a random address inside a subnet.
- `environment`, `cni`: the CNI environment variables, their validation per
  command, and the context of one invocation.
- `orchestrator`: planning of ADD and CHECK, the DEL decision and the result
  documents with their compact JSON text (`json`, `text` hold the string
  helpers; string literals are serde_json's).
- `ip_json`: the JSON arrays that `ip -j` prints, read with serde_json,
  and the routes and addresses they hold.
- `command_steps`: ADD, DEL, CHECK and STATUS as state machines, each step naming
  the next driver call with its arguments, the next write or the result.
- `command_dispatcher`: routing of commands to handlers that run those
  machines on a `NetworkDriver` and an `OutputWriter`.
- `driver_script`: input validation and command lines of the system driver,
  the reading of what `ip -j` reports (routes, gateway, subnet, link
  state, address state), the search for the upstream interface,
  the order of the configuration steps in a namespace, and the wait for
  duplicate address detection as a state machine; `driver_dryrun` is the
  simulating driver.

`app/` is the program: command-line options, the process environment,
standard input and output, the JSON configuration, and the driver that runs
`ip`, `nsenter` and `sysctl`.
