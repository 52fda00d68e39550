# harvester-dns-controller

A Kubernetes controller that watches Harvester `VirtualMachineNetworkConfig`
and `LoadBalancer` resources and keeps DNS A records in a MikroTik RouterOS or
GL.Inet router in step with them.

The decisions of the controller are a library verified with Verus (`src/`):

- `config`: backend names, base URLs, FQDNs and the namespace watch list;
- `kubernetes`: the fields of the resources that are read, and hostname derivation;
- `registry`: hostname claims from several sources, priority resolution, and
  the DNS commands that keep each record on its winning claim (`laws` holds
  the properties proved of it);
- `dns`: DNS commands, their effect on a backend's records, the `DnsClient`
  contract and an in-memory backend;
- `routeros`, `dns::glinet`: request URLs, payloads, response handling and
  which records each backend touches; `routeros::urlencoding` percent-encodes
  query values;
- `controller`: reconcile plans for both resources, finalizer lists, startup
  claims, owner lookup and event messages;
- `health`: answers of the health endpoint.

The program around it (`app/`) does the I/O: environment, Kubernetes watches
and patches, HTTP calls to the router, and the health listener.
