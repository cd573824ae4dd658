# softnet

A user-space network for virtual machines, and the filter in it. Every frame that a
virtual machine exchanges with its host passes through the filter, which lets the machine
use the address that it was leased and nothing else, applies the rules for what it may
reach, and admits return traffic of the flows that the rules have admitted.

The library in `src/` decides; the program in `app/` does the reading and writing. The
library is written in Verus: what each function returns or changes is stated in its
contract and proved.

## Layout

- `addr`, `clock`, `text`, `net`, `wire`: addresses, coarse time, text, networks, and the
  headers of packets.
- `dhcp`, `dhcp_options`, `dhcp_snooper`, `dhcp_snooper_global`: DHCP messages, their
  options, and the leases that are learned from them.
- `proxy::rule`, `proxy::rules`, `proxy::policy`: rules as text, compiled rules, and the
  policy that they make up.
- `proxy::flow_map`, `proxy::flows`: the table of admitted flows.
- `proxy::conntrack`, `proxy::conntrack_tcp`, `proxy::conntrack_udp`: connection tracking.
- `proxy::state`, `proxy::vm`, `proxy::host`: the filter, and its verdicts on frames from
  either side.
- `proxy::rpc`, `proxy::control`, `proxy::session`: the control socket, over which the
  policy is read and replaced.
- `proxy::stream`: what the control socket makes of a stream of bytes as a whole.
- `proxy::laws`: what holds of the filter as a whole.
- `host`, `descriptor`, `poller`, `cli`: what is decided when the program starts and when
  it is woken up.

## Trust

Parsing of packets, DHCP messages, networks and JSON, the prefix map and the coarse clock
come from other crates. Each call into one stands in a small function whose contract is
believed without proof; the comment above it says what is claimed of the call.

## Limits

The program exposes no ports of a virtual machine: it has no option for it, and the methods
of the link that add and remove forwarding rules wait for one.
