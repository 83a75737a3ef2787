# esp32_netcfg

The verified core of an ESP32-C6 firmware that joins a Wi-Fi network, offers
a local setup page and DHCP on its own access point, keeps an MQTT session
with a broker and drives a status LED.

- `src/` is the library, verified with Verus:
  - `text`: UTF-8 checks, Unicode whitespace, trimming, line splitting and
    decimal parsing on bytes;
  - `http`: request framing and parsing, the Wi-Fi form, percent decoding,
    HTML escaping and the setup page and plain-text responses;
  - `dhcp`: DISCOVER/REQUEST parsing, the lease table and OFFER/ACK replies;
  - `wifi`: credentials, the shared runtime state and the decisions of the
    task that keeps the station connected;
  - `mqtt`: message handlers and the decisions of the broker session;
  - `runtime`: the decisions of the MQTT runtime's event loop;
  - `led`: colour commands and the automatic colour cycle;
  - `bounded`: the `heapless` collections used above, with their contracts.
- `tests/` runs the library on concrete values.
- `app/` is the firmware around it: radio, sockets, timers and tasks, which
  perform the actions the library decides and report back what happened.
