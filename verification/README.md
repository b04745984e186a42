# esp_qq_bot

The verified core of a QQ bot that runs on an ESP32 board.

- `src/frame.rs`: the length-delimited framing of the protocol stream
  (4-byte big-endian length that counts itself, 8 MiB limit), with the
  decoding buffer and the round-trip laws.
- `src/client.rs`: the client's lifecycle (start, stop, disconnect,
  heartbeat) and the network loop as a state machine from events to actions.
- `src/session.rs`: login decisions, reports, group messages and the timer text.
- `src/wifi.rs`: Wi-Fi configuration from a scan and the connected-status check.
- `src/channel.rs`: the broadcast channel provider of the client.
- `app/`: the firmware around it: the async drivers of the network loop and
  the channels, the board's Wi-Fi bring-up and the bot's session.
