# KC868-A6

Control library and firmware for the KinCony KC868-A6: six relays behind an I2C
port expander, six opto-isolated inputs, a safety interlock, MQTT with Home
Assistant discovery, a small web server, over-the-air updates, a status display
and an optional Pt100 temperature sensor.

## Layout

- `src/` is the control library, written in Verus and proved against its
  contracts: what the tasks decide, and what they read and write. The tasks are
  state machines: they say what is to be done next and take in what came of it.
- `app/` is the firmware around it: the drivers and the network stack, the
  floating point of the temperature sensor, and the loops that do what the state
  machines ask for.
- `tests/` runs the library on the host.

## What is proved

- A command that is taken up while the interlock is engaged energises no relay,
  and nothing but a granted reset releases the interlock (`interlock`, `relays`,
  `inputs`, `watchdog`). A write that was already under way when the interlock
  engaged is still finished; the all-off command that comes with it follows.
- A whole upload on a sound flash is committed exactly if all of the image came
  in and its sum is the advertised one. The boot record is written only after the
  sum of the image and of the slot, read back, are that one; until then the board
  boots as before, afterwards it boots the new slot (`ota`, `ota_upload`).
- Requests, topics and payloads are read exactly as their contracts say, the two
  MQTT sessions have different client ids, and the topics, configs and responses
  that the board sends fit their buffers (`http`, `webserver`, `mqtt`,
  `ha_discovery`, `format`).
