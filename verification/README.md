# light_control

A home automation controller: buttons, motion detectors and temperature
sensors on Tinkerforge bricklets drive lights (DMX, relays, Shelly devices),
heating and bells. The wiring is described in a spreadsheet; the library
reads its tables and computes the cells to write back.

`src/` is the verified library. Each module states what its functions
compute in `requires`/`ensures` over spec functions, and the proof functions
named `lemma_*` state properties that hold across calls:

- `room`, `keys`, `text`, `shelly`: texts of rooms, register keys, device ids
  and their parsers (a text written and read back gives the same value).
- `controller`, `io16`, `io_handler`, `outputs`, `dmx`, `screen`,
  `enumeration`, `config_loop`: the decisions of the device and controller
  tasks, each a step from a state and an event to the next state and action.
- `state`: the known state of endpoints and bricklets and how status
  messages change it.
- `sheet`, `sheet_table`, `sheet_reader`, `sheet_devices`,
  `sheet_controllers`, `sheet_lights`, `sheet_endpoints`, `device_idx`,
  `names`, `sorting`, `wiring_build`, `bricklet_table`: reading the wiring out
  of the spreadsheet's tables and the cell writes that keep it up to date.
- `display`, `layout`: panel geometry, the pixel buffer and the layout of
  components.
- `settings`, `wiring`, `registry`: the configuration and its defaults.

`app/` is the program around the library: configuration files, the tokio
tasks that run the controllers and the bricklets, and the loop that reloads
the setup file. It takes the wiring from the setup file (YAML); it has no
client for the spreadsheet service, and it drives neither the touchscreens
nor Shelly devices.

`tests/` runs the library on concrete values.
