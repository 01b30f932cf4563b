# trichter

Firmware for a flow meter on an ESP32: a pulse sensor measures flow sessions,
a small web server lists the measured runs, and an HD44780 character display
can be driven over a 4-bit bus.

- `src/` is the verified library: the display's bus protocol with a
  model of the controller that latches the data lines (`lcd_bus`, `lcd`),
  request framing, the results page and the HTTP response (`http`), pulse
  counting over a time window (`sensor`), a model of what the controller
  does with the instructions it receives (`lcd_controller`), and the decisions of the Wi-Fi
  station task (`wifi`), of the page server (`server`) and of an I2C bus
  scan (`scan`), each written as a state machine from event to next action.
- `app/` is the program around it: it owns the peripherals, performs the
  actions that the library decides (pin levels, waits, sockets, radio), and
  holds the floating-point flow-rate conversion.
- `tests/` exercises the library on concrete values.
