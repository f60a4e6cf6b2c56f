# matrix_demo

The logic of the Matrix GUI demo (ESP32-S3 with ST7789 display and CST816D
touch controller, and its browser version), written in Verus and verified.

- `src/` is the verified library:
  - `cst816d`: touch controller state, register protocol steps, coordinate
    decoding and rotation;
  - `calculator`: the calculator display (a `heapless::String<32>`), key
    handling, splitting an expression into numbers and operators, term
    grouping and result text;
  - `clock`: time-of-day digits, one-second ticks and which digits roll;
  - `anim_switch`: the animated switch's state machine and lever geometry;
  - `pages`: page list, pointer press/drag/release events, button targets;
  - `web`: canvas coordinates, mouse tracking and the page-loop ticker;
  - `evaluation`: evaluating numbers joined by operators over any number type;
  - `fixed_text`: the trusted interface to the heapless buffers.
- `app/` draws the pages with matrix-gui, drives the CST816D over
  embedded-hal I2C, evaluates calculator expressions in `f32`, and holds the
  browser entry point and the ESP32-S3 firmware (built for the device only).
- `tests/` exercises the library on concrete values.
