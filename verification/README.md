# cheap8

A CHIP-8 interpreter whose instruction semantics are specified and proved with Verus.

- `src/emulator/cpu.rs`: the interpreter (`CPU<K, S>`), generic over a keypad and a display.
  `CPU::next_state` and `CPU::next_pixel` say what every instruction does; `decode` is proved
  to follow them, and `can_execute` says on which states an instruction runs without an
  arithmetic overflow or an out-of-range index.
- `src/emulator/io/`: the `Keyboard` and `Screen` traits with their contracts, and the in-memory
  implementations `MacroquadKeyboard` and `VirtualScreen`; the keypad's table of window keys,
  and the law that gives the held keys after any history of presses, releases and updates.
- `src/emulator/laws.rs`: properties across instructions (call and return, drawing a sprite
  twice, storing and loading registers, the font, add and subtract with carry).
- `src/cpu.rs`, `src/screen.rs`: the first design of the interpreter, where each instruction
  sets the program counter itself, with its own display layout.
- `app/main.rs`: the window, keyboard polling, file loading and the frame loop, on macroquad.
