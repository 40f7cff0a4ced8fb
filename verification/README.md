# BuckoWump

A small grid game: find the buckos hidden on a 10 by 10 grid within ten
guesses; each guess tells the distance to every bucko not yet caught.

- `src/` is the verified library (Verus):
  - `text.rs`: decimal numbers, and splitting text into lines and words;
  - `introtext.rs`: the typewriter introduction and its line layout;
  - `buckos.rs`: hiding the buckos and answering a guess;
  - `game.rs`: the menu, the turns and the end of a round, with its texts;
  - `ami.rs`: the frame-by-frame decisions of Ami's animation;
  - `herd.rs`: the buckos bouncing on the title screen;
  - `rng.rs`: draws from macroquad's random generator.
- `app/` is the macroquad program around it: window, input, drawing, sound
  and the floating-point motion of sprites.
- `tests/` exercises the library.
