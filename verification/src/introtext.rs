//! The typewriter text shown when a game starts: it reveals one more
//! character every few frames and lays the revealed text out in lines.

use vstd::prelude::*;
use vstd::string::*;
use vstd::utf8::is_ascii_chars;
use crate::text::{decimal, lines_of, words_of, push_decimal, lines, words};

verus! {

/// Frames to wait between two revealed characters.
pub const FRAMES_PER_CHAR: u8 = 4;

/// The introduction for a game with `bucko_amount` buckos on a
/// `grid_size` by `grid_size` grid.
pub open spec fn intro_raw(bucko_amount: u8, grid_size: u16) -> Seq<char> {
    "Creative Computing Buckopia, New Jrsey\nThe object of this game is to find the "@
        + decimal(bucko_amount as nat) + " bucko"@ + (if bucko_amount > 1 {
        "s"@
    } else {
        Seq::<char>::empty()
    }) + " hidden on a "@ + decimal(grid_size as nat) + " by "@ + decimal(grid_size as nat)
        + " grid. \nYou get 10 tries. After each try, I will \nkill \nyou."@
}

/// Lays words out on lines: a word whose flag in `breaks` is set starts a
/// new line (the line built so far is closed, even when empty); any other
/// word is added to the current line. The result is the lines closed so far
/// and the line being built, after the first `n` words.
pub open spec fn wrap_scan(words: Seq<Seq<char>>, breaks: Seq<bool>, n: nat) -> (
    Seq<Seq<char>>,
    Seq<char>,
)
    decreases n,
{
    if n == 0 {
        (seq![], seq![])
    } else {
        let (done, open) = wrap_scan(words, breaks, (n - 1) as nat);
        if breaks[n - 1] {
            (done.push(open), words[n - 1])
        } else {
            (done, open + words[n - 1])
        }
    }
}

/// The lines of `words` laid out by `breaks`: the last line is always kept.
pub open spec fn wrapped(words: Seq<Seq<char>>, breaks: Seq<bool>) -> Seq<Seq<char>> {
    let (done, open) = wrap_scan(words, breaks, words.len());
    done.push(open)
}

/// The layout of the first `n` lines: a line that fits stays whole, any other
/// is split into its words and wrapped by its break flags.
pub open spec fn layout_prefix(
    lines: Seq<Seq<char>>,
    fits: Seq<bool>,
    breaks: Seq<Seq<bool>>,
    n: nat,
) -> Seq<Seq<char>>
    decreases n,
{
    if n == 0 {
        seq![]
    } else {
        let before = layout_prefix(lines, fits, breaks, (n - 1) as nat);
        if fits[n - 1] {
            before.push(lines[n - 1])
        } else {
            before + wrapped(words_of(lines[n - 1]), breaks[n - 1])
        }
    }
}

/// The layout of all `lines` (see `layout_prefix`).
pub open spec fn layout(lines: Seq<Seq<char>>, fits: Seq<bool>, breaks: Seq<Seq<bool>>) -> Seq<
    Seq<char>,
> {
    layout_prefix(lines, fits, breaks, lines.len())
}

/// Whether `breaks` gives one flag for each word of each line that does
/// not fit.
pub open spec fn breaks_match(lines: Seq<Seq<char>>, fits: Seq<bool>, breaks: Seq<Seq<bool>>) -> bool {
    &&& fits.len() == lines.len()
    &&& breaks.len() == lines.len()
    &&& forall|i: int|
        0 <= i < lines.len() && !fits[i] ==> #[trigger] breaks[i].len() == words_of(lines[i]).len()
}

/// Wraps `words` into lines by `breaks` (see `wrapped`).
pub fn wrap_words(words: &Vec<String>, breaks: &Vec<bool>) -> (out: Vec<String>)
    requires
        breaks.len() == words.len(),
    ensures
        out.deep_view() == wrapped(words.deep_view(), breaks@),
{
    let mut out: Vec<String> = Vec::new();
    let mut line = String::new();
    let mut i: usize = 0;
    while i < words.len()
        invariant
            breaks.len() == words.len(),
            i <= words.len(),
            wrap_scan(words.deep_view(), breaks@, i as nat).0 == out.deep_view(),
            wrap_scan(words.deep_view(), breaks@, i as nat).1 == line@,
        decreases words.len() - i,
    {
        if breaks[i] {
            let ghost before = out.deep_view();
            out.push(line);
            assert(out.deep_view() =~= before.push(
                wrap_scan(words.deep_view(), breaks@, i as nat).1,
            ));
            line = words[i].clone();
        } else {
            line.append(words[i].as_str());
        }
        i = i + 1;
    }
    let ghost before = out.deep_view();
    out.push(line);
    assert(out.deep_view() =~= before.push(wrap_scan(words.deep_view(), breaks@, i as nat).1));
    out
}

/// Lays `lines` out (see `layout`).
pub fn layout_lines(lines: &Vec<String>, fits: &Vec<bool>, breaks: &Vec<Vec<bool>>) -> (out: Vec<
    String,
>)
    requires
        breaks_match(lines.deep_view(), fits@, breaks.deep_view()),
    ensures
        out.deep_view() == layout(lines.deep_view(), fits@, breaks.deep_view()),
{
    let mut out: Vec<String> = Vec::new();
    let mut i: usize = 0;
    while i < lines.len()
        invariant
            breaks_match(lines.deep_view(), fits@, breaks.deep_view()),
            i <= lines.len(),
            out.deep_view() == layout_prefix(
                lines.deep_view(),
                fits@,
                breaks.deep_view(),
                i as nat,
            ),
        decreases lines.len() - i,
    {
        let ghost before = out.deep_view();
        if fits[i] {
            out.push(lines[i].clone());
            assert(out.deep_view() =~= before.push(lines.deep_view()[i as int]));
        } else {
            let ws = words(lines[i].as_str());
            assert(breaks.deep_view()[i as int].len() == words_of(lines.deep_view()[i as int]).len());
            assert(breaks[i as int]@ =~= breaks.deep_view()[i as int]);
            assert(lines[i as int]@ == lines.deep_view()[i as int]);
            let mut wrapped_line = wrap_words(&ws, &breaks[i]);
            let ghost piece = wrapped_line.deep_view();
            out.append(&mut wrapped_line);
            assert(out.deep_view() =~= before + piece);
        }
        i = i + 1;
    }
    out
}

/// One frame of the typewriter on a text of `len` characters, from
/// `revealed` characters shown and `frames` waited: while waiting, the wait
/// grows by one as long as text is left; once the wait is over, one more
/// character is revealed and the wait starts again.
pub open spec fn tick_step(len: nat, revealed: nat, frames: nat) -> (nat, nat) {
    if frames != FRAMES_PER_CHAR {
        if revealed < len {
            (revealed, frames + 1)
        } else {
            (revealed, frames)
        }
    } else {
        (revealed + 1, 0)
    }
}

/// `n` frames of the typewriter (see `tick_step`).
pub open spec fn ticks(len: nat, revealed: nat, frames: nat, n: nat) -> (nat, nat)
    decreases n,
{
    if n == 0 {
        (revealed, frames)
    } else {
        let (r, f) = tick_step(len, revealed, frames);
        ticks(len, r, f, (n - 1) as nat)
    }
}

/// The decimal representation of a number is ASCII.
pub proof fn lemma_decimal_ascii(n: nat)
    ensures
        is_ascii_chars(decimal(n)),
    decreases n,
{
    if n >= 10 {
        lemma_decimal_ascii(n / 10);
        assert forall|i: int| 0 <= i < decimal(n).len() implies '\0' <= #[trigger] decimal(n)[i]
            <= '\u{7f}' by {
            if i < decimal(n / 10).len() {
                assert(decimal(n)[i] == decimal(n / 10)[i]);
            }
        }
    }
}

/// Every introduction is ASCII.
pub proof fn lemma_intro_ascii(bucko_amount: u8, grid_size: u16)
    ensures
        is_ascii_chars(intro_raw(bucko_amount, grid_size)),
{
    broadcast use vstd::utf8::is_ascii_chars_concat;

    reveal_strlit("Creative Computing Buckopia, New Jrsey\nThe object of this game is to find the ");
    reveal_strlit(" bucko");
    reveal_strlit("s");
    reveal_strlit(" hidden on a ");
    reveal_strlit(" by ");
    reveal_strlit(" grid. \nYou get 10 tries. After each try, I will \nkill \nyou.");
    lemma_decimal_ascii(bucko_amount as nat);
    lemma_decimal_ascii(grid_size as nat);
    assert(is_ascii_chars(
        "Creative Computing Buckopia, New Jrsey\nThe object of this game is to find the "@,
    ));
    assert(is_ascii_chars(" bucko"@));
    assert(is_ascii_chars("s"@));
    assert(is_ascii_chars(Seq::<char>::empty()));
    assert(is_ascii_chars(" hidden on a "@));
    assert(is_ascii_chars(" by "@));
    assert(is_ascii_chars(" grid. \nYou get 10 tries. After each try, I will \nkill \nyou."@));
}

/// Right after a character is revealed, the next one appears after
/// `FRAMES_PER_CHAR + 1` frames, and the wait starts over.
pub proof fn lemma_one_char_per_cycle(len: nat, revealed: nat)
    requires
        revealed < len,
    ensures
        ticks(len, revealed, 0, (FRAMES_PER_CHAR + 1) as nat) == (revealed + 1, 0nat),
{
    reveal_with_fuel(ticks, 6);
}

/// From nothing shown, `k` characters are shown after `k` full cycles of
/// `FRAMES_PER_CHAR + 1` frames, for any `k` up to the text's length.
pub proof fn lemma_reveal_pace(len: nat, k: nat)
    requires
        k <= len,
    ensures
        ticks(len, 0, 0, k * (FRAMES_PER_CHAR + 1) as nat) == (k, 0nat),
    decreases k,
{
    assert(FRAMES_PER_CHAR == 4);
    if k > 0 {
        let cycle = (FRAMES_PER_CHAR + 1) as nat;
        assert(cycle == 5);
        lemma_reveal_pace(len, (k - 1) as nat);
        lemma_ticks_compose(len, 0, 0, ((k - 1) * cycle) as nat, cycle);
        lemma_one_char_per_cycle(len, (k - 1) as nat);
        assert(k * cycle == ((k - 1) * cycle) as nat + cycle) by (nonlinear_arith)
            requires
                k > 0,
        ;
        assert(ticks(len, 0, 0, ((k - 1) * cycle) as nat + cycle) == (k, 0nat));
    }
}

/// Running `a` frames and then `b` frames is running `a + b` frames.
pub proof fn lemma_ticks_compose(len: nat, revealed: nat, frames: nat, a: nat, b: nat)
    ensures
        ticks(len, revealed, frames, a + b) == {
            let (r, f) = ticks(len, revealed, frames, a);
            ticks(len, r, f, b)
        },
    decreases a,
{
    if a > 0 {
        let (r, f) = tick_step(len, revealed, frames);
        lemma_ticks_compose(len, r, f, (a - 1) as nat, b);
        assert((a + b - 1) as nat == (a - 1) as nat + b);
    }
}

/// Once the whole text is shown and the wait is reset, nothing changes any
/// more, however many frames pass.
pub proof fn lemma_done_stays_done(len: nat, n: nat)
    ensures
        ticks(len, len, 0, n) == (len, 0nat),
    decreases n,
{
    if n > 0 {
        lemma_done_stays_done(len, (n - 1) as nat);
    }
}

/// The introduction text and how much of it has been revealed.
pub struct IntroText {
    raw: String,
    print_to: usize,
    timer: u8,
    cache: Vec<String>,
}

impl IntroText {
    #[verifier::type_invariant]
    spec fn inv(self) -> bool {
        &&& is_ascii_chars(self.raw@)
        &&& self.timer <= FRAMES_PER_CHAR
    }

    /// The whole text.
    pub closed spec fn raw_text(&self) -> Seq<char> {
        self.raw@
    }

    /// How many characters are revealed.
    pub closed spec fn revealed(&self) -> nat {
        self.print_to as nat
    }

    /// Frames waited since the last revealed character.
    pub closed spec fn frames(&self) -> nat {
        self.timer as nat
    }

    /// The laid-out lines last computed.
    pub closed spec fn lines_shown(&self) -> Seq<Seq<char>> {
        self.cache.deep_view()
    }

    /// Whether a call of `tick` stays within the text: once the wait is
    /// over, one more character must be left to reveal.
    pub open spec fn tick_in_range(&self) -> bool {
        self.frames() == FRAMES_PER_CHAR ==> self.revealed() < self.raw_text().len()
    }

    /// The length of the text: its number of characters, which is its
    /// number of bytes, as the text is ASCII.
    fn text_len(&self) -> (len: usize)
        ensures
            len == self.raw_text().len(),
    {
        proof {
            use_type_invariant(self);
        }
        self.raw.as_str().unicode_len()
    }

    /// Whether a call of `tick` stays within the text (see `tick_in_range`).
    pub fn tick_within_text(&self) -> (b: bool)
        ensures
            b == self.tick_in_range(),
    {
        let len = self.text_len();
        self.timer != FRAMES_PER_CHAR || self.print_to < len
    }

    /// Sets the text for a game with `bucko_amount` buckos on a `grid_size`
    /// square grid; what is revealed and laid out stays as it was.
    pub fn init(&mut self, bucko_amount: u8, grid_size: u16)
        ensures
            final(self).raw_text() == intro_raw(bucko_amount, grid_size),
            final(self).revealed() == old(self).revealed(),
            final(self).frames() == old(self).frames(),
            final(self).lines_shown() == old(self).lines_shown(),
    {
        proof {
            use_type_invariant(&*self);
            lemma_intro_ascii(bucko_amount, grid_size);
        }
        let mut raw = String::from_str(
            "Creative Computing Buckopia, New Jrsey\nThe object of this game is to find the ",
        );
        push_decimal(&mut raw, bucko_amount as u64);
        raw.append(" bucko");
        if bucko_amount > 1 {
            raw.append("s");
        }
        raw.append(" hidden on a ");
        push_decimal(&mut raw, grid_size as u64);
        raw.append(" by ");
        push_decimal(&mut raw, grid_size as u64);
        raw.append(" grid. \nYou get 10 tries. After each try, I will \nkill \nyou.");
        assert(raw@ =~= intro_raw(bucko_amount, grid_size));
        self.raw = raw;
    }

    /// Empties the text and starts the typewriter over.
    pub fn reset(&mut self)
        ensures
            final(self).raw_text() == Seq::<char>::empty(),
            final(self).revealed() == 0,
            final(self).frames() == 0,
            final(self).lines_shown() == Seq::<Seq<char>>::empty(),
    {
        *self = IntroText { raw: String::new(), print_to: 0, timer: 0, cache: Vec::new() };
        assert(self.cache.deep_view() =~= Seq::<Seq<char>>::empty());
    }

    /// Advances the typewriter by one frame (see `tick_step`). Returns
    /// whether one more character was revealed, so that the lines must be
    /// laid out again.
    pub fn tick(&mut self) -> (rebuild: bool)
        requires
            old(self).tick_in_range(),
        ensures
            (final(self).revealed(), final(self).frames()) == tick_step(
                old(self).raw_text().len(),
                old(self).revealed(),
                old(self).frames(),
            ),
            rebuild == (old(self).frames() == FRAMES_PER_CHAR),
            rebuild ==> final(self).revealed() <= final(self).raw_text().len(),
            final(self).raw_text() == old(self).raw_text(),
            final(self).lines_shown() == old(self).lines_shown(),
            final(self).tick_in_range(),
    {
        proof {
            use_type_invariant(&*self);
        }
        let len = self.text_len();
        if self.timer != FRAMES_PER_CHAR {
            if self.print_to < len {
                self.timer = self.timer + 1;
            }
            return false;
        }
        self.print_to = self.print_to + 1;
        self.timer = 0;
        true
    }

    /// The revealed part of the text, split into lines.
    pub fn shown_lines(&self) -> (out: Vec<String>)
        requires
            self.revealed() <= self.raw_text().len(),
        ensures
            out.deep_view() == lines_of(self.raw_text().take(self.revealed() as int)),
    {
        proof {
            use_type_invariant(self);
        }
        lines(self.raw.as_str().substring_ascii(0, self.print_to))
    }

    /// Lays the revealed lines out again: a line flagged in `fits` stays
    /// whole, any other is wrapped at the words flagged in its `breaks`.
    pub fn rebuild(&mut self, fits: &Vec<bool>, breaks: &Vec<Vec<bool>>)
        requires
            old(self).revealed() <= old(self).raw_text().len(),
            breaks_match(
                lines_of(old(self).raw_text().take(old(self).revealed() as int)),
                fits@,
                breaks.deep_view(),
            ),
        ensures
            final(self).lines_shown() == layout(
                lines_of(old(self).raw_text().take(old(self).revealed() as int)),
                fits@,
                breaks.deep_view(),
            ),
            final(self).raw_text() == old(self).raw_text(),
            final(self).revealed() == old(self).revealed(),
            final(self).frames() == old(self).frames(),
    {
        proof {
            use_type_invariant(&*self);
        }
        let shown = self.shown_lines();
        let laid_out = layout_lines(&shown, fits, breaks);
        self.cache = laid_out;
    }

    /// The lines last laid out.
    pub fn cache(&self) -> (lines: &Vec<String>)
        ensures
            lines.deep_view() == self.lines_shown(),
    {
        &self.cache
    }
}

impl Default for IntroText {
    fn default() -> (intro: Self)
        ensures
            intro.raw_text() == Seq::<char>::empty(),
            intro.revealed() == 0,
            intro.frames() == 0,
            intro.lines_shown() == Seq::<Seq<char>>::empty(),
    {
        let intro = IntroText { raw: String::new(), print_to: 0, timer: 0, cache: Vec::new() };
        assert(intro.cache.deep_view() =~= Seq::<Seq<char>>::empty());
        intro
    }
}

} // verus!
