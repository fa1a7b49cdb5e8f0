//! Running statistics of a typing session and the text that reports them.
use vstd::prelude::*;
use crate::render::{Color, ColoredChar};
use crate::typing::SessionType;

verus! {

/// Number of positions `i < n` at which `q` and `t` hold the same character.
pub open spec fn count_equal_prefix(q: Seq<char>, t: Seq<char>, n: nat) -> nat
    decreases n,
{
    if n == 0 {
        0
    } else {
        count_equal_prefix(q, t, (n - 1) as nat) + if q[n - 1] == t[n - 1] {
            1nat
        } else {
            0nat
        }
    }
}

/// Number of correctly typed characters: position-wise equal pairs over the
/// overlap of the target `q` and the typed `t`.
pub open spec fn chars_correct(q: Seq<char>, t: Seq<char>) -> nat {
    count_equal_prefix(q, t, if q.len() < t.len() { q.len() } else { t.len() })
}

proof fn lemma_count_equal_prefix_push(q: Seq<char>, t: Seq<char>, c: char, n: nat)
    requires
        n <= t.len(),
    ensures
        count_equal_prefix(q, t.push(c), n) == count_equal_prefix(q, t, n),
    decreases n,
{
    if n > 0 {
        lemma_count_equal_prefix_push(q, t, c, (n - 1) as nat);
    }
}

proof fn lemma_count_equal_prefix_bound(q: Seq<char>, t: Seq<char>, n: nat)
    ensures
        count_equal_prefix(q, t, n) <= n,
    decreases n,
{
    if n > 0 {
        lemma_count_equal_prefix_bound(q, t, (n - 1) as nat);
    }
}

/// The count of correct characters never exceeds the number typed nor the
/// target length; appending a character never lowers it, and removing the
/// last one never raises it.
pub proof fn lemma_chars_correct_monotone(q: Seq<char>, t: Seq<char>, c: char)
    ensures
        chars_correct(q, t) <= t.len(),
        chars_correct(q, t) <= q.len(),
        chars_correct(q, t) <= chars_correct(q, t.push(c)),
        t.len() > 0 ==> chars_correct(q, t.drop_last()) <= chars_correct(q, t),
{
    let n = if q.len() < t.len() { q.len() } else { t.len() };
    lemma_count_equal_prefix_bound(q, t, n);
    lemma_count_equal_prefix_push(q, t, c, n);
    if t.len() > 0 {
        let u = t.drop_last();
        let m = if q.len() < u.len() { q.len() } else { u.len() };
        assert(u.push(t.last()) =~= t);
        lemma_count_equal_prefix_push(q, u, t.last(), m);
    }
}

/// Characters typed per minute: `60 * correct / seconds`, and 0 when no time
/// has passed.
pub open spec fn cpm_spec(correct: nat, elapsed_ms: nat) -> nat {
    if elapsed_ms == 0 {
        0
    } else {
        60000 * correct / elapsed_ms
    }
}

/// The digit character for `d < 10`.
pub open spec fn digit_char(d: nat) -> char {
    (('0' as u8) + d) as char
}

/// The decimal notation of `n`, without leading zeros.
pub open spec fn decimal(n: nat) -> Seq<char>
    decreases n,
{
    if n < 10 {
        seq![digit_char(n)]
    } else {
        decimal(n / 10).push(digit_char(n % 10))
    }
}

/// Appends the decimal notation of `n`.
fn push_decimal(out: &mut Vec<char>, n: u128)
    ensures
        final(out)@ == old(out)@ + decimal(n as nat),
    decreases n,
{
    if n >= 10 {
        push_decimal(out, n / 10);
    }
    let d: u8 = (n % 10) as u8;
    out.push((48u8 + d) as char);
    proof {
        assert(decimal(n as nat) == (if n < 10 {
            Seq::<char>::empty()
        } else {
            decimal((n / 10) as nat)
        }).push(digit_char((n % 10) as nat)));
    }
}

/// Appends the characters of `s`.
fn push_str(out: &mut Vec<char>, s: &str)
    ensures
        final(out)@ == old(out)@ + s@,
{
    let n: usize = s.unicode_len();
    let ghost start = out@;
    let mut i: usize = 0;
    while i < n
        invariant
            n == s@.len(),
            i <= n,
            out@ == start + s@.take(i as int),
        decreases n - i,
    {
        out.push(s.get_char(i));
        proof {
            assert(s@.take(i + 1) =~= s@.take(i as int).push(s@[i as int]));
        }
        i = i + 1;
    }
    proof {
        assert(s@.take(n as int) =~= s@);
    }
}

/// The characters of `s`, each in `color`.
pub open spec fn tinted(s: Seq<char>, color: Color) -> Seq<ColoredChar>
    decreases s.len(),
{
    if s.len() == 0 {
        seq![]
    } else {
        tinted(s.drop_last(), color).push(ColoredChar { character: s.last(), color })
    }
}

/// The three digits of `n % 1000`, leading zeros kept.
pub open spec fn three_digits(n: nat) -> Seq<char> {
    seq![digit_char((n % 1000) / 100), digit_char((n % 100) / 10), digit_char(n % 10)]
}

proof fn lemma_tinted_push(start: Seq<ColoredChar>, s: Seq<char>, x: char, color: Color)
    ensures
        (start + tinted(s, color)).push(ColoredChar { character: x, color }) == start + tinted(
            s.push(x),
            color,
        ),
{
    assert(s.push(x).drop_last() =~= s);
    assert((start + tinted(s, color)).push(ColoredChar { character: x, color }) =~= start + tinted(
        s,
        color,
    ).push(ColoredChar { character: x, color }));
}

/// Milliseconds `ms` as seconds with three decimals.
pub open spec fn seconds_text(ms: nat) -> Seq<char> {
    decimal(ms / 1000) + "."@ + three_digits(ms)
}

/// Appends `ms` milliseconds as seconds with three decimals.
fn push_seconds(out: &mut Vec<char>, ms: u64)
    ensures
        final(out)@ == old(out)@ + seconds_text(ms as nat),
{
    push_decimal(out, (ms / 1000) as u128);
    push_str(out, ".");
    let ghost mid = out@;
    let m: u64 = ms % 1000;
    out.push((48u8 + (m / 100) as u8) as char);
    out.push((48u8 + ((m % 100) / 10) as u8) as char);
    out.push((48u8 + (m % 10) as u8) as char);
    proof {
        assert(out@ =~= mid + three_digits(ms as nat));
        assert(out@ =~= old(out)@ + seconds_text(ms as nat));
    }
}

/// Appends the characters of `s`, each in `color`.
fn push_tinted(out: &mut Vec<ColoredChar>, s: &Vec<char>, color: Color)
    ensures
        final(out)@ == old(out)@ + tinted(s@, color),
{
    let ghost start = out@;
    let mut i: usize = 0;
    assert(s@.take(0) =~= Seq::<char>::empty());
    assert(start + tinted(s@.take(0), color) =~= start);
    while i < s.len()
        invariant
            i <= s@.len(),
            out@ == start + tinted(s@.take(i as int), color),
        decreases s@.len() - i,
    {
        let ch: char = s[i];
        out.push(ColoredChar { character: ch, color });
        proof {
            assert(s@.take(i + 1) =~= s@.take(i as int).push(ch));
            lemma_tinted_push(start, s@.take(i as int), ch, color);
        }
        i = i + 1;
    }
    proof {
        assert(s@.take(s@.len() as int) =~= s@);
    }
}

/// Appends the text `s` in `color`.
fn push_text(out: &mut Vec<ColoredChar>, s: &str, color: Color)
    ensures
        final(out)@ == old(out)@ + tinted(s@, color),
{
    let mut v: Vec<char> = Vec::new();
    push_str(&mut v, s);
    assert(v@ =~= s@);
    push_tinted(out, &v, color);
}

/// Appends the decimal notation of `n` in `color`.
fn push_number(out: &mut Vec<ColoredChar>, n: u128, color: Color)
    ensures
        final(out)@ == old(out)@ + tinted(decimal(n as nat), color),
{
    let mut v: Vec<char> = Vec::new();
    push_decimal(&mut v, n);
    assert(v@ =~= decimal(n as nat));
    push_tinted(out, &v, color);
}

/// Counters of one session, recomputed from the target and typed text.
#[derive(Clone, Copy, Debug, PartialEq, Eq, Structural)]
pub struct Stats {
    pub num_chars_typed: usize,
    pub num_correct: usize,
    pub current_quote: u32,
    pub num_quotes: Option<u32>,
    pub elapsed_ms: u64,
}

impl Stats {
    /// No more characters are correct than were typed.
    pub open spec fn wf(self) -> bool {
        self.num_correct <= self.num_chars_typed
    }

    /// The progress part of the status line: `current/total` where the
    /// total is known, else `current`.
    pub open spec fn progress_spec(self) -> Seq<char> {
        match self.num_quotes {
            Some(total) => decimal(self.current_quote as nat) + "/"@ + decimal(total as nat),
            None => decimal(self.current_quote as nat),
        }
    }

    /// The one-line status shown at the bottom of the screen.
    pub open spec fn status_spec(self) -> Seq<char> {
        "Time: "@ + decimal(self.elapsed_ms as nat / 1000) + ", Correct: "@ + decimal(
            self.num_correct as nat,
        ) + ", CPM: "@ + decimal(cpm_spec(self.num_correct as nat, self.elapsed_ms as nat))
            + ", Progress: "@ + self.progress_spec()
    }

    /// The report at the end of a session: totals in blue, correct
    /// characters in green, mistakes in red, then the elapsed time and the
    /// two rates in blue, one line each.
    pub open spec fn report_spec(self) -> Seq<ColoredChar> {
        tinted("Total: "@, Color::Reset) + tinted(decimal(self.num_chars_typed as nat), Color::Blue)
            + tinted(", Correct: "@, Color::Reset) + tinted(
            decimal(self.num_correct as nat),
            Color::Green,
        ) + tinted(", Mistakes: "@, Color::Reset) + tinted(
            decimal((self.num_chars_typed - self.num_correct) as nat),
            Color::Red,
        ) + tinted("\nElapsed Time: "@, Color::Reset) + tinted(seconds_text(self.elapsed_ms as nat), Color::Reset)
            + tinted("\nCPM: "@, Color::Reset) + tinted(
            decimal(cpm_spec(self.num_correct as nat, self.elapsed_ms as nat)),
            Color::Blue,
        ) + tinted("\nWPM: "@, Color::Reset) + tinted(
            decimal(cpm_spec(self.num_correct as nat, self.elapsed_ms as nat) / 5),
            Color::Blue,
        ) + tinted("\n"@, Color::Reset)
    }

    /// Fresh counters for a session of the given type: the total number of
    /// quotes is known for a multi-quote session only.
    pub open spec fn fresh(session_type: SessionType) -> Stats {
        Stats {
            num_chars_typed: 0,
            num_correct: 0,
            current_quote: 1,
            num_quotes: match session_type {
                SessionType::MultiQuote(x) => Some(x as u32),
                _ => None,
            },
            elapsed_ms: 0,
        }
    }

    /// These counters recomputed from target `q` and typed `t`.
    pub open spec fn updated(
        self,
        q: Seq<char>,
        t: Seq<char>,
        current_quote: u32,
        elapsed_ms: u64,
    ) -> Stats {
        Stats {
            num_chars_typed: t.len() as usize,
            num_correct: chars_correct(q, t) as usize,
            current_quote,
            num_quotes: self.num_quotes,
            elapsed_ms,
        }
    }

    /// Fresh counters for a session of the given type, at the first quote.
    pub fn new(session_type: SessionType) -> (r: Stats)
        ensures
            r.wf(),
            r == Stats::fresh(session_type),
    {
        let num_quotes = match session_type {
            SessionType::MultiQuote(x) => Some(x as u32),
            _ => None,
        };
        Stats { num_chars_typed: 0, num_correct: 0, current_quote: 1, num_quotes, elapsed_ms: 0 }
    }

    /// Recomputes the counters from the target `quote_chars` and the typed
    /// `typed_chars`.
    pub fn update(
        &mut self,
        quote_chars: &[char],
        typed_chars: &[char],
        current_quote: u32,
        elapsed_ms: u64,
    )
        ensures
            final(self).wf(),
            final(self).num_correct == chars_correct(quote_chars@, typed_chars@),
            *final(self) == old(self).updated(quote_chars@, typed_chars@, current_quote, elapsed_ms),
    {
        let n: usize = if quote_chars.len() < typed_chars.len() {
            quote_chars.len()
        } else {
            typed_chars.len()
        };
        let mut correct: usize = 0;
        let mut i: usize = 0;
        while i < n
            invariant
                n <= quote_chars@.len(),
                n <= typed_chars@.len(),
                i <= n,
                correct == count_equal_prefix(quote_chars@, typed_chars@, i as nat),
                correct <= i,
            decreases n - i,
        {
            if quote_chars[i] == typed_chars[i] {
                correct = correct + 1;
            }
            i = i + 1;
        }
        self.num_correct = correct;
        self.num_chars_typed = typed_chars.len();
        self.current_quote = current_quote;
        self.elapsed_ms = elapsed_ms;
    }

    /// Typed characters that were not correct.
    pub fn mistakes(&self) -> (r: usize)
        requires
            self.wf(),
        ensures
            r == self.num_chars_typed - self.num_correct,
    {
        self.num_chars_typed - self.num_correct
    }

    /// Correct characters per minute; 0 while no time has passed.
    pub fn chars_per_minute(&self) -> (r: u128)
        ensures
            r == cpm_spec(self.num_correct as nat, self.elapsed_ms as nat),
    {
        if self.elapsed_ms == 0 {
            0
        } else {
            let correct: u128 = self.num_correct as u128;
            assert(60000 * correct <= 60000 * (u64::MAX as u128)) by (nonlinear_arith)
                requires
                    correct <= u64::MAX,
            ;
            60000 * correct / (self.elapsed_ms as u128)
        }
    }

    /// Words per minute, a word being five characters; 0 while no time has
    /// passed.
    pub fn words_per_minute(&self) -> (r: u128)
        ensures
            r == cpm_spec(self.num_correct as nat, self.elapsed_ms as nat) / 5,
    {
        self.chars_per_minute() / 5
    }

    /// The status line: `Time: <s>, Correct: <n>, CPM: <cpm>, Progress: <p>`.
    pub fn status_line(&self) -> (r: Vec<char>)
        ensures
            r@ == self.status_spec(),
    {
        let mut r: Vec<char> = Vec::new();
        push_str(&mut r, "Time: ");
        push_decimal(&mut r, (self.elapsed_ms / 1000) as u128);
        push_str(&mut r, ", Correct: ");
        push_decimal(&mut r, self.num_correct as u128);
        push_str(&mut r, ", CPM: ");
        push_decimal(&mut r, self.chars_per_minute());
        push_str(&mut r, ", Progress: ");
        push_decimal(&mut r, self.current_quote as u128);
        match self.num_quotes {
            Some(total) => {
                push_str(&mut r, "/");
                push_decimal(&mut r, total as u128);
            },
            None => {},
        }
        r
    }

    /// The report at the end of a session, each character with its color.
    pub fn report(&self) -> (r: Vec<ColoredChar>)
        requires
            self.wf(),
        ensures
            r@ == self.report_spec(),
    {
        let mut r: Vec<ColoredChar> = Vec::new();
        push_text(&mut r, "Total: ", Color::Reset);
        assert(r@ =~= tinted("Total: "@, Color::Reset));
        push_number(&mut r, self.num_chars_typed as u128, Color::Blue);
        push_text(&mut r, ", Correct: ", Color::Reset);
        push_number(&mut r, self.num_correct as u128, Color::Green);
        push_text(&mut r, ", Mistakes: ", Color::Reset);
        push_number(&mut r, self.mistakes() as u128, Color::Red);
        push_text(&mut r, "\nElapsed Time: ", Color::Reset);
        let mut secs: Vec<char> = Vec::new();
        push_seconds(&mut secs, self.elapsed_ms);
        assert(secs@ =~= seconds_text(self.elapsed_ms as nat));
        push_tinted(&mut r, &secs, Color::Reset);
        push_text(&mut r, "\nCPM: ", Color::Reset);
        push_number(&mut r, self.chars_per_minute(), Color::Blue);
        push_text(&mut r, "\nWPM: ", Color::Reset);
        push_number(&mut r, self.words_per_minute(), Color::Blue);
        push_text(&mut r, "\n", Color::Reset);
        r
    }
}

} // verus!
