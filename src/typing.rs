//! The typing session state machine.
use vstd::prelude::*;
use crate::quote::Quote;
use crate::render::{DrawOp, keystroke_spec, render, render_keystroke, render_spec};
use crate::stats::Stats;

verus! {

/// The type of typing test.
#[derive(Clone, Copy, Debug, PartialEq, Eq, Structural)]
pub enum SessionType {
    /// One quote.
    SingleQuote,
    /// A number of quotes chosen by the user.
    MultiQuote(u16),
    /// Lasts for a number of seconds.
    Time(u16),
    /// Goes on until the user stops it.
    Zen,
}

/// Whether statistics are shown while typing.
#[derive(Clone, Copy, Debug, PartialEq, Eq, Structural)]
pub enum SessionOptions {
    StatsOn,
    StatsOff,
}

/// Where a session stands after an input event.
#[derive(Clone, Copy, Debug, PartialEq, Eq, Structural)]
pub enum ControlFlow {
    /// The user interrupted the session.
    Exit,
    /// Typing goes on.
    Normal,
    /// The session is over.
    Finished,
    /// The next quote should be fetched now.
    RequestsQuote,
    /// The next quote is being fetched.
    WaitingForQuote,
}

/// An input event, as far as the session cares.
#[derive(Clone, Copy, Debug, PartialEq, Eq, Structural)]
pub enum KeyInput {
    /// A character key was pressed.
    Char(char),
    /// The enter key was pressed.
    Enter,
    /// The backspace key was pressed.
    Backspace,
    /// The interrupt combination (control and c) was pressed.
    Interrupt,
    /// A key was released.
    Release,
    /// Any other key, or no key: the clock moved on.
    Other,
}

/// Untyped characters left in the target at which the next quote is asked for.
pub const CHARS_TILL_NEXT_QUOTE: usize = 15;

/// Whether the session type wants another quote after `quote_num` quotes.
pub open spec fn wants_another_quote(
    session_type: SessionType,
    quote_num: u32,
    elapsed_ms: u64,
) -> bool {
    match session_type {
        SessionType::SingleQuote => false,
        SessionType::MultiQuote(x) => quote_num < x as u32,
        SessionType::Zen => true,
        SessionType::Time(x) => elapsed_ms < x as u64 * 1000,
    }
}

/// Whether the next quote is due: one is wanted and no more than
/// `CHARS_TILL_NEXT_QUOTE` target characters are left untyped.
pub open spec fn requests_spec(
    session_type: SessionType,
    quote_num: u32,
    quote_len: nat,
    typed_len: nat,
    elapsed_ms: u64,
) -> bool {
    wants_another_quote(session_type, quote_num, elapsed_ms) && quote_len - typed_len
        <= CHARS_TILL_NEXT_QUOTE
}

/// Whether the finishing rule holds: a timed session when its time is up, a
/// multi-quote session when all of its quotes are there and typed, any other
/// when the whole target is typed.
pub open spec fn finished_spec(
    session_type: SessionType,
    quote_num: u32,
    quote_len: nat,
    typed_len: nat,
    elapsed_ms: u64,
) -> bool {
    match session_type {
        SessionType::Time(x) => elapsed_ms >= x as u64 * 1000,
        SessionType::MultiQuote(x) => quote_num >= x as u32 && typed_len == quote_len,
        _ => typed_len == quote_len,
    }
}

/// The typed buffer after `key`: a character (a line break for enter) is
/// appended while target characters are left, backspace removes the last.
pub open spec fn edited(typed: Seq<char>, quote_len: nat, key: KeyInput) -> Seq<char> {
    match key {
        KeyInput::Char(c) => if typed.len() < quote_len {
            typed.push(c)
        } else {
            typed
        },
        KeyInput::Enter => if typed.len() < quote_len {
            typed.push(crate::cursor::LINE_BREAK)
        } else {
            typed
        },
        KeyInput::Backspace => if typed.len() > 0 {
            typed.drop_last()
        } else {
            typed
        },
        _ => typed,
    }
}

/// The rules by session type: a single-quote session never asks for another
/// quote and finishes exactly when its whole target is typed; a multi-quote
/// session of `n` quotes asks for no quote once it holds `n`, and finishes
/// exactly when it holds `n` and all of its target is typed; a timed session
/// of `secs` seconds finishes once that time has passed, however much is left
/// untyped.
pub proof fn lemma_session_type_rules(
    quote_num: u32,
    quote_len: nat,
    typed_len: nat,
    elapsed_ms: u64,
    n: u16,
    secs: u16,
)
    ensures
        !requests_spec(SessionType::SingleQuote, quote_num, quote_len, typed_len, elapsed_ms),
        finished_spec(SessionType::SingleQuote, quote_num, quote_len, typed_len, elapsed_ms)
            <==> typed_len == quote_len,
        quote_num >= n ==> !requests_spec(
            SessionType::MultiQuote(n),
            quote_num,
            quote_len,
            typed_len,
            elapsed_ms,
        ),
        finished_spec(SessionType::MultiQuote(n), quote_num, quote_len, typed_len, elapsed_ms)
            <==> quote_num >= n && typed_len == quote_len,
        elapsed_ms >= secs as u64 * 1000 ==> finished_spec(
            SessionType::Time(secs),
            quote_num,
            quote_len,
            typed_len,
            elapsed_ms,
        ),
{
}

/// A session that is finished or interrupted stays so, whatever the time.
pub proof fn lemma_over_is_final(state: TypingState, elapsed_ms: u64)
    requires
        state.is_over(),
    ensures
        state.next_flow(elapsed_ms) == state.control_flow,
{
}

/// The state of one typing session.
pub struct TypingState {
    pub session_type: SessionType,
    pub quote_num: u32,
    pub quote_chars: Vec<char>,
    pub typed_chars: Vec<char>,
    pub control_flow: ControlFlow,
    pub stats: Stats,
}

impl TypingState {
    /// No more is typed than the target holds.
    pub open spec fn wf(&self) -> bool {
        &&& self.typed_chars@.len() <= self.quote_chars@.len()
        &&& self.stats.wf()
    }

    /// The control flow after re-evaluating the rules at `elapsed_ms`. A
    /// finished or interrupted session stays so; otherwise the finishing
    /// rule ends the session from any state, and the next quote is requested
    /// from the normal state when it is due.
    pub open spec fn next_flow(&self, elapsed_ms: u64) -> ControlFlow {
        if self.is_over() {
            self.control_flow
        } else if finished_spec(
            self.session_type,
            self.quote_num,
            self.quote_chars@.len(),
            self.typed_chars@.len(),
            elapsed_ms,
        ) {
            ControlFlow::Finished
        } else if self.control_flow == ControlFlow::Normal && requests_spec(
            self.session_type,
            self.quote_num,
            self.quote_chars@.len(),
            self.typed_chars@.len(),
            elapsed_ms,
        ) {
            ControlFlow::RequestsQuote
        } else {
            self.control_flow
        }
    }

    /// Whether the session has come to an end, by finishing or by interrupt.
    pub open spec fn is_over(&self) -> bool {
        self.control_flow == ControlFlow::Finished || self.control_flow == ControlFlow::Exit
    }

    /// A session of the given type on its first quote, nothing typed.
    pub fn new(session_type: SessionType, quote: Quote) -> (r: TypingState)
        ensures
            r.wf(),
            r.session_type == session_type,
            r.quote_num == 1,
            r.quote_chars@ == quote.content@,
            r.typed_chars@.len() == 0,
            r.control_flow == ControlFlow::Normal,
            r.stats == Stats::fresh(session_type),
    {
        TypingState {
            session_type,
            quote_num: 1,
            quote_chars: quote.content_chars(),
            typed_chars: Vec::new(),
            control_flow: ControlFlow::Normal,
            stats: Stats::new(session_type),
        }
    }

    /// Re-evaluates the rules as `next_flow` states them: a finished or
    /// interrupted session stays so, the finishing rule ends the session,
    /// and the next quote is requested from the normal state when it is due.
    pub fn update_control_flow(&mut self, elapsed_ms: u64) -> (r: ControlFlow)
        requires
            old(self).wf(),
        ensures
            final(self).wf(),
            r == old(self).next_flow(elapsed_ms),
            *final(self) == (TypingState { control_flow: r, ..*old(self) }),
    {
        if self.control_flow == ControlFlow::Finished || self.control_flow == ControlFlow::Exit {
            return self.control_flow;
        }
        if self.is_finished(elapsed_ms) {
            self.control_flow = ControlFlow::Finished;
        } else if self.control_flow == ControlFlow::Normal && self.requests_quote(elapsed_ms) {
            self.control_flow = ControlFlow::RequestsQuote;
        }
        self.control_flow
    }

    /// Whether the finishing rule holds at `elapsed_ms`.
    pub fn is_finished(&self, elapsed_ms: u64) -> (r: bool)
        ensures
            r == finished_spec(
                self.session_type,
                self.quote_num,
                self.quote_chars@.len(),
                self.typed_chars@.len(),
                elapsed_ms,
            ),
    {
        match self.session_type {
            SessionType::Time(x) => elapsed_ms >= x as u64 * 1000,
            SessionType::MultiQuote(x) => self.quote_num >= x as u32
                && self.typed_chars.len() == self.quote_chars.len(),
            _ => self.typed_chars.len() == self.quote_chars.len(),
        }
    }

    /// The current control flow.
    pub fn get_control_flow(&self) -> (r: ControlFlow)
        ensures
            r == self.control_flow,
    {
        self.control_flow
    }

    /// The full redraw of this session on a grid of the given size, with
    /// the status line.
    pub fn render(&self, num_cols: u16, num_rows: u16) -> (r: Vec<DrawOp>)
        requires
            self.wf(),
            num_cols > 0,
            num_rows > 0,
        ensures
            r@ == render_spec(
                self.quote_chars@,
                self.typed_chars@,
                Some(self.stats),
                num_cols,
                num_rows,
            ),
    {
        render(
            self.quote_chars.as_slice(),
            self.typed_chars.as_slice(),
            Some(self.stats),
            num_cols,
            num_rows,
        )
    }

    /// The screen update after an event, `prev_len` being the typed length
    /// before it: only the boundary cell where a single step reaches the new
    /// cursor, else a full redraw. `full` asks for a full redraw, as after a
    /// resize or a new quote.
    pub fn redraw(
        &self,
        prev_len: usize,
        full: bool,
        num_cols: u16,
        num_rows: u16,
    ) -> (r: Vec<DrawOp>)
        requires
            self.wf(),
            num_cols > 0,
            num_rows > 0,
        ensures
            ({
                let step = keystroke_spec(
                    self.quote_chars@,
                    self.typed_chars@,
                    Some(self.stats),
                    prev_len as nat,
                    num_cols,
                    num_rows,
                );
                r@ == if !full && step is Some {
                    step->Some_0
                } else {
                    render_spec(
                        self.quote_chars@,
                        self.typed_chars@,
                        Some(self.stats),
                        num_cols,
                        num_rows,
                    )
                }
            }),
    {
        if !full {
            match render_keystroke(
                self.quote_chars.as_slice(),
                self.typed_chars.as_slice(),
                Some(self.stats),
                prev_len,
                num_cols,
                num_rows,
            ) {
                Some(ops) => {
                    return ops;
                },
                None => {},
            }
        }
        self.render(num_cols, num_rows)
    }

    /// Handles one input event at `elapsed_ms`. A finished or interrupted
    /// session and key releases are left alone; the interrupt ends the
    /// session at once; any other event edits the typed buffer, recomputes
    /// the statistics and re-evaluates the rules.
    pub fn on_key_event(&mut self, key: KeyInput, elapsed_ms: u64) -> (r: ControlFlow)
        requires
            old(self).wf(),
        ensures
            final(self).wf(),
            r == final(self).control_flow,
            old(self).is_over() || key == KeyInput::Release ==> *final(self) == *old(self),
            !old(self).is_over() && key == KeyInput::Interrupt ==> *final(self) == (TypingState {
                control_flow: ControlFlow::Exit,
                ..*old(self)
            }),
            !old(self).is_over() && key != KeyInput::Release && key != KeyInput::Interrupt ==> {
                let typed = edited(old(self).typed_chars@, old(self).quote_chars@.len(), key);
                &&& final(self).typed_chars@ == typed
                &&& final(self).quote_chars@ == old(self).quote_chars@
                &&& final(self).session_type == old(self).session_type
                &&& final(self).quote_num == old(self).quote_num
                &&& final(self).stats == old(self).stats.updated(
                    old(self).quote_chars@,
                    typed,
                    old(self).quote_num,
                    elapsed_ms,
                )
                &&& final(self).control_flow == (TypingState {
                    typed_chars: final(self).typed_chars,
                    stats: final(self).stats,
                    ..*old(self)
                }).next_flow(elapsed_ms)
            },
    {
        if self.control_flow == ControlFlow::Finished || self.control_flow == ControlFlow::Exit {
            return self.control_flow;
        }
        match key {
            KeyInput::Release => {
                return self.control_flow;
            },
            KeyInput::Interrupt => {
                self.control_flow = ControlFlow::Exit;
                return self.control_flow;
            },
            KeyInput::Char(c) => {
                if self.typed_chars.len() < self.quote_chars.len() {
                    self.typed_chars.push(c);
                }
            },
            KeyInput::Enter => {
                if self.typed_chars.len() < self.quote_chars.len() {
                    self.typed_chars.push(crate::cursor::LINE_BREAK);
                }
            },
            KeyInput::Backspace => {
                self.typed_chars.pop();
            },
            KeyInput::Other => {},
        }
        self.stats.update(
            self.quote_chars.as_slice(),
            self.typed_chars.as_slice(),
            self.quote_num,
            elapsed_ms,
        );
        self.update_control_flow(elapsed_ms)
    }

    /// Appends the next quote to the target, after a separating space, and
    /// returns to the normal state.
    pub fn add_quote(&mut self, quote: Quote)
        requires
            old(self).wf(),
            old(self).quote_num < u32::MAX,
        ensures
            final(self).wf(),
            final(self).quote_chars@ == old(self).quote_chars@.push(' ') + quote.content@,
            final(self).typed_chars@ == old(self).typed_chars@,
            final(self).quote_num == old(self).quote_num + 1,
            final(self).control_flow == ControlFlow::Normal,
            final(self).session_type == old(self).session_type,
            final(self).stats == old(self).stats,
    {
        self.control_flow = ControlFlow::Normal;
        self.quote_num = self.quote_num + 1;
        self.quote_chars.push(' ');
        let more = quote.content_chars();
        let ghost start = self.quote_chars@;
        let mut i: usize = 0;
        while i < more.len()
            invariant
                i <= more@.len(),
                self.quote_chars@ == start + more@.take(i as int),
                self.typed_chars@ == old(self).typed_chars@,
                start.len() > old(self).typed_chars@.len(),
                self.quote_num == old(self).quote_num + 1,
                self.control_flow == ControlFlow::Normal,
                self.session_type == old(self).session_type,
                self.stats == old(self).stats,
            decreases more@.len() - i,
        {
            self.quote_chars.push(more[i]);
            proof {
                assert(more@.take(i + 1) =~= more@.take(i as int).push(more@[i as int]));
            }
            i = i + 1;
        }
        proof {
            assert(more@.take(more@.len() as int) =~= more@);
        }
    }

    /// Whether the next quote is due at `elapsed_ms`.
    pub fn requests_quote(&self, elapsed_ms: u64) -> (r: bool)
        requires
            self.wf(),
        ensures
            r == requests_spec(
                self.session_type,
                self.quote_num,
                self.quote_chars@.len(),
                self.typed_chars@.len(),
                elapsed_ms,
            ),
    {
        let does_request = match self.session_type {
            SessionType::SingleQuote => false,
            SessionType::MultiQuote(x) => self.quote_num < x as u32,
            SessionType::Zen => true,
            SessionType::Time(x) => elapsed_ms < x as u64 * 1000,
        };
        let chars_left: usize = self.quote_chars.len() - self.typed_chars.len();
        does_request && chars_left <= CHARS_TILL_NEXT_QUOTE
    }

    /// Records that the next quote is being fetched.
    pub fn getting_next_quote(&mut self)
        ensures
            *final(self) == (TypingState {
                control_flow: ControlFlow::WaitingForQuote,
                ..*old(self)
            }),
    {
        self.control_flow = ControlFlow::WaitingForQuote;
    }
}


/// What the mode menu does with a key.
#[derive(Clone, Copy, Debug, PartialEq, Eq, Structural)]
pub enum MenuChoice {
    /// Start a session of this type.
    Start(SessionType),
    /// Ask for a number of quotes, then start a multi-quote session.
    AskCount,
    /// Ask for a number of seconds, then start a timed session.
    AskSeconds,
    /// Leave the program.
    Quit,
    /// Not a menu key: show the menu again.
    Ignore,
}

/// The menu's answer to `key`: enter repeats the `previous` session type,
/// `s` a single quote, `z` zen mode, `m` and `t` ask for a number, and `q`,
/// `c` or the interrupt leave.
pub open spec fn menu_spec(key: KeyInput, previous: SessionType) -> MenuChoice {
    match key {
        KeyInput::Enter => MenuChoice::Start(previous),
        KeyInput::Interrupt => MenuChoice::Quit,
        KeyInput::Char(c) => if c == 'q' || c == 'c' {
            MenuChoice::Quit
        } else if c == 's' {
            MenuChoice::Start(SessionType::SingleQuote)
        } else if c == 'z' {
            MenuChoice::Start(SessionType::Zen)
        } else if c == 'm' {
            MenuChoice::AskCount
        } else if c == 't' {
            MenuChoice::AskSeconds
        } else {
            MenuChoice::Ignore
        },
        _ => MenuChoice::Ignore,
    }
}

/// The menu's answer to `key`, given the session type of the last session.
pub fn session_choice(key: KeyInput, previous: SessionType) -> (r: MenuChoice)
    ensures
        r == menu_spec(key, previous),
{
    match key {
        KeyInput::Enter => MenuChoice::Start(previous),
        KeyInput::Interrupt => MenuChoice::Quit,
        KeyInput::Char(c) => {
            if c == 'q' || c == 'c' {
                MenuChoice::Quit
            } else if c == 's' {
                MenuChoice::Start(SessionType::SingleQuote)
            } else if c == 'z' {
                MenuChoice::Start(SessionType::Zen)
            } else if c == 'm' {
                MenuChoice::AskCount
            } else if c == 't' {
                MenuChoice::AskSeconds
            } else {
                MenuChoice::Ignore
            }
        },
        _ => MenuChoice::Ignore,
    }
}

} // verus!
