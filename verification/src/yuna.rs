//! yuna: a terminal greeter. The application is a state machine: each
//! event (a timer tick, a terminal input, a message) changes what it shows
//! or stops it, and may ask for a message to be slid in letter by letter.
use vstd::prelude::*;
use crate::text::{chars_of, push_text};

verus! {

/// The bits of the Control modifier.
pub const CONTROL: u8 = 0b0000_0010;

/// The key of a key event, as far as the greeter tells keys apart.
#[derive(Debug, Clone, Copy, PartialEq, Eq, Structural)]
pub enum KeyCode {
    Esc,
    Tab,
    Enter,
    Char(char),
    /// Any other key.
    Other,
}

#[derive(Debug, Clone, Copy, PartialEq, Eq, Structural)]
pub enum KeyEventKind {
    Press,
    Repeat,
    Release,
}

/// A key event: the key, the modifier bits held with it, and its kind.
#[derive(Debug, Clone, Copy, PartialEq, Eq, Structural)]
pub struct KeyEvent {
    pub code: KeyCode,
    pub modifiers: u8,
    pub kind: KeyEventKind,
}

/// A terminal input.
#[derive(Debug, Clone, Copy, PartialEq, Eq, Structural)]
pub enum Event {
    Key(KeyEvent),
    Mouse,
    Resize(u16, u16),
    /// Focus changes and pastes.
    Other,
}

/// What reaches the application's loop.
pub enum AppEvent {
    /// The once-a-second timer.
    Tick,
    Input(Event),
    /// A text to show, from the slide-in.
    Message(String),
}

/// What the loop is asked to do after an event.
pub enum Effect {
    Nothing,
    /// Send this message to the screen one more letter at a time.
    SlideIn(String),
}

/// What `str::to_uppercase` gives for a text.
pub uninterp spec fn uppercase(s: Seq<char>) -> Seq<char>;

pub open spec fn is_ascii_text(s: Seq<char>) -> bool {
    forall|i: int| 0 <= i < s.len() ==> (#[trigger] s[i] as int) < 128
}

/// ASCII letters `a` to `z` made capitals; other characters kept.
pub open spec fn ascii_uppercase(s: Seq<char>) -> Seq<char> {
    Seq::new(
        s.len(),
        |i: int|
            if 'a' <= s[i] && s[i] <= 'z' {
                ((s[i] as int) - 32) as char
            } else {
                s[i]
            },
    )
}

/// Calls `str::to_uppercase`. Its Unicode mapping is named by `uppercase`;
/// of it only the ASCII part is stated, where `a` to `z` become `A` to `Z`
/// and every other ASCII character stays.
#[verifier::external_body]
fn to_uppercase(s: &str) -> (r: String)
    ensures
        r@ == uppercase(s@),
        is_ascii_text(s@) ==> r@ == ascii_uppercase(s@),
{
    s.to_uppercase()
}

/// The text that a key press leaves on the screen, whether the application
/// keeps running, and the message it asks to slide in, if any.
pub open spec fn key_step(key: KeyEvent, running: bool, display: Seq<char>) -> (bool, Seq<char>, Option<Seq<char>>) {
    match key.code {
        KeyCode::Esc => (false, display, None),
        KeyCode::Tab => (running, "Oops!!"@, None),
        KeyCode::Enter => (running, display, Some("Hello, Yuna!!"@)),
        KeyCode::Char(c) => if key.modifiers == CONTROL && (c == 'c' || c == 'C') {
            (false, display, None)
        } else if c == ' ' {
            (running, "Bye, Yuna!!"@, None)
        } else {
            (running, uppercase(seq![c]), None)
        },
        KeyCode::Other => (running, display, None),
    }
}

/// What an event does: only key presses count among the inputs, and a
/// message replaces the text on the screen.
pub open spec fn event_step(ev: AppEvent, running: bool, display: Seq<char>) -> (bool, Seq<char>, Option<Seq<char>>) {
    match ev {
        AppEvent::Tick => (running, display, None),
        AppEvent::Input(Event::Key(key)) => if key.kind == KeyEventKind::Press {
            key_step(key, running, display)
        } else {
            (running, display, None)
        },
        AppEvent::Input(_) => (running, display, None),
        AppEvent::Message(m) => (running, m@, None),
    }
}

/// The character a key press types on the screen: any character but a
/// space, and but `c` or `C` with Control alone.
pub open spec fn typed_char(key: KeyEvent) -> Option<char> {
    match key.code {
        KeyCode::Char(c) => if !(key.modifiers == CONTROL && (c == 'c' || c == 'C')) && c != ' ' {
            Some(c)
        } else {
            None
        },
        _ => None,
    }
}

/// After a press of a key that types an ASCII character, the screen shows
/// its ASCII capital.
pub open spec fn shows_ascii_capital(key: KeyEvent, display: Seq<char>) -> bool {
    match typed_char(key) {
        Some(c) => is_ascii_text(seq![c]) ==> display == ascii_uppercase(seq![c]),
        None => true,
    }
}

/// The key of a press among the terminal inputs.
pub open spec fn pressed_key(ev: Event) -> Option<KeyEvent> {
    match ev {
        Event::Key(k) => if k.kind == KeyEventKind::Press {
            Some(k)
        } else {
            None
        },
        _ => None,
    }
}

pub open spec fn effect_message(e: Effect) -> Option<Seq<char>> {
    match e {
        Effect::Nothing => None,
        Effect::SlideIn(m) => Some(m@),
    }
}

/// The greeter's state: whether it runs, and the text it shows.
pub struct App {
    running: bool,
    display: String,
}

impl App {
    pub closed spec fn spec_running(self) -> bool {
        self.running
    }

    pub closed spec fn spec_display(self) -> Seq<char> {
        self.display@
    }

    /// A running greeter that shows nothing yet.
    pub fn new() -> (r: App)
        ensures
            r.spec_running(),
            r.spec_display() == Seq::<char>::empty(),
    {
        App { running: true, display: String::new() }
    }

    pub fn is_running(&self) -> (r: bool)
        ensures
            r == self.spec_running(),
    {
        self.running
    }

    /// The text on the screen, under the title lines.
    pub fn display(&self) -> (r: &String)
        ensures
            r@ == self.spec_display(),
    {
        &self.display
    }

    /// The three lines drawn on the screen.
    pub fn banner_lines(&self) -> (r: Vec<String>)
        ensures
            r@.len() == 3,
            r@[0]@ == "Created For Yuna!"@,
            r@[1]@ == "~~~~~~~~~~~~~~~~~"@,
            r@[2]@ == self.spec_display(),
    {
        let mut title = String::new();
        push_text(&mut title, "Created For Yuna!");
        let mut rule = String::new();
        push_text(&mut rule, "~~~~~~~~~~~~~~~~~");
        let mut v: Vec<String> = Vec::new();
        v.push(title);
        v.push(rule);
        v.push(self.display.clone());
        v
    }

    /// Handles one event from the loop.
    pub fn handle_events(&mut self, ev: AppEvent) -> (r: Effect)
        ensures
            (final(self).spec_running(), final(self).spec_display(), effect_message(r))
                == event_step(ev, old(self).spec_running(), old(self).spec_display()),
            ev matches AppEvent::Input(e) ==> (pressed_key(e) matches Some(k) ==> shows_ascii_capital(
                k,
                final(self).spec_display(),
            )),
    {
        match ev {
            AppEvent::Tick => Effect::Nothing,
            AppEvent::Input(e) => self.handle_crossterm_events(e),
            AppEvent::Message(msg) => {
                self.display = msg;
                Effect::Nothing
            },
        }
    }

    /// Handles a terminal input: key presses only.
    fn handle_crossterm_events(&mut self, ev: Event) -> (r: Effect)
        ensures
            (final(self).spec_running(), final(self).spec_display(), effect_message(r))
                == event_step(AppEvent::Input(ev), old(self).spec_running(), old(self).spec_display()),
            pressed_key(ev) matches Some(k) ==> shows_ascii_capital(k, final(self).spec_display()),
    {
        match ev {
            Event::Key(key) => {
                if key.kind == KeyEventKind::Press {
                    self.on_key_event(key)
                } else {
                    Effect::Nothing
                }
            },
            Event::Mouse => Effect::Nothing,
            Event::Resize(_, _) => Effect::Nothing,
            Event::Other => Effect::Nothing,
        }
    }

    /// Handles a key press.
    fn on_key_event(&mut self, key: KeyEvent) -> (r: Effect)
        ensures
            (final(self).spec_running(), final(self).spec_display(), effect_message(r))
                == key_step(key, old(self).spec_running(), old(self).spec_display()),
            shows_ascii_capital(key, final(self).spec_display()),
    {
        match key.code {
            KeyCode::Esc => {
                self.quit();
                Effect::Nothing
            },
            KeyCode::Tab => {
                self.flush("Oops!!");
                Effect::Nothing
            },
            KeyCode::Enter => {
                let mut m = String::new();
                push_text(&mut m, "Hello, Yuna!!");
                Effect::SlideIn(m)
            },
            KeyCode::Char(c) => {
                if key.modifiers == CONTROL && (c == 'c' || c == 'C') {
                    self.quit();
                } else if c == ' ' {
                    self.flush("Bye, Yuna!!");
                } else {
                    let mut s = String::new();
                    s.push(c);
                    assert(s@ =~= seq![c]);
                    let up = to_uppercase(s.as_str());
                    self.flush(up.as_str());
                }
                Effect::Nothing
            },
            KeyCode::Other => Effect::Nothing,
        }
    }

    /// Shows `message`.
    fn flush(&mut self, message: &str)
        ensures
            final(self).spec_running() == old(self).spec_running(),
            final(self).spec_display() == message@,
    {
        let mut s = String::new();
        push_text(&mut s, message);
        self.display = s;
    }

    /// Stops the loop.
    fn quit(&mut self)
        ensures
            !final(self).spec_running(),
            final(self).spec_display() == old(self).spec_display(),
    {
        self.running = false;
    }
}

/// The texts that slide a message in: its first letter, then the first
/// two, and so on to the whole message.
pub fn slide_in_frames(message: &str) -> (r: Vec<String>)
    ensures
        r@.len() == message@.len(),
        forall|i: int| 0 <= i < r@.len() ==> (#[trigger] r@[i])@ == message@.take(i + 1),
{
    let cs = chars_of(message);
    let mut frames: Vec<String> = Vec::new();
    let mut shown = String::new();
    let mut i: usize = 0;
    while i < cs.len()
        invariant
            cs@ == message@,
            i <= cs.len(),
            frames@.len() == i,
            shown@ == cs@.take(i as int),
            forall|j: int| 0 <= j < i ==> (#[trigger] frames@[j])@ == cs@.take(j + 1),
        decreases cs.len() - i,
    {
        shown.push(cs[i]);
        assert(shown@ =~= cs@.take(i as int + 1));
        frames.push(shown.clone());
        i += 1;
    }
    frames
}

/// Law: each slide-in frame adds one letter to the one before, and the
/// last frame is the whole message.
pub proof fn lemma_slide_in_grows(message: Seq<char>, frames: Seq<Seq<char>>)
    requires
        frames.len() == message.len(),
        forall|i: int| 0 <= i < frames.len() ==> #[trigger] frames[i] == message.take(i + 1),
    ensures
        forall|i: int| 0 < i < frames.len() ==> #[trigger] frames[i] == frames[i - 1].push(message[i]),
        frames.len() > 0 ==> frames.last() == message,
{
    assert forall|i: int| 0 < i < frames.len() implies #[trigger] frames[i] == frames[i - 1].push(message[i]) by {
        assert(message.take(i + 1) =~= message.take(i).push(message[i]));
    }
    if frames.len() > 0 {
        assert(message.take(frames.len() as int) =~= message);
    }
}

/// Law: Escape always stops the greeter, and leaves the text on the screen.
pub proof fn lemma_escape_quits(key: KeyEvent, running: bool, display: Seq<char>)
    requires
        key.code == KeyCode::Esc,
        key.kind == KeyEventKind::Press,
    ensures
        event_step(AppEvent::Input(Event::Key(key)), running, display) == (false, display, None::<Seq<char>>),
{
}

/// Law: a message replaces whatever the screen showed, and neither stops
/// the greeter nor asks for anything.
pub proof fn lemma_message_replaces_display(m: String, running: bool, display: Seq<char>)
    ensures
        event_step(AppEvent::Message(m), running, display) == (running, m@, None::<Seq<char>>),
{
}

/// Law: what each kind of key press does, whatever was shown: Tab shows
/// `Oops!!`, Space shows `Bye, Yuna!!`, Enter keeps the text and asks to
/// slide in `Hello, Yuna!!`, Control-C quits; a tick or a key release
/// changes nothing.
pub proof fn lemma_key_presses(mods: u8, running: bool, display: Seq<char>)
    ensures
        ({
            let k = KeyEvent { code: KeyCode::Tab, modifiers: mods, kind: KeyEventKind::Press };
            event_step(AppEvent::Input(Event::Key(k)), running, display) == (running, "Oops!!"@, None::<Seq<char>>)
        }),
        ({
            let k = KeyEvent { code: KeyCode::Char(' '), modifiers: mods, kind: KeyEventKind::Press };
            event_step(AppEvent::Input(Event::Key(k)), running, display) == (running, "Bye, Yuna!!"@, None::<Seq<char>>)
        }),
        ({
            let k = KeyEvent { code: KeyCode::Enter, modifiers: mods, kind: KeyEventKind::Press };
            event_step(AppEvent::Input(Event::Key(k)), running, display) == (running, display, Some("Hello, Yuna!!"@))
        }),
        ({
            let k = KeyEvent { code: KeyCode::Char('c'), modifiers: CONTROL, kind: KeyEventKind::Press };
            event_step(AppEvent::Input(Event::Key(k)), running, display) == (false, display, None::<Seq<char>>)
        }),
        event_step(AppEvent::Tick, running, display) == (running, display, None::<Seq<char>>),
        ({
            let k = KeyEvent { code: KeyCode::Tab, modifiers: mods, kind: KeyEventKind::Release };
            event_step(AppEvent::Input(Event::Key(k)), running, display) == (running, display, None::<Seq<char>>)
        }),
{
}

} // verus!
