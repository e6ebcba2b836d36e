use vstd::prelude::*;

use crate::evaluator::{class_seq, evaluate, ScoredGuess};
use crate::normalize::{ascii_seq, fold_text, normal_of, normalize};

verus! {

/// Length of the target word and of every accepted guess.
pub const WORD_LEN: usize = 5;

/// Which input events the session currently accepts.
#[derive(Clone, Copy, PartialEq, Eq, Structural, Debug)]
pub enum InputMode {
    Normal,
    Editing,
}

/// The in-progress edit buffer: its text and the cursor position.
#[derive(Debug)]
pub struct Input {
    pub text: String,
    pub cursor: usize,
}

impl Input {
    /// The buffer holds no text and the cursor is at the start.
    pub open spec fn is_cleared(self) -> bool {
        self.text@.len() == 0 && self.cursor == 0
    }

    /// A cleared buffer.
    pub fn empty() -> (r: Input)
        ensures
            r.is_cleared(),
    {
        Input { text: String::new(), cursor: 0 }
    }
}

/// An abstract edit/submit event, as the key-event decoder hands them
/// to the session.
#[derive(Debug)]
pub enum InputEvent {
    /// Enter editing mode with a cleared buffer.
    BeginEdit,
    /// End the session.
    Quit,
    /// The edit buffer now holds this text, with the cursor here.
    BufferChanged(String, usize),
    /// Leave editing mode, discarding the buffer.
    Cancel,
    /// Submit the buffer text as a guess.
    Submit,
}

/// The game session: the target word, the input mode, the in-progress
/// edit buffer, the ordered guess history, and the running flag.
pub struct App {
    /// Current value of the input box.
    pub input: Input,
    /// Current input mode.
    pub input_mode: InputMode,
    /// History of scored guesses, in submission order.
    pub guesses: Vec<ScoredGuess>,
    /// Answer.
    pub wordle: String,
    /// The game is running.
    pub running: bool,
}

/// The fixed placeholder target word.
pub open spec fn target_word() -> Seq<char> {
    seq!['a', 'c', 'a', 's', 'o']
}

/// The word source: a fixed placeholder, transliterated to plain
/// letters so the target is normalized.
pub fn get_random_word() -> (r: String)
    ensures
        r@ == target_word(),
        r@.len() == WORD_LEN,
{
    let w = fold_text("acaso");
    proof {
        reveal_strlit("acaso");
        assert(ascii_seq("acaso"@));
        assert(w@ =~= target_word());
    }
    w
}

/// Whether two words are the same sequence of characters.
pub fn compare_arrays(a: &str, b: &str) -> (r: bool)
    ensures
        r == (a@ == b@),
{
    let n = a.unicode_len();
    let m = b.unicode_len();
    if n != m {
        return false;
    }
    let mut i: usize = 0;
    while i < n
        invariant
            n == a@.len(),
            n == b@.len(),
            i <= n,
            forall|j: int| 0 <= j < i ==> a@[j] == b@[j],
        decreases n - i,
    {
        if a.get_char(i) != b.get_char(i) {
            return false;
        }
        i += 1;
    }
    proof {
        assert(a@ =~= b@);
    }
    true
}

/// The transition a `Normal`-mode session makes on one event.
pub open spec fn step_normal(pre: App, event: InputEvent, post: App) -> bool {
    match event {
        InputEvent::BeginEdit => {
            &&& post.input_mode == InputMode::Editing
            &&& post.input.is_cleared()
            &&& post.guesses == pre.guesses
            &&& post.wordle == pre.wordle
            &&& post.running == pre.running
        },
        InputEvent::Quit => {
            &&& !post.running
            &&& post.input == pre.input
            &&& post.input_mode == pre.input_mode
            &&& post.guesses == pre.guesses
            &&& post.wordle == pre.wordle
        },
        _ => post == pre,
    }
}

/// The change a submission makes: a wrong-length guess is rejected
/// silently and nothing changes; otherwise the scored guess is appended
/// to the history, the buffer is cleared, and the session stays in
/// `Editing` mode.
pub open spec fn submit_step(pre: App, post: App) -> bool {
    let norm = normal_of(pre.input.text@);
    if norm.len() == WORD_LEN {
        &&& post.guesses@.len() == pre.guesses@.len() + 1
        &&& post.guesses@.subrange(0, pre.guesses@.len() as int) == pre.guesses@
        &&& post.guesses@.last().text@ == norm
        &&& post.guesses@.last().classes@ == class_seq(pre.wordle@, norm)
        &&& post.input.is_cleared()
        &&& post.input_mode == InputMode::Editing
        &&& post.wordle == pre.wordle
        &&& post.running == pre.running
    } else {
        post == pre
    }
}

/// The transition an `Editing`-mode session makes on one event.
pub open spec fn step_editing(pre: App, event: InputEvent, post: App) -> bool {
    match event {
        InputEvent::BufferChanged(text, cursor) => {
            &&& post.input.text == text
            &&& post.input.cursor == cursor
            &&& post.input_mode == InputMode::Editing
            &&& post.guesses == pre.guesses
            &&& post.wordle == pre.wordle
            &&& post.running == pre.running
        },
        InputEvent::Cancel => {
            &&& post.input_mode == InputMode::Normal
            &&& post.input.is_cleared()
            &&& post.guesses == pre.guesses
            &&& post.wordle == pre.wordle
            &&& post.running == pre.running
        },
        InputEvent::Submit => submit_step(pre, post),
        _ => post == pre,
    }
}

/// The full transition relation of the session state machine.
pub open spec fn step(pre: App, event: InputEvent, post: App) -> bool {
    match pre.input_mode {
        InputMode::Normal => step_normal(pre, event, post),
        InputMode::Editing => step_editing(pre, event, post),
    }
}

impl App {
    /// Session invariant: the target word has exactly `WORD_LEN`
    /// letters, and every history entry is a guess of that length with
    /// one class per letter, scored against the target.
    pub open spec fn wf(self) -> bool {
        &&& self.wordle@.len() == WORD_LEN
        &&& forall|i: int|
            0 <= i < self.guesses@.len() ==> (#[trigger] self.guesses@[i]).wf_for(self.wordle@)
    }

    /// Constructs a new instance of [`App`].
    pub fn new() -> (r: App)
        ensures
            r.wf(),
            r.input_mode == InputMode::Normal,
            r.input.is_cleared(),
            r.guesses@.len() == 0,
            r.wordle@ == target_word(),
            r.running,
    {
        App::default()
    }

    /// Handles the tick event of the terminal.
    pub fn tick(&self) {
    }
}

impl Default for App {
    /// A fresh session: `Normal` mode, cleared buffer, empty history,
    /// the placeholder target word, running.
    fn default() -> (r: App)
        ensures
            r.wf(),
            r.input_mode == InputMode::Normal,
            r.input.is_cleared(),
            r.guesses@.len() == 0,
            r.wordle@ == target_word(),
            r.running,
    {
        App {
            input: Input::empty(),
            input_mode: InputMode::Normal,
            guesses: Vec::new(),
            wordle: get_random_word(),
            running: true,
        }
    }
}

/// Handles one input event and updates the state of [`App`].
///
/// The history is append-only: no event ever removes or reorders the
/// scored guesses already recorded.
pub fn handle_key_events(event: InputEvent, app: &mut App)
    requires
        old(app).wf(),
    ensures
        final(app).wf(),
        step(*old(app), event, *final(app)),
        final(app).wordle == old(app).wordle,
        old(app).guesses@.is_prefix_of(final(app).guesses@),
{
    match app.input_mode {
        InputMode::Normal => handle_key_events_normal(event, app),
        InputMode::Editing => handle_key_events_insert(event, app),
    }
}

fn handle_key_events_normal(event: InputEvent, app: &mut App)
    requires
        old(app).wf(),
        old(app).input_mode == InputMode::Normal,
    ensures
        final(app).wf(),
        step_normal(*old(app), event, *final(app)),
        final(app).wordle == old(app).wordle,
        old(app).guesses@.is_prefix_of(final(app).guesses@),
{
    match event {
        InputEvent::BeginEdit => {
            app.input_mode = InputMode::Editing;
            app.input = Input::empty();
        },
        InputEvent::Quit => {
            app.running = false;
        },
        _ => {},
    }
    proof {
        assert(old(app).guesses@.subrange(0, old(app).guesses@.len() as int) =~= old(
            app,
        ).guesses@);
    }
}

fn handle_key_events_insert(event: InputEvent, app: &mut App)
    requires
        old(app).wf(),
        old(app).input_mode == InputMode::Editing,
    ensures
        final(app).wf(),
        step_editing(*old(app), event, *final(app)),
        final(app).wordle == old(app).wordle,
        old(app).guesses@.is_prefix_of(final(app).guesses@),
{
    match event {
        InputEvent::BufferChanged(text, cursor) => {
            app.input = Input { text, cursor };
        },
        InputEvent::Cancel => {
            app.input_mode = InputMode::Normal;
            app.input = Input::empty();
        },
        InputEvent::Submit => {
            let normalized = normalize(app.input.text.as_str());
            if normalized.unicode_len() == WORD_LEN {
                let sg = evaluate(app.wordle.as_str(), normalized.as_str());
                app.guesses.push(sg);
                app.input = Input::empty();
                proof {
                    assert(app.guesses@.subrange(0, old(app).guesses@.len() as int) =~= old(
                        app,
                    ).guesses@);
                    assert forall|i: int|
                        0 <= i < app.guesses@.len() implies (#[trigger] app.guesses@[i]).wf_for(
                        app.wordle@,
                    ) by {
                        if i < old(app).guesses@.len() {
                            assert(old(app).guesses@[i].wf_for(old(app).wordle@));
                        }
                    }
                }
            }
        },
        _ => {},
    }
    proof {
        assert(old(app).guesses@.subrange(0, old(app).guesses@.len() as int) =~= old(
            app,
        ).guesses@);
    }
}

} // verus!
