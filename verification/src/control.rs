//! Tuning state and the keyboard-driven retuning state machine.

use vstd::prelude::*;

verus! {

pub const DEFAULT_N_BUFFERS: u32 = 16;

pub const DEFAULT_N_SAMPLES: u32 = 32768;

pub const DEFAULT_CENTER_FREQUENCY: u32 = 100_259_009;

pub const DEFAULT_BANDWIDTH: u32 = 200_000;

pub const DEFAULT_SAMPLE_RATE: u32 = 2_560_000;

pub const RTLSDR_MAX_BANDWIDTH: u32 = 2_400_000;

/// Oscillator correction written to the device at start-up, in parts per million.
pub const DEFAULT_PPM: i32 = -2;

/// Lower edge of the displayed amplitude window, in thousandths of a decibel.
pub const DISPLAY_MIN_MILLI_DB: i32 = -75_000;

/// Upper edge of the displayed amplitude window, in thousandths of a decibel.
pub const DISPLAY_MAX_MILLI_DB: i32 = -25_000;

/// Which field, if any, the user is editing.
#[derive(Clone, Copy, Debug, PartialEq, Eq, Structural)]
pub enum InputMode {
    Normal,
    CenterFreq,
    SampleRate,
    Bandwidth,
}

/// The receiver's tuning, all in hertz.
#[derive(Clone, Copy, Debug, PartialEq, Eq, Structural)]
pub struct TuningState {
    pub center_frequency: u32,
    pub sample_rate: u32,
    pub bandwidth: u32,
}

/// One keyboard event, as the state machine sees it.
#[derive(Clone, Copy, Debug, PartialEq, Eq)]
pub enum KeyInput {
    Char(char),
    Enter,
    Esc,
    Backspace,
    Other,
}

/// A parameter write that the owner of the device has to perform.
#[derive(Clone, Copy, Debug, PartialEq, Eq)]
pub enum DeviceCommand {
    EnableAgc,
    SetPpm(i32),
    SetCenterFreq(u32),
    SetBandwidth(u32),
    SetSampleRate(u32),
}

/// What the caller has to do after a key was handled.
#[derive(Clone, Copy, Debug, PartialEq, Eq)]
pub enum UiAction {
    /// Nothing beyond redrawing.
    Idle,
    /// Leave the event loop.
    Quit,
    /// The edit was committed: write the parameter to the device.
    Apply(DeviceCommand),
    /// The edit was not an unsigned number and was thrown away.
    Rejected,
}

/// The input box and the current input mode.
pub struct App {
    /// Characters typed so far.
    pub input: Vec<char>,
    /// Current input mode.
    pub input_mode: InputMode,
}

/// Mathematical content of an [`App`].
pub ghost struct AppModel {
    pub input: Seq<char>,
    pub mode: InputMode,
}

/// Everything one key press decides.
pub ghost struct Step {
    pub app: AppModel,
    pub tuning: TuningState,
    pub action: UiAction,
}

pub open spec fn is_digit(c: char) -> bool {
    48 <= c as u32 && c as u32 <= 57
}

pub open spec fn digit_value(c: char) -> int {
    c as u32 as int - 48
}

/// The number that a sequence of decimal digits writes, most significant first.
pub open spec fn digits_value(s: Seq<char>) -> int
    decreases s.len(),
{
    if s.len() == 0 {
        0
    } else {
        digits_value(s.drop_last()) * 10 + digit_value(s.last())
    }
}

pub open spec fn all_digits(s: Seq<char>) -> bool {
    forall|i: int| 0 <= i < s.len() ==> is_digit(#[trigger] s[i])
}

/// The text without one leading plus sign.
pub open spec fn unsigned_part(s: Seq<char>) -> Seq<char> {
    if s.len() > 0 && s[0] == '+' {
        s.skip(1)
    } else {
        s
    }
}

/// The unsigned 32-bit number that a text writes in decimal, if it writes one:
/// an optional plus sign, then at least one digit, nothing else, and a value
/// that fits.
pub open spec fn parsed_u32(s: Seq<char>) -> Option<u32> {
    let d = unsigned_part(s);
    if d.len() > 0 && all_digits(d) && digits_value(d) <= u32::MAX {
        Some(digits_value(d) as u32)
    } else {
        None
    }
}

pub proof fn lemma_digits_value_nonnegative(s: Seq<char>)
    requires
        all_digits(s),
    ensures
        digits_value(s) >= 0,
    decreases s.len(),
{
    if s.len() > 0 {
        assert(is_digit(s[s.len() - 1]));
        assert forall|i: int| 0 <= i < s.drop_last().len() implies is_digit(
            #[trigger] s.drop_last()[i],
        ) by {
            assert(s.drop_last()[i] == s[i]);
        }
        lemma_digits_value_nonnegative(s.drop_last());
    }
}

/// A prefix of a digit string never writes a larger number than the whole.
pub proof fn lemma_prefix_value_le(s: Seq<char>, k: int)
    requires
        all_digits(s),
        0 <= k <= s.len(),
    ensures
        digits_value(s.take(k)) <= digits_value(s),
    decreases s.len(),
{
    if k == s.len() {
        assert(s.take(k) =~= s);
    } else {
        let t = s.drop_last();
        assert(is_digit(s[s.len() - 1]));
        assert forall|i: int| 0 <= i < t.len() implies is_digit(#[trigger] t[i]) by {
            assert(t[i] == s[i]);
        }
        assert(s.take(k) =~= t.take(k));
        lemma_prefix_value_le(t, k);
        lemma_digits_value_nonnegative(t);
    }
}

/// Reads an unsigned 32-bit number in decimal.
pub fn parse_u32(text: &Vec<char>) -> (r: Option<u32>)
    ensures
        r == parsed_u32(text@),
{
    let n: usize = text.len();
    let start: usize = if n > 0 && text[0] == '+' {
        1
    } else {
        0
    };
    if start == n {
        return None;
    }
    let ghost d = unsigned_part(text@);
    assert(d =~= text@.skip(start as int));
    let mut acc: u64 = 0;
    let mut i: usize = start;
    while i < n
        invariant
            start <= i <= n,
            n == text.len(),
            d == unsigned_part(text@),
            d == text@.skip(start as int),
            d.len() == n - start,
            all_digits(d.take(i - start)),
            acc == digits_value(d.take(i - start)),
            acc <= u32::MAX,
        decreases n - i,
    {
        let c: char = text[i];
        let v: u32 = c as u32;
        let ghost k = i - start;
        assert(d[k] == c);
        if v < 48 || v > 57 {
            assert(!is_digit(d[k]));
            return None;
        }
        let next: u64 = acc * 10 + (v - 48) as u64;
        proof {
            assert(d.take(k + 1).drop_last() =~= d.take(k));
            assert(d.take(k + 1).last() == c);
            assert forall|j: int| 0 <= j < d.take(k + 1).len() implies is_digit(
                #[trigger] d.take(k + 1)[j],
            ) by {
                if j < k {
                    assert(d.take(k)[j] == d.take(k + 1)[j]);
                }
            }
            assert(next == digits_value(d.take(k + 1)));
        }
        if next > 0xFFFF_FFFF {
            proof {
                if all_digits(d) {
                    lemma_prefix_value_le(d, k + 1);
                }
            }
            return None;
        }
        acc = next;
        i += 1;
    }
    assert(d.take(n - start) =~= d);
    Some(acc as u32)
}


impl TuningState {
    /// The tuning written to the device before the pipeline starts: the centre
    /// sits one default bandwidth below the default centre frequency.
    pub open spec fn initial() -> TuningState {
        TuningState {
            center_frequency: (DEFAULT_CENTER_FREQUENCY - DEFAULT_BANDWIDTH) as u32,
            sample_rate: DEFAULT_SAMPLE_RATE,
            bandwidth: DEFAULT_BANDWIDTH,
        }
    }

    /// The tuning after one field was set to `value`.
    pub open spec fn with_field(self, mode: InputMode, value: u32) -> TuningState {
        match mode {
            InputMode::Normal => self,
            InputMode::CenterFreq => TuningState { center_frequency: value, ..self },
            InputMode::SampleRate => TuningState { sample_rate: value, ..self },
            InputMode::Bandwidth => TuningState { bandwidth: value, ..self },
        }
    }

    /// Left and right end of the frequency axis, in hertz.
    pub open spec fn axis(self) -> (u64, u64) {
        (self.center_frequency as u64, (self.center_frequency + RTLSDR_MAX_BANDWIDTH) as u64)
    }

    /// Bounds of the frequency axis: from the centre frequency up by the widest
    /// bandwidth the receiver offers. Reads the tuning and changes nothing.
    pub fn frequency_axis(&self) -> (r: (u64, u64))
        ensures
            r == self.axis(),
            r.0 == self.center_frequency,
            r.1 == self.center_frequency + RTLSDR_MAX_BANDWIDTH,
    {
        let low: u64 = self.center_frequency as u64;
        let high: u64 = low + RTLSDR_MAX_BANDWIDTH as u64;
        (low, high)
    }
}

/// Bounds of the amplitude axis, in thousandths of a decibel.
pub fn amplitude_axis() -> (r: (i32, i32))
    ensures
        r == (DISPLAY_MIN_MILLI_DB, DISPLAY_MAX_MILLI_DB),
{
    (DISPLAY_MIN_MILLI_DB, DISPLAY_MAX_MILLI_DB)
}

/// The writes that configure the device before the pipeline starts, in the
/// order in which the device has to receive them.
pub open spec fn initial_commands() -> Seq<DeviceCommand> {
    seq![
        DeviceCommand::EnableAgc,
        DeviceCommand::SetPpm(DEFAULT_PPM),
        DeviceCommand::SetCenterFreq(TuningState::initial().center_frequency),
        DeviceCommand::SetBandwidth(DEFAULT_BANDWIDTH),
        DeviceCommand::SetSampleRate(DEFAULT_SAMPLE_RATE),
    ]
}

/// The start-up tuning and the device writes that establish it.
pub fn set_controller_defaults() -> (r: (TuningState, Vec<DeviceCommand>))
    ensures
        r.0 == TuningState::initial(),
        r.1@ == initial_commands(),
{
    let tuning = TuningState {
        center_frequency: DEFAULT_CENTER_FREQUENCY - DEFAULT_BANDWIDTH,
        sample_rate: DEFAULT_SAMPLE_RATE,
        bandwidth: DEFAULT_BANDWIDTH,
    };
    let mut commands: Vec<DeviceCommand> = Vec::new();
    commands.push(DeviceCommand::EnableAgc);
    commands.push(DeviceCommand::SetPpm(DEFAULT_PPM));
    commands.push(DeviceCommand::SetCenterFreq(tuning.center_frequency));
    commands.push(DeviceCommand::SetBandwidth(tuning.bandwidth));
    commands.push(DeviceCommand::SetSampleRate(tuning.sample_rate));
    assert(commands@ =~= initial_commands());
    (tuning, commands)
}

/// The device write that sets one field.
pub open spec fn command_for(mode: InputMode, value: u32) -> Option<DeviceCommand> {
    match mode {
        InputMode::Normal => None,
        InputMode::CenterFreq => Some(DeviceCommand::SetCenterFreq(value)),
        InputMode::SampleRate => Some(DeviceCommand::SetSampleRate(value)),
        InputMode::Bandwidth => Some(DeviceCommand::SetBandwidth(value)),
    }
}

/// What committing `input` in `mode` does: the new tuning and the device write,
/// when the text is a number and a field is being edited; otherwise the tuning
/// as it was and no write.
pub open spec fn committed(tuning: TuningState, input: Seq<char>, mode: InputMode) -> (
    TuningState,
    Option<DeviceCommand>,
) {
    match parsed_u32(input) {
        Some(value) => (tuning.with_field(mode, value), command_for(mode, value)),
        None => (tuning, None),
    }
}

/// Commits the text of the input box to the field that `mode` names. A text that
/// is no unsigned number changes nothing and yields no command.
pub fn deal_with_input(tuning: &mut TuningState, input: &Vec<char>, mode: InputMode) -> (r: Option<
    DeviceCommand,
>)
    ensures
        (*final(tuning), r) == committed(*old(tuning), input@, mode),
{
    match parse_u32(input) {
        None => None,
        Some(value) => match mode {
            InputMode::Normal => None,
            InputMode::CenterFreq => {
                tuning.center_frequency = value;
                Some(DeviceCommand::SetCenterFreq(value))
            },
            InputMode::SampleRate => {
                tuning.sample_rate = value;
                Some(DeviceCommand::SetSampleRate(value))
            },
            InputMode::Bandwidth => {
                tuning.bandwidth = value;
                Some(DeviceCommand::SetBandwidth(value))
            },
        },
    }
}

/// The editing mode that a key selects from the normal mode, if it selects one.
pub open spec fn mode_selected_by(c: char) -> Option<InputMode> {
    if c == 'f' {
        Some(InputMode::CenterFreq)
    } else if c == 's' {
        Some(InputMode::SampleRate)
    } else if c == 'b' {
        Some(InputMode::Bandwidth)
    } else {
        None
    }
}

/// The transition function of the retuning state machine.
pub open spec fn step(app: AppModel, tuning: TuningState, key: KeyInput) -> Step {
    let idle = Step { app, tuning, action: UiAction::Idle };
    let cleared = AppModel { input: Seq::empty(), mode: InputMode::Normal };
    match app.mode {
        InputMode::Normal => match key {
            KeyInput::Char(c) => if c == 'q' {
                Step { app, tuning, action: UiAction::Quit }
            } else {
                match mode_selected_by(c) {
                    Some(mode) => Step { app: AppModel { mode, ..app }, ..idle },
                    None => idle,
                }
            },
            _ => idle,
        },
        _ => match key {
            KeyInput::Enter => match committed(tuning, app.input, app.mode).1 {
                Some(command) => Step {
                    app: cleared,
                    tuning: committed(tuning, app.input, app.mode).0,
                    action: UiAction::Apply(command),
                },
                None => Step { app: cleared, tuning, action: UiAction::Rejected },
            },
            KeyInput::Char(c) => Step { app: AppModel { input: app.input.push(c), ..app }, ..idle },
            KeyInput::Backspace => if app.input.len() > 0 {
                Step { app: AppModel { input: app.input.drop_last(), ..app }, ..idle }
            } else {
                idle
            },
            KeyInput::Esc => Step { app: cleared, ..idle },
            KeyInput::Other => idle,
        },
    }
}

impl App {
    pub open spec fn view(&self) -> AppModel {
        AppModel { input: self.input@, mode: self.input_mode }
    }

    /// An empty input box in the normal mode.
    pub fn new() -> (r: App)
        ensures
            r@ == (AppModel { input: Seq::empty(), mode: InputMode::Normal }),
    {
        App { input: Vec::new(), input_mode: InputMode::Normal }
    }

    /// Whether the quit key is live: only while nothing is being edited.
    pub fn quit_enabled(&self) -> (r: bool)
        ensures
            r == (self@.mode == InputMode::Normal),
    {
        match self.input_mode {
            InputMode::Normal => true,
            _ => false,
        }
    }

    /// Handles one key: updates the input box, the mode and, on a committed
    /// edit, the tuning, and tells the caller what is left to do.
    pub fn handle_key(&mut self, tuning: &mut TuningState, key: KeyInput) -> (action: UiAction)
        ensures
            step(old(self)@, *old(tuning), key) == (Step {
                app: final(self)@,
                tuning: *final(tuning),
                action,
            }),
    {
        match self.input_mode {
            InputMode::Normal => match key {
                KeyInput::Char(c) => {
                    if c == 'q' {
                        UiAction::Quit
                    } else if c == 'f' {
                        self.input_mode = InputMode::CenterFreq;
                        UiAction::Idle
                    } else if c == 's' {
                        self.input_mode = InputMode::SampleRate;
                        UiAction::Idle
                    } else if c == 'b' {
                        self.input_mode = InputMode::Bandwidth;
                        UiAction::Idle
                    } else {
                        UiAction::Idle
                    }
                },
                _ => UiAction::Idle,
            },
            mode => match key {
                KeyInput::Enter => {
                    let outcome = deal_with_input(tuning, &self.input, mode);
                    self.input.clear();
                    self.input_mode = InputMode::Normal;
                    match outcome {
                        Some(command) => UiAction::Apply(command),
                        None => UiAction::Rejected,
                    }
                },
                KeyInput::Char(c) => {
                    self.input.push(c);
                    UiAction::Idle
                },
                KeyInput::Backspace => {
                    let _ = self.input.pop();
                    UiAction::Idle
                },
                KeyInput::Esc => {
                    self.input.clear();
                    self.input_mode = InputMode::Normal;
                    UiAction::Idle
                },
                KeyInput::Other => UiAction::Idle,
            },
        }
    }
}

impl Default for App {
    fn default() -> (r: App)
        ensures
            r@ == (AppModel { input: Seq::empty(), mode: InputMode::Normal }),
    {
        App::new()
    }
}

/// A committed edit of a number sets exactly the edited field, asks for the
/// matching device write, and ends in the normal mode with an empty input box.
pub proof fn lemma_commit_number(app: AppModel, tuning: TuningState, value: u32)
    requires
        app.mode != InputMode::Normal,
        parsed_u32(app.input) == Some(value),
    ensures
        step(app, tuning, KeyInput::Enter).tuning == tuning.with_field(app.mode, value),
        step(app, tuning, KeyInput::Enter).action == UiAction::Apply(
            command_for(app.mode, value).unwrap(),
        ),
        step(app, tuning, KeyInput::Enter).app == (AppModel {
            input: Seq::empty(),
            mode: InputMode::Normal,
        }),
{
}

/// A committed edit that is no unsigned number leaves the tuning as it was,
/// empties the input box, returns to the normal mode and is reported as
/// rejected.
pub proof fn lemma_commit_rejected(app: AppModel, tuning: TuningState)
    requires
        app.mode != InputMode::Normal,
        parsed_u32(app.input).is_none(),
    ensures
        step(app, tuning, KeyInput::Enter) == (Step {
            app: AppModel { input: Seq::empty(), mode: InputMode::Normal },
            tuning,
            action: UiAction::Rejected,
        }),
{
}

/// A text with a character that is neither a digit nor a leading plus sign is
/// no number.
pub proof fn lemma_non_digit_rejected(s: Seq<char>, i: int)
    requires
        0 <= i < s.len(),
        !is_digit(s[i]),
        i > 0 || s[0] != '+',
    ensures
        parsed_u32(s).is_none(),
{
    let d = unsigned_part(s);
    if s[0] == '+' {
        assert(d[i - 1] == s[i]);
    } else {
        assert(d[i] == s[i]);
    }
}

/// The quit key acts in the normal mode only; while a field is edited, no key
/// makes the machine quit.
pub proof fn lemma_quit_only_in_normal(app: AppModel, tuning: TuningState, key: KeyInput)
    ensures
        step(app, tuning, key).action == UiAction::Quit <==> (app.mode == InputMode::Normal && key
            == KeyInput::Char('q')),
{
}

/// The line of help shown above the input box.
pub fn help_message(mode: InputMode) -> (r: &'static str)
    ensures
        r@ == match mode {
            InputMode::Normal => "Press q to exit, f to enter center frequency, b to enter bandwidth, s to enter sample rate"@,
            InputMode::CenterFreq => "Press Esc to cancel, Enter to set the center frequency"@,
            InputMode::Bandwidth => "Press Esc to cancel, Enter to set the bandwidth"@,
            InputMode::SampleRate => "Press Esc to cancel, Enter to set the sample rate"@,
        },
{
    match mode {
        InputMode::Normal => "Press q to exit, f to enter center frequency, b to enter bandwidth, s to enter sample rate",
        InputMode::CenterFreq => "Press Esc to cancel, Enter to set the center frequency",
        InputMode::Bandwidth => "Press Esc to cancel, Enter to set the bandwidth",
        InputMode::SampleRate => "Press Esc to cancel, Enter to set the sample rate",
    }
}

} // verus!
