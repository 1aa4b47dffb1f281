//! The shell's loop as a machine: what it does with each line that is read
//! and with each answer of the grammar, and what it asks of the program
//! around it.

use vstd::prelude::*;
use crate::config::{listing_text, ConfigView, GlobalConfig};
use crate::history::{appended, History};
use crate::parsed::ParsedArgs;
use crate::text::{same_text, views};
use crate::tokenize::{shell_split, tokenize, tokens_of, TokenizeError};

verus! {

/// Where the shell stands between two steps.
#[derive(Debug, Clone, Copy, PartialEq, Eq, Structural)]
pub enum Phase {
    /// It waits for a line.
    Reading,
    /// It has split a line into words and waits for the grammar's answer.
    Dispatching,
    /// It has ended and takes no more lines.
    Terminated,
}

/// The commands that are run outside the shell.
#[derive(Debug, Clone, Copy, PartialEq, Eq, Structural)]
pub enum Handler {
    Rpc,
    Abi,
    Key,
}

/// What can go wrong in the shell. None of it ends the loop.
#[derive(Debug)]
pub enum ShellError {
    /// The line could not be split into words.
    Tokenize(TokenizeError),
    /// The grammar rejected the words, with its message.
    Grammar(String),
    /// A command failed, with its message.
    Handler(String),
    /// There is no history file at the path.
    HistoryMissing(String),
    /// The history file at the path could not be read, with the reason.
    HistoryLoad(String, String),
    /// The history file could not be written, with the reason.
    HistorySave(String),
    /// The other hash was asked for, and this build does not have it.
    UnsupportedCapability,
}

/// What happened outside the shell.
#[derive(Debug)]
pub enum Event {
    /// A line was read.
    Line(String),
    /// The input has ended.
    EndOfInput,
    /// The grammar accepted the words it was given.
    Parsed(ParsedArgs),
    /// The grammar rejected the words it was given, with its message.
    Rejected(String),
}

/// What the shell asks of the program around it.
#[derive(Debug, PartialEq, Eq)]
pub enum Effect {
    /// Hand these words to the grammar and come back with its answer.
    Parse(Vec<String>),
    /// Show this message as an error.
    ReportError(String),
    /// Show this message as a warning.
    ReportWarning(String),
    /// Print this text.
    Print(String),
    /// Run this command on the arguments that the grammar gave, and report
    /// its error if it has one.
    Run(Handler),
    /// Write the history to its file.
    SaveHistory,
}

/// An `Effect`, as plain values.
pub enum EffectView {
    Parse(Seq<Seq<char>>),
    ReportError(Seq<char>),
    ReportWarning(Seq<char>),
    Print(Seq<char>),
    Run(Handler),
    SaveHistory,
}

impl View for Effect {
    type V = EffectView;

    open spec fn view(&self) -> EffectView {
        match *self {
            Effect::Parse(words) => EffectView::Parse(views(words@)),
            Effect::ReportError(message) => EffectView::ReportError(message@),
            Effect::ReportWarning(message) => EffectView::ReportWarning(message@),
            Effect::Print(text) => EffectView::Print(text@),
            Effect::Run(handler) => EffectView::Run(handler),
            Effect::SaveHistory => EffectView::SaveHistory,
        }
    }
}

/// A list of effects, as plain values.
pub open spec fn effect_views(effects: Seq<Effect>) -> Seq<EffectView> {
    Seq::new(effects.len(), |i: int| effects[i]@)
}

impl ShellError {
    /// The message that is shown for the error.
    pub open spec fn text(self) -> Seq<char> {
        match self {
            ShellError::Tokenize(_) => "missing closing quote"@,
            ShellError::Grammar(message) => message@,
            ShellError::Handler(message) => message@,
            ShellError::HistoryMissing(path) => "History file "@ + path@
                + " doesn't exist, not loading history."@,
            ShellError::HistoryLoad(path, reason) => "Could not load history file "@ + path@
                + ": "@ + reason@,
            ShellError::HistorySave(reason) => "Save command history failed: "@ + reason@,
            ShellError::UnsupportedCapability =>
                "The current version does not support the blake2b algorithm. Open 'blak2b' feature and recompile cita-cli, please."@,
        }
    }

    /// Whether the error is shown as a warning: trouble with the history
    /// file and a switch that this build lacks are, the rest are errors.
    pub open spec fn warning(self) -> bool {
        match self {
            ShellError::Tokenize(_) => false,
            ShellError::Grammar(_) => false,
            ShellError::Handler(_) => false,
            ShellError::HistoryMissing(_) => true,
            ShellError::HistoryLoad(_, _) => true,
            ShellError::HistorySave(_) => true,
            ShellError::UnsupportedCapability => true,
        }
    }

    /// How the error is shown.
    pub open spec fn reported(self) -> EffectView {
        if self.warning() {
            EffectView::ReportWarning(self.text())
        } else {
            EffectView::ReportError(self.text())
        }
    }

    /// The message that is shown for the error.
    pub fn message(&self) -> (message: String)
        ensures
            message@ == self.text(),
    {
        match self {
            ShellError::Tokenize(_) => String::from_str("missing closing quote"),
            ShellError::Grammar(message) => message.clone(),
            ShellError::Handler(message) => message.clone(),
            ShellError::HistoryMissing(path) => {
                let mut message = String::from_str("History file ");
                message.append(path.as_str());
                message.append(" doesn't exist, not loading history.");
                message
            },
            ShellError::HistoryLoad(path, reason) => {
                let mut message = String::from_str("Could not load history file ");
                message.append(path.as_str());
                message.append(": ");
                message.append(reason.as_str());
                message
            },
            ShellError::HistorySave(reason) => {
                let mut message = String::from_str("Save command history failed: ");
                message.append(reason.as_str());
                message
            },
            ShellError::UnsupportedCapability => String::from_str(
                "The current version does not support the blake2b algorithm. Open 'blak2b' feature and recompile cita-cli, please.",
            ),
        }
    }

    /// Whether the error is shown as a warning.
    pub fn is_warning(&self) -> (yes: bool)
        ensures
            yes == self.warning(),
    {
        match self {
            ShellError::Tokenize(_) => false,
            ShellError::Grammar(_) => false,
            ShellError::Handler(_) => false,
            ShellError::HistoryMissing(_) => true,
            ShellError::HistoryLoad(_, _) => true,
            ShellError::HistorySave(_) => true,
            ShellError::UnsupportedCapability => true,
        }
    }

    /// The request to show the error.
    pub fn report(&self) -> (effect: Effect)
        ensures
            effect@ == self.reported(),
    {
        if self.is_warning() {
            Effect::ReportWarning(self.message())
        } else {
            Effect::ReportError(self.message())
        }
    }
}

/// The shell between two steps, as plain values.
pub struct ShellView {
    pub config: ConfigView,
    pub history: Seq<Seq<char>>,
    pub phase: Phase,
    /// The line whose words are with the grammar.
    pub pending: Seq<char>,
    /// Whether this build has the other hash.
    pub encryption: bool,
}

/// The session after a `switch` command with these arguments.
pub open spec fn switched(config: ConfigView, matches: ParsedArgs, encryption: bool) -> ConfigView {
    let hosted = match matches.value("host"@) {
        Some(host) => config.set_url(host),
        None => config,
    };
    let colored = if matches.has("color"@) {
        hosted.switch_color()
    } else {
        hosted
    };
    let formatted = if matches.has("json"@) {
        colored.switch_format()
    } else {
        colored
    };
    let debugged = if matches.has("debug"@) {
        formatted.switch_debug()
    } else {
        formatted
    };
    if matches.has("algorithm"@) && encryption {
        debugged.switch_encryption()
    } else {
        debugged
    }
}

/// The shell after the pending line went into the history, waiting for the
/// next line.
pub open spec fn recorded(state: ShellView) -> ShellView {
    ShellView {
        history: appended(state.history, state.pending),
        pending: Seq::empty(),
        phase: Phase::Reading,
        ..state
    }
}

/// The shell and its requests after a line was read and split into
/// `words`, or could not be split. A line that cannot be split is reported
/// and changes nothing. Outside `Reading` nothing happens.
pub open spec fn after_words(state: ShellView, line: Seq<char>, words: Option<Seq<Seq<char>>>) -> (
    ShellView,
    Seq<EffectView>,
) {
    if state.phase != Phase::Reading {
        (state, Seq::empty())
    } else {
        match words {
            None => (
                state,
                seq![ShellError::Tokenize(TokenizeError::MissingClosingQuote).reported()],
            ),
            Some(words) => (
                ShellView { phase: Phase::Dispatching, pending: line, ..state },
                seq![EffectView::Parse(words)],
            ),
        }
    }
}

/// The shell and its requests after the grammar accepted the pending line.
/// `exit` ends the shell at once. Every other line goes into the history,
/// which is then saved: `switch` changes the session and shows it, `info`
/// shows it, `rpc`, `abi` and `key` are run outside, and anything else does
/// nothing more. Outside `Dispatching` nothing happens.
pub open spec fn after_parse(state: ShellView, matches: ParsedArgs) -> (ShellView, Seq<EffectView>) {
    if state.phase != Phase::Dispatching {
        (state, Seq::empty())
    } else {
        match matches.subcommand {
            None => (recorded(state), seq![EffectView::SaveHistory]),
            Some(command) => {
                if command.name@ == "switch"@ {
                    let config = switched(state.config, command.matches, state.encryption);
                    let warned = if command.matches.has("algorithm"@) && !state.encryption {
                        seq![ShellError::UnsupportedCapability.reported()]
                    } else {
                        Seq::empty()
                    };
                    (
                        recorded(ShellView { config, ..state }),
                        warned + seq![
                            EffectView::Print(listing_text(config.rows())),
                            EffectView::SaveHistory,
                        ],
                    )
                } else if command.name@ == "rpc"@ {
                    (recorded(state), seq![EffectView::Run(Handler::Rpc), EffectView::SaveHistory])
                } else if command.name@ == "abi"@ {
                    (recorded(state), seq![EffectView::Run(Handler::Abi), EffectView::SaveHistory])
                } else if command.name@ == "key"@ {
                    (recorded(state), seq![EffectView::Run(Handler::Key), EffectView::SaveHistory])
                } else if command.name@ == "info"@ {
                    (
                        recorded(state),
                        seq![
                            EffectView::Print(listing_text(state.config.rows())),
                            EffectView::SaveHistory,
                        ],
                    )
                } else if command.name@ == "exit"@ {
                    (
                        ShellView { phase: Phase::Terminated, pending: Seq::empty(), ..state },
                        Seq::empty(),
                    )
                } else {
                    (recorded(state), seq![EffectView::SaveHistory])
                }
            },
        }
    }
}

/// The shell and its requests after the grammar rejected the pending line:
/// the message is reported as an error, and the line goes into the history
/// all the same. Outside `Dispatching` nothing happens.
pub open spec fn after_rejection(state: ShellView, message: Seq<char>) -> (
    ShellView,
    Seq<EffectView>,
) {
    if state.phase != Phase::Dispatching {
        (state, Seq::empty())
    } else {
        (recorded(state), seq![EffectView::ReportError(message), EffectView::SaveHistory])
    }
}

/// The shell and its requests after the input ended: it ends too, if it was
/// waiting for a line. Elsewhere nothing happens.
pub open spec fn after_end(state: ShellView) -> (ShellView, Seq<EffectView>) {
    if state.phase != Phase::Reading {
        (state, Seq::empty())
    } else {
        (ShellView { phase: Phase::Terminated, ..state }, Seq::empty())
    }
}

/// The shell and its requests after an event.
pub open spec fn react(state: ShellView, event: Event) -> (ShellView, Seq<EffectView>) {
    match event {
        Event::Line(line) => after_words(state, line@, shell_split(line@)),
        Event::EndOfInput => after_end(state),
        Event::Parsed(matches) => after_parse(state, matches),
        Event::Rejected(message) => after_rejection(state, message@),
    }
}

/// One shell: its session, its history, and where it stands in its loop.
#[derive(Debug)]
pub struct Shell {
    config: GlobalConfig,
    history: History,
    phase: Phase,
    pending: String,
    encryption: bool,
}

impl View for Shell {
    type V = ShellView;

    closed spec fn view(&self) -> ShellView {
        ShellView {
            config: self.config@,
            history: self.history@,
            phase: self.phase,
            pending: self.pending@,
            encryption: self.encryption,
        }
    }
}

impl Shell {
    /// A shell that waits for its first line, with a fresh session for the
    /// remote address and the directory given, and the history given.
    /// `encryption` says whether this build has the other hash.
    pub fn new(url: String, path: String, history: History, encryption: bool) -> (shell: Shell)
        ensures
            shell@ == (ShellView {
                config: ConfigView::initial(url@, path@),
                history: history@,
                phase: Phase::Reading,
                pending: Seq::empty(),
                encryption,
            }),
    {
        Shell {
            config: GlobalConfig::new(url, path),
            history,
            phase: Phase::Reading,
            pending: String::new(),
            encryption,
        }
    }

    /// The session.
    pub fn config(&self) -> (config: &GlobalConfig)
        ensures
            config@ == self@.config,
    {
        &self.config
    }

    /// The history.
    pub fn history(&self) -> (history: &History)
        ensures
            history@ == self@.history,
    {
        &self.history
    }

    /// Where the shell stands.
    pub fn phase(&self) -> (phase: Phase)
        ensures
            phase == self@.phase,
    {
        self.phase
    }

    /// Puts the pending line into the history and waits for the next line.
    fn record(&mut self)
        ensures
            final(self)@ == recorded(old(self)@),
    {
        let mut line = String::new();
        std::mem::swap(&mut line, &mut self.pending);
        self.history.add_unique(line);
        self.phase = Phase::Reading;
    }

    /// Takes a line that was read, with the words it was split into.
    pub fn accept(&mut self, line: String, words: Result<Vec<String>, TokenizeError>) -> (effects:
        Vec<Effect>)
        ensures
            final(self)@ == after_words(old(self)@, line@, tokens_of(words)).0,
            effect_views(effects@) == after_words(old(self)@, line@, tokens_of(words)).1,
    {
        let mut effects: Vec<Effect> = Vec::new();
        match self.phase {
            Phase::Reading => {
                match words {
                    Err(error) => {
                        effects.push(ShellError::Tokenize(error).report());
                    },
                    Ok(words) => {
                        self.phase = Phase::Dispatching;
                        self.pending = line;
                        effects.push(Effect::Parse(words));
                    },
                }
            },
            _ => {},
        }
        assert(effect_views(effects@) == after_words(old(self)@, line@, tokens_of(words)).1);
        effects
    }

    /// Changes the session as a `switch` command with these arguments asks,
    /// and says whether the other hash was asked for in vain.
    fn switch(&mut self, matches: &ParsedArgs) -> (refused: bool)
        ensures
            final(self)@ == (ShellView {
                config: switched(old(self)@.config, *matches, old(self)@.encryption),
                ..old(self)@
            }),
            refused == (matches.has("algorithm"@) && !old(self)@.encryption),
    {
        match matches.value_of("host") {
            Some(host) => {
                self.config.set_url(host.clone());
            },
            None => {},
        }
        if matches.is_present("color") {
            self.config.switch_color();
        }
        if matches.is_present("json") {
            self.config.switch_format();
        }
        if matches.is_present("debug") {
            self.config.switch_debug();
        }
        if matches.is_present("algorithm") {
            if self.encryption {
                self.config.switch_encryption();
                false
            } else {
                true
            }
        } else {
            false
        }
    }

    /// Takes the arguments that the grammar made of the pending line.
    pub fn dispatch(&mut self, matches: &ParsedArgs) -> (effects: Vec<Effect>)
        ensures
            final(self)@ == after_parse(old(self)@, *matches).0,
            effect_views(effects@) == after_parse(old(self)@, *matches).1,
    {
        let mut effects: Vec<Effect> = Vec::new();
        match self.phase {
            Phase::Dispatching => {},
            _ => {
                assert(effect_views(effects@) == Seq::<EffectView>::empty());
                return effects;
            },
        }
        match &matches.subcommand {
            None => {},
            Some(command) => {
                let name = command.name.as_str();
                if same_text(name, "switch") {
                    if self.switch(&command.matches) {
                        effects.push(ShellError::UnsupportedCapability.report());
                    }
                    effects.push(Effect::Print(self.config.render()));
                } else if same_text(name, "rpc") {
                    effects.push(Effect::Run(Handler::Rpc));
                } else if same_text(name, "abi") {
                    effects.push(Effect::Run(Handler::Abi));
                } else if same_text(name, "key") {
                    effects.push(Effect::Run(Handler::Key));
                } else if same_text(name, "info") {
                    effects.push(Effect::Print(self.config.render()));
                } else if same_text(name, "exit") {
                    self.phase = Phase::Terminated;
                    self.pending = String::new();
                    assert(effect_views(effects@) == Seq::<EffectView>::empty());
                    return effects;
                }
            },
        }
        self.record();
        effects.push(Effect::SaveHistory);
        assert(effect_views(effects@) == after_parse(old(self)@, *matches).1);
        effects
    }

    /// Takes the message with which the grammar rejected the pending line.
    pub fn reject(&mut self, message: String) -> (effects: Vec<Effect>)
        ensures
            final(self)@ == after_rejection(old(self)@, message@).0,
            effect_views(effects@) == after_rejection(old(self)@, message@).1,
    {
        let mut effects: Vec<Effect> = Vec::new();
        match self.phase {
            Phase::Dispatching => {
                self.record();
                effects.push(Effect::ReportError(message));
                effects.push(Effect::SaveHistory);
            },
            _ => {},
        }
        assert(effect_views(effects@) == after_rejection(old(self)@, message@).1);
        effects
    }

    /// Takes the end of the input.
    pub fn end(&mut self) -> (effects: Vec<Effect>)
        ensures
            final(self)@ == after_end(old(self)@).0,
            effect_views(effects@) == after_end(old(self)@).1,
    {
        match self.phase {
            Phase::Reading => {
                self.phase = Phase::Terminated;
            },
            _ => {},
        }
        let effects: Vec<Effect> = Vec::new();
        assert(effect_views(effects@) == Seq::<EffectView>::empty());
        effects
    }

    /// Takes one event and says what is to be done about it, in order.
    pub fn step(&mut self, event: Event) -> (effects: Vec<Effect>)
        ensures
            final(self)@ == react(old(self)@, event).0,
            effect_views(effects@) == react(old(self)@, event).1,
    {
        match event {
            Event::Line(line) => {
                let words = tokenize(line.as_str());
                self.accept(line, words)
            },
            Event::EndOfInput => self.end(),
            Event::Parsed(matches) => self.dispatch(&matches),
            Event::Rejected(message) => self.reject(message),
        }
    }
}

} // verus!
