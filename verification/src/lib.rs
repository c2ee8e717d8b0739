use vstd::prelude::*;
use crate::clock::clock_text;
use crate::command::Shell;
use crate::config::ConfigLoad;
use crate::control::tool_command;
use crate::control::tool_for;
use crate::control::ConfigError;
use crate::control::ControlLoop;
use crate::control::LoopView;
use crate::control::PhaseView;
use crate::fan::ActuationState;
use crate::fan::labelled;
use crate::render::append_decimal;
use crate::render::append_milli;
use crate::render::decimal_text;
use crate::render::milli_text;

pub mod capture;
pub mod clock;
pub mod command;
pub mod config;
pub mod control;
pub mod decimal;
pub mod fan;
pub mod render;
pub mod sensor;
pub mod text;
pub mod tui;

verus! {

/// How grave a log line is.
#[derive(Debug, Clone, Copy, PartialEq, Eq)]
pub enum Level {
    Error,
    Warn,
    Info,
    Debug,
    Trace,
}

impl Level {
    /// The level's name as log lines show it.
    pub open spec fn text(self) -> Seq<char> {
        match self {
            Level::Error => "ERROR"@,
            Level::Warn => "WARN"@,
            Level::Info => "INFO"@,
            Level::Debug => "DEBUG"@,
            Level::Trace => "TRACE"@,
        }
    }

    /// The level's name as log lines show it.
    pub fn as_str(&self) -> (s: &'static str)
        ensures
            s@ == self.text(),
    {
        match self {
            Level::Error => "ERROR",
            Level::Warn => "WARN",
            Level::Info => "INFO",
            Level::Debug => "DEBUG",
            Level::Trace => "TRACE",
        }
    }
}

/// What the control loop tells the display. The first text of every variant
/// but `Command` is the time of day at which the message was made; numbers
/// that are readings are whole thousandths of their unit.
#[derive(Debug)]
pub enum Message {
    /// A log line: time, level and text.
    Log(String, Level, String),
    /// A command line.
    Command(String),
    /// The fans were set: time, peak processor temperature, duty in percent.
    SetFanSpeed(String, i64, u8),
    /// Telemetry: time, the active-processor count with the socket ceiling,
    /// and each fan with its speed.
    GotCpuAndFansSpeed(String, (usize, usize), Vec<(String, i64)>),
    /// Power draw: time and each power sensor with its value.
    Power(String, Vec<(String, i64)>),
}

/// A message as mathematical values.
pub ghost enum Event {
    Log(Seq<char>, Level, Seq<char>),
    Command(Seq<char>),
    SetFanSpeed(Seq<char>, i64, u8),
    GotCpuAndFansSpeed(Seq<char>, (usize, usize), Seq<(Seq<char>, i64)>),
    Power(Seq<char>, Seq<(Seq<char>, i64)>),
}

impl View for Message {
    type V = Event;

    open spec fn view(&self) -> Event {
        match *self {
            Message::Log(time, level, text) => Event::Log(time@, level, text@),
            Message::Command(line) => Event::Command(line@),
            Message::SetFanSpeed(time, temp, duty) => Event::SetFanSpeed(time@, temp, duty),
            Message::GotCpuAndFansSpeed(time, counts, fans) => Event::GotCpuAndFansSpeed(
                time@,
                counts,
                labelled(fans@),
            ),
            Message::Power(time, powers) => Event::Power(time@, labelled(powers@)),
        }
    }
}

impl Event {
    /// The message in one line, as a plain listing shows it. A fan setting
    /// shows its time and its temperature, telemetry its active count and the
    /// number of its fans, power draw the number of its sensors.
    pub open spec fn text(self) -> Seq<char> {
        match self {
            Event::Log(time, level, _) => time + ": "@ + level.text(),
            Event::Command(line) => "Command: "@ + line,
            Event::SetFanSpeed(time, temp, _) => "Ipmi: temp: "@ + time + " speed "@ + milli_text(
                temp as int,
            ),
            Event::GotCpuAndFansSpeed(_, counts, fans) => "Ipmi: cpu: "@ + decimal_text(
                counts.0 as nat,
            ) + " speed "@ + decimal_text(fans.len()),
            Event::Power(_, powers) => "Ipmi: power: "@ + decimal_text(powers.len()),
        }
    }
}

impl Message {
    /// Makes a log line stamped with the time of day at which it is made. The
    /// level and the text are the ones given; the time is whatever the clock
    /// says.
    pub fn build_log(level: Level, msg: String) -> (m: Message)
        ensures
            m@ is Log,
            m@->Log_1 == level,
            m@->Log_2 == msg@,
    {
        let time_str = clock_text();
        Message::Log(time_str, level, msg)
    }

    /// Renders the message in one line.
    pub fn to_string(&self) -> (s: String)
        ensures
            s@ == self@.text(),
    {
        match self {
            Message::Log(time, level, _) => {
                let mut s = time.clone();
                s.append(": ");
                s.append(level.as_str());
                s
            },
            Message::Command(line) => {
                let mut s = "Command: ".to_owned();
                s.append(line.as_str());
                s
            },
            Message::SetFanSpeed(time, temp, _) => {
                let mut s = "Ipmi: temp: ".to_owned();
                s.append(time.as_str());
                s.append(" speed ");
                append_milli(&mut s, *temp);
                s
            },
            Message::GotCpuAndFansSpeed(_, counts, fans) => {
                let mut s = "Ipmi: cpu: ".to_owned();
                append_decimal(&mut s, counts.0 as u64);
                s.append(" speed ");
                append_decimal(&mut s, fans.len() as u64);
                assert(labelled(fans@).len() == fans@.len());
                s
            },
            Message::Power(_, powers) => {
                let mut s = "Ipmi: power: ".to_owned();
                append_decimal(&mut s, powers.len() as u64);
                assert(labelled(powers@).len() == powers@.len());
                s
            },
        }
    }
}

/// What the display asks of the control loop.
#[derive(Debug, Clone, Copy, PartialEq, Eq)]
pub enum UIMessage {
    RestartLoop,
}

/// What setting the loop up comes to, for each outcome of loading the
/// configuration from `path`: every failure to load is an error that stops
/// the loop, and so is a configuration that asks for the network and leaves
/// host, user name or password empty; any other configuration gives a loop
/// that is about to poll for the first time, with the configured curve and
/// nothing turned down yet.
pub open spec fn loop_for(path: Seq<char>, loaded: ConfigLoad, shell: Shell, r: Result<
    ControlLoop,
    ConfigError,
>) -> bool {
    match loaded {
        ConfigLoad::Missing => r matches Err(ConfigError::Missing(p)) && p@ == path,
        ConfigLoad::Unreadable(why) => r matches Err(ConfigError::Unreadable(w)) && w@ == why@,
        ConfigLoad::Unparsable(why) => r matches Err(ConfigError::Unparsable(w)) && w@ == why@,
        ConfigLoad::Loaded(c) => match tool_for(c) {
            None => r matches Err(ConfigError::IncompleteCredentials),
            Some(tool) => r matches Ok(lp) && lp@ == (LoopView {
                tool,
                curve: c.fan_speeds@,
                shell,
                state: ActuationState { secondary_fan_zone_disabled: false },
                phase: PhaseView::Polling,
            }),
        },
    }
}

/// Sets the control loop up from what came of loading the configuration at
/// `config_path`. A configuration that is missing, unreadable or unparsable
/// stops the loop before its first cycle, and so does one that asks for the
/// network without full credentials.
pub fn init_loop(config_path: &str, loaded: ConfigLoad, shell: Shell) -> (r: Result<
    ControlLoop,
    ConfigError,
>)
    ensures
        loop_for(config_path@, loaded, shell, r),
        r is Ok <==> (loaded matches ConfigLoad::Loaded(c) && tool_for(c) is Some),
{
    match loaded {
        ConfigLoad::Missing => Err(ConfigError::Missing(config_path.to_owned())),
        ConfigLoad::Unreadable(why) => Err(ConfigError::Unreadable(why)),
        ConfigLoad::Unparsable(why) => Err(ConfigError::Unparsable(why)),
        ConfigLoad::Loaded(c) => match tool_command(&c) {
            Ok(tool) => Ok(ControlLoop::new(tool, c.fan_speeds, shell)),
            Err(e) => Err(e),
        },
    }
}

} // verus!
