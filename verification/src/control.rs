use vstd::prelude::*;
use crate::command::failure_text;
use crate::command::CommandOutput;
use crate::command::Shell;
use crate::config::Config;
use crate::config::FanSpeed;
use crate::config::IpmiHostInfo;
use crate::fan::check_fan_speed;
use crate::fan::command_line;
use crate::fan::curve_duty;
use crate::fan::fan_speeds;
use crate::fan::get_all_sensor_data;
use crate::fan::get_fan_speed;
use crate::fan::labelled;
use crate::fan::lemma_curve_duty_total;
use crate::fan::peak_temperature;
use crate::fan::planned_commands;
use crate::fan::power_readings;
use crate::fan::readings_of;
use crate::fan::sensor_command;
use crate::fan::sensor_command_text;
use crate::fan::set_fan_speed;
use crate::fan::socket_entries;
use crate::fan::state_after;
use crate::fan::table_readings;
use crate::fan::tally;
use crate::fan::ActuationState;
use crate::fan::TelemetrySnapshot;
use crate::render::append_decimal;
use crate::render::append_milli;
use crate::render::decimal_text;
use crate::render::milli_text;
use crate::sensor::Reading;
use crate::text::lowered;
use crate::text::lowered_eq;
use crate::Event;
use crate::Level;
use crate::Message;

verus! {

/// How long the loop rests between two cycles, in milliseconds.
pub const POLL_INTERVAL_MS: u64 = 15000;

/// Why the loop cannot start.
#[derive(Debug)]
pub enum ConfigError {
    /// There is no configuration at the given path.
    Missing(String),
    /// The configuration could not be read; the text says why.
    Unreadable(String),
    /// What was read is no configuration; the text says why.
    Unparsable(String),
    /// The controller is to be reached over the network, and its host, user
    /// name or password is left empty.
    IncompleteCredentials,
}

impl ConfigError {
    /// The error as text for a log line.
    pub open spec fn text(self) -> Seq<char> {
        match self {
            ConfigError::Missing(path) => path@ + " not exists."@,
            ConfigError::Unreadable(why) => "Failed to read config file: "@ + why@,
            ConfigError::Unparsable(why) => "Failed to parse config file: "@ + why@,
            ConfigError::IncompleteCredentials =>
                "必须配置用户名、密码和BMC主机地址，才能使用out-band模式/username, password and host must be set to use out-band mode."@,
        }
    }

    /// Renders the error as text for a log line.
    pub fn to_string(&self) -> (s: String)
        ensures
            s@ == self.text(),
    {
        match self {
            ConfigError::Missing(path) => {
                let mut s = path.clone();
                s.append(" not exists.");
                s
            },
            ConfigError::Unreadable(why) => {
                let mut s = "Failed to read config file: ".to_owned();
                s.append(why.as_str());
                s
            },
            ConfigError::Unparsable(why) => {
                let mut s = "Failed to parse config file: ".to_owned();
                s.append(why.as_str());
                s
            },
            ConfigError::IncompleteCredentials =>
                "必须配置用户名、密码和BMC主机地址，才能使用out-band模式/username, password and host must be set to use out-band mode.".to_owned(),
        }
    }
}

/// Whether a mode asks for the local channel to the controller: it reads
/// `in-band`, in letters of either case.
pub open spec fn is_in_band(mode: Seq<char>) -> bool {
    lowered(mode) == "in-band"@
}

/// Whether host, user name and password are all given.
pub open spec fn has_credentials(ipmi: IpmiHostInfo) -> bool {
    ipmi.host@.len() > 0 && ipmi.username@.len() > 0 && ipmi.password@.len() > 0
}

/// The tool invocation that reaches a controller over the network.
pub open spec fn remote_tool_text(ipmi: IpmiHostInfo) -> Seq<char> {
    "ipmitool -I lanplus -H "@ + ipmi.host@ + " -U "@ + ipmi.username@ + " -P '"@
        + ipmi.password@ + "'"@
}

/// The tool invocation that a configuration asks for: the bare tool for the
/// local channel, the tool with host and credentials for the network, and
/// none where the network is asked for without full credentials.
pub open spec fn tool_for(config: Config) -> Option<Seq<char>> {
    if is_in_band(config.mode@) {
        Some("ipmitool"@)
    } else if has_credentials(config.ipmi) {
        Some(remote_tool_text(config.ipmi))
    } else {
        None
    }
}

/// Builds the tool invocation that a configuration asks for.
pub fn tool_command(config: &Config) -> (r: Result<String, ConfigError>)
    ensures
        r is Ok <==> tool_for(*config) is Some,
        r matches Ok(tool) ==> tool_for(*config) == Some(tool@),
        r matches Err(e) ==> e is IncompleteCredentials,
{
    if lowered_eq(config.mode.as_str(), "in-band") {
        return Ok("ipmitool".to_owned());
    }
    if config.ipmi.username.as_str().unicode_len() == 0
        || config.ipmi.password.as_str().unicode_len() == 0
        || config.ipmi.host.as_str().unicode_len() == 0 {
        return Err(ConfigError::IncompleteCredentials);
    }
    let mut tool = "ipmitool -I lanplus -H ".to_owned();
    tool.append(config.ipmi.host.as_str());
    tool.append(" -U ");
    tool.append(config.ipmi.username.as_str());
    tool.append(" -P '");
    tool.append(config.ipmi.password.as_str());
    tool.append("'");
    Ok(tool)
}

/// What a cycle keeps from its readings while the fan command runs.
#[derive(Debug)]
pub struct Pending {
    /// The time of day at which the readings came in.
    pub time: String,
    /// The peak processor temperature, in thousandths of a degree.
    pub peak: i64,
    /// The duty that the curve gives for the peak, in percent.
    pub duty: u8,
    /// The power sensors with their values.
    pub powers: Vec<(String, i64)>,
    /// The fan command line that is running.
    pub line: String,
}

/// What a cycle keeps while the fan command runs, as mathematical values.
pub ghost struct PendingView {
    pub time: Seq<char>,
    pub peak: i64,
    pub duty: u8,
    pub powers: Seq<(Seq<char>, i64)>,
    pub line: Seq<char>,
}

impl View for Pending {
    type V = PendingView;

    open spec fn view(&self) -> PendingView {
        PendingView {
            time: self.time@,
            peak: self.peak,
            duty: self.duty,
            powers: labelled(self.powers@),
            line: self.line@,
        }
    }
}

/// Where the loop stands in its cycle.
#[derive(Debug)]
pub enum Phase {
    /// The sensor command is running.
    Polling,
    /// The readings are in and the fan command is running.
    Actuating(Pending),
    /// The cycle is over and the loop rests until the next.
    Idle,
}

/// Where the loop stands, as mathematical values.
pub ghost enum PhaseView {
    Polling,
    Actuating(PendingView),
    Idle,
}

impl View for Phase {
    type V = PhaseView;

    open spec fn view(&self) -> PhaseView {
        match *self {
            Phase::Polling => PhaseView::Polling,
            Phase::Actuating(pending) => PhaseView::Actuating(pending@),
            Phase::Idle => PhaseView::Idle,
        }
    }
}

/// The control loop: what it was configured with, what the actuation step
/// remembers, and where it stands in its cycle.
#[derive(Debug)]
pub struct ControlLoop {
    /// The tool invocation to which requests are appended.
    pub tool: String,
    /// The fan curve.
    pub curve: Vec<FanSpeed>,
    pub shell: Shell,
    pub state: ActuationState,
    pub phase: Phase,
}

/// The control loop as mathematical values.
pub ghost struct LoopView {
    pub tool: Seq<char>,
    pub curve: Seq<FanSpeed>,
    pub shell: Shell,
    pub state: ActuationState,
    pub phase: PhaseView,
}

impl View for ControlLoop {
    type V = LoopView;

    open spec fn view(&self) -> LoopView {
        LoopView {
            tool: self.tool@,
            curve: self.curve@,
            shell: self.shell,
            state: self.state,
            phase: self.phase@,
        }
    }
}

/// What happened outside the loop since its last step.
#[derive(Debug)]
pub enum LoopEvent {
    /// The command that the loop asked for ran and ended.
    Finished(CommandOutput),
    /// The command that the loop asked for could not be run; the text says
    /// why.
    Failed(String),
    /// The rest that the loop asked for is over.
    Elapsed,
}

/// What happened outside the loop, as mathematical values: for a finished
/// command its exit status, output and error stream.
pub ghost enum Outcome {
    Finished(Option<i32>, Seq<char>, Seq<char>),
    Failed(Seq<char>),
    Elapsed,
}

impl View for LoopEvent {
    type V = Outcome;

    open spec fn view(&self) -> Outcome {
        match *self {
            LoopEvent::Finished(output) => Outcome::Finished(
                output.status,
                output.stdout@,
                output.stderr@,
            ),
            LoopEvent::Failed(why) => Outcome::Failed(why@),
            LoopEvent::Elapsed => Outcome::Elapsed,
        }
    }
}

/// What the loop asks its driver to do next.
#[derive(Debug)]
pub enum Action {
    /// Run the sensor command and report how it ended.
    Poll(String),
    /// Run the fan command and report how it ended.
    Actuate(String),
    /// Rest for so many milliseconds and report when they are over.
    Sleep(u64),
}

/// What the loop asks for, as mathematical values.
pub ghost enum Task {
    Poll(Seq<char>),
    Actuate(Seq<char>),
    Sleep(u64),
}

impl View for Action {
    type V = Task;

    open spec fn view(&self) -> Task {
        match *self {
            Action::Poll(line) => Task::Poll(line@),
            Action::Actuate(line) => Task::Actuate(line@),
            Action::Sleep(ms) => Task::Sleep(ms),
        }
    }
}

/// What one step of the loop gives its driver: the messages for the
/// display, in order, and what to do next.
#[derive(Debug)]
pub struct Step {
    pub messages: Vec<Message>,
    pub action: Action,
}

/// A run of messages as mathematical values.
pub open spec fn events_of(messages: Seq<Message>) -> Seq<Event> {
    messages.map_values(|m: Message| m@)
}

/// One step of the loop as mathematical values: the loop after it, the
/// messages, and what is asked for next.
pub ghost struct Transition {
    pub next: LoopView,
    pub events: Seq<Event>,
    pub task: Task,
}

/// One fan of the telemetry log line: label, colon, speed.
pub open spec fn fan_entry_text(fan: (Seq<char>, i64)) -> Seq<char> {
    fan.0 + ": "@ + milli_text(fan.1 as int)
}

/// The fans of the telemetry log line, separated by commas.
pub open spec fn fan_list_text(fans: Seq<(Seq<char>, i64)>) -> Seq<char>
    decreases fans.len(),
{
    if fans.len() == 0 {
        Seq::<char>::empty()
    } else if fans.len() == 1 {
        fan_entry_text(fans[0])
    } else {
        fan_list_text(fans.drop_last()) + ", "@ + fan_entry_text(fans.last())
    }
}

/// The log line that goes with telemetry.
pub open spec fn telemetry_log_text(counts: (usize, usize), fans: Seq<(Seq<char>, i64)>) -> Seq<
    char,
> {
    "GotCpuAndFansSpeed, active cpu num: "@ + decimal_text(counts.0 as nat)
        + ", max sockets num: "@ + decimal_text(counts.1 as nat) + ", fans: "@ + fan_list_text(
        fans,
    )
}

/// The log line that goes with a fan setting.
pub open spec fn actuation_log_text(peak: i64, duty: u8) -> Seq<char> {
    "SetFanSpeed, temp: "@ + milli_text(peak as int) + "℃, speed: "@ + decimal_text(duty as nat)
        + "%"@
}

/// The log line that goes with power draw.
pub open spec fn power_log_text(count: nat) -> Seq<char> {
    "Power data got, length is "@ + decimal_text(count)
}

/// What the loop is waiting for in its phase.
pub open spec fn awaited(lp: LoopView) -> Task {
    match lp.phase {
        PhaseView::Polling => Task::Poll(sensor_command_text(lp.tool)),
        PhaseView::Actuating(pending) => Task::Actuate(pending.line),
        PhaseView::Idle => Task::Sleep(POLL_INTERVAL_MS),
    }
}

/// The loop after a cycle has ended: at rest, with everything else as it was.
pub open spec fn at_rest(lp: LoopView) -> LoopView {
    LoopView { phase: PhaseView::Idle, ..lp }
}

/// The step that follows readings: telemetry goes out with its log line, the
/// curve decides the duty for the peak temperature, the fan command is
/// planned, which may set the actuation flag, and the loop waits for it.
pub open spec fn on_readings(lp: LoopView, readings: Seq<Reading>, now: Seq<char>) -> Transition {
    let counts = tally(socket_entries(readings));
    let peak = peak_temperature(readings);
    let duty = curve_duty(peak as int, lp.curve) as u8;
    let fans = fan_speeds(readings);
    let line = command_line(lp.tool, planned_commands(duty, counts.0, lp.state), lp.shell);
    let pending = PendingView { time: now, peak, duty, powers: power_readings(readings), line };
    Transition {
        next: LoopView {
            state: state_after(counts.0, lp.state),
            phase: PhaseView::Actuating(pending),
            ..lp
        },
        events: seq![
            Event::Log(now, Level::Info, telemetry_log_text(counts, fans)),
            Event::GotCpuAndFansSpeed(now, counts, fans),
        ],
        task: Task::Actuate(line),
    }
}

/// The step that follows a failed acquisition: one error log line, no fan
/// command, and the loop rests for the full interval.
pub open spec fn on_acquisition_failure(lp: LoopView, why: Seq<char>, now: Seq<char>) -> Transition {
    Transition {
        next: at_rest(lp),
        events: seq![Event::Log(now, Level::Error, why)],
        task: Task::Sleep(POLL_INTERVAL_MS),
    }
}

/// The messages on power draw that close every cycle in which readings came
/// in.
pub open spec fn power_events(pending: PendingView, now: Seq<char>) -> Seq<Event> {
    seq![
        Event::Log(now, Level::Info, power_log_text(pending.powers.len())),
        Event::Power(pending.time, pending.powers),
    ]
}

/// The step that follows the fan command: where it succeeded, the fan
/// setting with its log line, and where it failed, an error log line with
/// `why`; after either the messages on power draw, and the loop rests.
pub open spec fn on_actuated(
    lp: LoopView,
    pending: PendingView,
    failure: Option<Seq<char>>,
    now: Seq<char>,
) -> Transition {
    let outcome = match failure {
        None => seq![
            Event::Log(now, Level::Info, actuation_log_text(pending.peak, pending.duty)),
            Event::SetFanSpeed(pending.time, pending.peak, pending.duty),
        ],
        Some(why) => seq![Event::Log(now, Level::Error, why)],
    };
    Transition {
        next: at_rest(lp),
        events: outcome + power_events(pending, now),
        task: Task::Sleep(POLL_INTERVAL_MS),
    }
}

/// One step of the loop: what it does, at the time of day `now`, when
/// `outcome` is reported to it. An outcome that its phase does not wait for
/// changes nothing and asks again for what the phase waits for.
pub open spec fn transition(lp: LoopView, outcome: Outcome, now: Seq<char>) -> Transition {
    match (lp.phase, outcome) {
        (PhaseView::Polling, Outcome::Finished(status, stdout, stderr)) => {
            if status == Some(0i32) {
                on_readings(lp, table_readings(stdout), now)
            } else {
                on_acquisition_failure(
                    lp,
                    failure_text(sensor_command_text(lp.tool), stderr),
                    now,
                )
            }
        },
        (PhaseView::Polling, Outcome::Failed(why)) => on_acquisition_failure(lp, why, now),
        (PhaseView::Actuating(pending), Outcome::Finished(status, _, stderr)) => {
            if status == Some(0i32) {
                on_actuated(lp, pending, None, now)
            } else {
                on_actuated(lp, pending, Some(failure_text(pending.line, stderr)), now)
            }
        },
        (PhaseView::Actuating(pending), Outcome::Failed(why)) => on_actuated(
            lp,
            pending,
            Some(why),
            now,
        ),
        (PhaseView::Idle, Outcome::Elapsed) => Transition {
            next: LoopView { phase: PhaseView::Polling, ..lp },
            events: Seq::<Event>::empty(),
            task: Task::Poll(sensor_command_text(lp.tool)),
        },
        _ => Transition { next: lp, events: Seq::<Event>::empty(), task: awaited(lp) },
    }
}

/// Writes the log line that goes with telemetry.
pub fn telemetry_log(counts: (usize, usize), fans: &Vec<(String, i64)>) -> (s: String)
    ensures
        s@ == telemetry_log_text(counts, labelled(fans@)),
{
    let mut s = "GotCpuAndFansSpeed, active cpu num: ".to_owned();
    append_decimal(&mut s, counts.0 as u64);
    s.append(", max sockets num: ");
    append_decimal(&mut s, counts.1 as u64);
    s.append(", fans: ");
    let ghost head = s@;
    let ghost all = labelled(fans@);
    let mut i: usize = 0;
    assert(all.take(0) =~= Seq::<(Seq<char>, i64)>::empty());
    assert(s@ =~= head + fan_list_text(all.take(0)));
    while i < fans.len()
        invariant
            i <= fans.len(),
            all == labelled(fans@),
            s@ == head + fan_list_text(all.take(i as int)),
        decreases fans.len() - i,
    {
        let ghost before = s@;
        proof {
            assert(all.take(i + 1).drop_last() =~= all.take(i as int));
            assert(all.take(i + 1).last() == all[i as int]);
            assert(all[i as int] == (fans@[i as int].0@, fans@[i as int].1));
        }
        if i > 0 {
            s.append(", ");
        }
        s.append(fans[i].0.as_str());
        s.append(": ");
        append_milli(&mut s, fans[i].1);
        proof {
            if i > 0 {
                assert(s@ =~= before + ", "@ + fan_entry_text(all[i as int]));
                assert(s@ =~= head + (fan_list_text(all.take(i as int)) + ", "@ + fan_entry_text(
                    all[i as int],
                )));
            } else {
                assert(s@ =~= head + fan_entry_text(all[0]));
            }
        }
        i = i + 1;
    }
    assert(all.take(all.len() as int) =~= all);
    s
}

/// Writes the log line that goes with a fan setting.
pub fn actuation_log(peak: i64, duty: u8) -> (s: String)
    ensures
        s@ == actuation_log_text(peak, duty),
{
    let mut s = "SetFanSpeed, temp: ".to_owned();
    append_milli(&mut s, peak);
    s.append("℃, speed: ");
    append_decimal(&mut s, duty as u64);
    s.append("%");
    s
}

/// Writes the log line that goes with power draw.
pub fn power_log(count: usize) -> (s: String)
    ensures
        s@ == power_log_text(count as nat),
{
    let mut s = "Power data got, length is ".to_owned();
    append_decimal(&mut s, count as u64);
    s
}

impl ControlLoop {
    /// A loop that is about to poll for the first time, with nothing turned
    /// down yet.
    pub fn new(tool: String, curve: Vec<FanSpeed>, shell: Shell) -> (lp: Self)
        ensures
            lp@ == (LoopView {
                tool: tool@,
                curve: curve@,
                shell,
                state: ActuationState { secondary_fan_zone_disabled: false },
                phase: PhaseView::Polling,
            }),
    {
        ControlLoop { tool, curve, shell, state: ActuationState::new(), phase: Phase::Polling }
    }

    /// What the loop is waiting for: the driver starts with this.
    pub fn awaited(&self) -> (action: Action)
        ensures
            action@ == awaited(self@),
    {
        match &self.phase {
            Phase::Polling => Action::Poll(sensor_command(self.tool.as_str())),
            Phase::Actuating(pending) => Action::Actuate(pending.line.clone()),
            Phase::Idle => Action::Sleep(POLL_INTERVAL_MS),
        }
    }

    /// Ends a cycle in which no readings came in.
    fn fail_acquisition(&mut self, why: String, now: &str) -> (step: Step)
        ensures
            on_acquisition_failure(old(self)@, why@, now@) == (Transition {
                next: final(self)@,
                events: events_of(step.messages@),
                task: step.action@,
            }),
    {
        self.phase = Phase::Idle;
        let mut messages: Vec<Message> = Vec::new();
        messages.push(Message::Log(now.to_owned(), Level::Error, why));
        assert(events_of(messages@) =~= seq![Event::Log(now@, Level::Error, why@)]);
        Step { messages, action: Action::Sleep(POLL_INTERVAL_MS) }
    }

    /// Continues a cycle with the readings that came in.
    fn take_readings(&mut self, rows: &Vec<crate::sensor::SensorResult>, now: &str) -> (step: Step)
        ensures
            on_readings(old(self)@, readings_of(rows@), now@) == (Transition {
                next: final(self)@,
                events: events_of(step.messages@),
                task: step.action@,
            }),
    {
        let ghost readings = readings_of(rows@);
        let snapshot = TelemetrySnapshot::of(rows);
        let counts = (snapshot.active_cpu_count, snapshot.socket_ceiling);
        let peak = snapshot.peak_cpu_temp;
        proof {
            lemma_curve_duty_total(peak as int, self.curve@);
        }
        let duty = get_fan_speed(peak, self.curve.as_slice());
        let mut messages: Vec<Message> = Vec::new();
        messages.push(
            Message::Log(now.to_owned(), Level::Info, telemetry_log(counts, &snapshot.fan_speeds)),
        );
        messages.push(Message::GotCpuAndFansSpeed(now.to_owned(), counts, snapshot.fan_speeds));
        let line = set_fan_speed(duty, self.tool.as_str(), counts.0, &mut self.state, self.shell);
        let action = Action::Actuate(line.clone());
        self.phase = Phase::Actuating(
            Pending { time: now.to_owned(), peak, duty, powers: snapshot.power_readings, line },
        );
        assert(events_of(messages@) =~= on_readings(old(self)@, readings, now@).events);
        Step { messages, action }
    }

    /// Ends a cycle after its fan command.
    fn finish_actuation(&mut self, pending: Pending, failure: Option<String>, now: &str) -> (step:
        Step)
        ensures
            on_actuated(old(self)@, pending@, crate::sensor::text_of(failure), now@) == (Transition {
                next: final(self)@,
                events: events_of(step.messages@),
                task: step.action@,
            }),
    {
        self.phase = Phase::Idle;
        let mut messages: Vec<Message> = Vec::new();
        match failure {
            None => {
                messages.push(
                    Message::Log(
                        now.to_owned(),
                        Level::Info,
                        actuation_log(pending.peak, pending.duty),
                    ),
                );
                messages.push(
                    Message::SetFanSpeed(pending.time.clone(), pending.peak, pending.duty),
                );
            },
            Some(why) => {
                messages.push(Message::Log(now.to_owned(), Level::Error, why));
            },
        }
        assert(labelled(pending.powers@).len() == pending.powers@.len());
        messages.push(Message::Log(now.to_owned(), Level::Info, power_log(pending.powers.len())));
        messages.push(Message::Power(pending.time, pending.powers));
        assert(events_of(messages@) =~= on_actuated(
            old(self)@,
            pending@,
            crate::sensor::text_of(failure),
            now@,
        ).events);
        Step { messages, action: Action::Sleep(POLL_INTERVAL_MS) }
    }

    /// Takes one step: reports `event` to the loop at the time of day `now`
    /// and returns the messages for the display and what to do next.
    pub fn step_at(&mut self, event: LoopEvent, now: &str) -> (step: Step)
        ensures
            transition(old(self)@, event@, now@) == (Transition {
                next: final(self)@,
                events: events_of(step.messages@),
                task: step.action@,
            }),
            old(self)@.phase is Polling && is_failure(event@) ==> {
                &&& step.messages@.len() == 1
                &&& step.messages@[0]@ is Log
                &&& step.messages@[0]@->Log_1 == Level::Error
                &&& step.action@ == Task::Sleep(POLL_INTERVAL_MS)
                &&& final(self)@ == at_rest(old(self)@)
            },
    {
        proof {
            if old(self)@.phase is Polling && is_failure(event@) {
                lemma_failed_acquisition_skips_cycle(old(self)@, event@, now@);
            }
        }
        let step = self.step_inner(event, now);
        proof {
            assert(events_of(step.messages@).len() == step.messages@.len());
            if step.messages@.len() > 0 {
                assert(events_of(step.messages@)[0] == step.messages@[0]@);
            }
        }
        step
    }

    /// Takes the step that the phase and the event call for.
    fn step_inner(&mut self, event: LoopEvent, now: &str) -> (step: Step)
        ensures
            transition(old(self)@, event@, now@) == (Transition {
                next: final(self)@,
                events: events_of(step.messages@),
                task: step.action@,
            }),
    {
        let mut phase = Phase::Idle;
        std::mem::swap(&mut self.phase, &mut phase);
        match (phase, event) {
            (Phase::Polling, LoopEvent::Finished(output)) => {
                self.phase = Phase::Polling;
                match get_all_sensor_data(self.tool.as_str(), &output) {
                    Ok(rows) => self.take_readings(&rows, now),
                    Err(e) => self.fail_acquisition(e.to_string(), now),
                }
            },
            (Phase::Polling, LoopEvent::Failed(why)) => {
                self.phase = Phase::Polling;
                self.fail_acquisition(why, now)
            },
            (Phase::Actuating(pending), LoopEvent::Finished(output)) => {
                let failure = match check_fan_speed(pending.line.as_str(), &output) {
                    Ok(()) => None,
                    Err(e) => Some(e.to_string()),
                };
                self.phase = Phase::Polling;
                self.finish_actuation(pending, failure, now)
            },
            (Phase::Actuating(pending), LoopEvent::Failed(why)) => {
                self.phase = Phase::Polling;
                self.finish_actuation(pending, Some(why), now)
            },
            (Phase::Idle, LoopEvent::Elapsed) => {
                self.phase = Phase::Polling;
                let messages: Vec<Message> = Vec::new();
                assert(events_of(messages@) =~= Seq::<Event>::empty());
                Step { messages, action: Action::Poll(sensor_command(self.tool.as_str())) }
            },
            (waiting, _) => {
                self.phase = waiting;
                let messages: Vec<Message> = Vec::new();
                assert(events_of(messages@) =~= Seq::<Event>::empty());
                Step { messages, action: self.awaited() }
            },
        }
    }
}

impl ControlLoop {
    /// Takes one step at the time of day that the clock shows: reports
    /// `event` to the loop and returns the messages for the display and what
    /// to do next. Whatever the clock says, the step is the one that the
    /// transition gives for that time.
    pub fn step(&mut self, event: LoopEvent) -> (step: Step)
        ensures
            exists|now: Seq<char>|
                transition(old(self)@, event@, now) == (Transition {
                    next: final(self)@,
                    events: events_of(step.messages@),
                    task: step.action@,
                }),
    {
        let now = crate::clock::clock_text();
        self.step_at(event, now.as_str())
    }
}

/// Whether an outcome reports that a command did not succeed: it could not
/// be run, or it ended with anything but exit status zero.
pub open spec fn is_failure(outcome: Outcome) -> bool {
    match outcome {
        Outcome::Finished(status, _, _) => status != Some(0i32),
        Outcome::Failed(_) => true,
        Outcome::Elapsed => false,
    }
}

/// A cycle whose acquisition fails sends exactly one message, an error log
/// line, and none on telemetry, fan setting or power; it plans no fan
/// command and leaves what the actuation step remembers; and the loop rests
/// for the full interval.
pub proof fn lemma_failed_acquisition_skips_cycle(lp: LoopView, outcome: Outcome, now: Seq<char>)
    requires
        lp.phase is Polling,
        is_failure(outcome),
    ensures
        transition(lp, outcome, now).events.len() == 1,
        transition(lp, outcome, now).events[0] is Log,
        transition(lp, outcome, now).events[0]->Log_1 == Level::Error,
        transition(lp, outcome, now).task == Task::Sleep(POLL_INTERVAL_MS),
        transition(lp, outcome, now).next == at_rest(lp),
{
}

/// A loop at rest polls again when the rest is over, and at nothing else:
/// any other report leaves it at rest, silent, and asking for the full
/// interval.
pub proof fn lemma_rest_ends_only_by_elapsing(lp: LoopView, outcome: Outcome, now: Seq<char>)
    requires
        lp.phase is Idle,
    ensures
        outcome is Elapsed ==> transition(lp, outcome, now).next.phase is Polling && transition(
            lp,
            outcome,
            now,
        ).task == Task::Poll(sensor_command_text(lp.tool)),
        !(outcome is Elapsed) ==> transition(lp, outcome, now).next == lp && transition(
            lp,
            outcome,
            now,
        ).task == Task::Sleep(POLL_INTERVAL_MS),
        transition(lp, outcome, now).events.len() == 0,
{
}

/// No step sends more than four messages, changes the tool, the curve or the
/// shell, or clears the actuation flag once it is set; and what a step asks
/// for is what the loop then waits for.
pub proof fn lemma_step_keeps_loop(lp: LoopView, outcome: Outcome, now: Seq<char>)
    ensures
        transition(lp, outcome, now).events.len() <= 4,
        transition(lp, outcome, now).next.tool == lp.tool,
        transition(lp, outcome, now).next.curve == lp.curve,
        transition(lp, outcome, now).next.shell == lp.shell,
        lp.state.secondary_fan_zone_disabled ==> transition(
            lp,
            outcome,
            now,
        ).next.state.secondary_fan_zone_disabled,
        transition(lp, outcome, now).task == awaited(transition(lp, outcome, now).next),
{
}

/// Telemetry never reports more running processors than sockets, nor fewer
/// than two sockets.
pub proof fn lemma_telemetry_counts_are_sound(lp: LoopView, readings: Seq<Reading>, now: Seq<char>)
    ensures
        on_readings(lp, readings, now).events[1] is GotCpuAndFansSpeed,
        on_readings(lp, readings, now).events[1]->GotCpuAndFansSpeed_1.0 <= on_readings(
            lp,
            readings,
            now,
        ).events[1]->GotCpuAndFansSpeed_1.1,
        on_readings(lp, readings, now).events[1]->GotCpuAndFansSpeed_1.1 >= 2,
{
    crate::fan::lemma_tally_is_highest(socket_entries(readings));
}

} // verus!
