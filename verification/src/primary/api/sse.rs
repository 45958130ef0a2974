//! Events that clients follow while something is under way.
use crate::config::{LogLine, LogStream, NodeId};
use crate::json::{member, member_text, object, object_text, quoted, string_member};
use crate::text::texts;
use crate::util::{date_of, format_system_time, timestamp};
use vstd::prelude::*;
use vstd::string::*;

verus! {

/// An SSE event to be sent to clients.
#[derive(Debug, PartialEq, Eq)]
pub struct SseEvent {
    pub event: String,
    pub data: String,
}

/// How far something has come.
#[derive(Debug, PartialEq, Eq)]
pub enum Progress {
    Started,
    StartedService { service: String },
    Pulling,
    Scheduled { service: String, node: NodeId },
    Starting { service: String },
    Healthy { service: String },
    Migrated { service: String },
    Stopped { service: String },
    Failed { service: String, reason: String },
    Aborted { reason: String },
    Deployed { success: bool },
    Done,
}

/// `true` or `false`.
pub open spec fn truth(b: bool) -> Seq<char> {
    if b {
        "true"@
    } else {
        "false"@
    }
}

impl Progress {
    /// The kind of event.
    pub open spec fn event(self) -> Seq<char> {
        match self {
            Progress::Failed { .. } => "failed"@,
            Progress::Aborted { .. } => "failed"@,
            Progress::Deployed { .. } => "done"@,
            Progress::Done => "done"@,
            _ => "progress"@,
        }
    }

    /// The members of the event's object, in the order of their keys.
    /// `elapsed` is the number of seconds since the start.
    pub open spec fn members(self, elapsed: Seq<char>) -> Seq<Seq<char>> {
        match self {
            Progress::Started => seq![member("phase"@, quoted("started"@))],
            Progress::StartedService { service } => seq![
                member("phase"@, quoted("started"@)),
                member("service"@, quoted(service@)),
            ],
            Progress::Pulling => seq![member("phase"@, quoted("pulling"@))],
            Progress::Scheduled { service, node } => seq![
                member("node"@, quoted(node@)),
                member("phase"@, quoted("scheduled"@)),
                member("service"@, quoted(service@)),
            ],
            Progress::Starting { service } => seq![
                member("phase"@, quoted("starting"@)),
                member("service"@, quoted(service@)),
            ],
            Progress::Healthy { service } => seq![
                member("elapsed"@, elapsed),
                member("phase"@, quoted("healthy"@)),
                member("service"@, quoted(service@)),
            ],
            Progress::Migrated { service } => seq![
                member("phase"@, quoted("migrated"@)),
                member("service"@, quoted(service@)),
            ],
            Progress::Stopped { service } => seq![
                member("phase"@, quoted("stopped"@)),
                member("service"@, quoted(service@)),
            ],
            Progress::Failed { service, reason } => seq![
                member("reason"@, quoted(reason@)),
                member("service"@, quoted(service@)),
            ],
            Progress::Aborted { reason } => seq![member("reason"@, quoted(reason@))],
            Progress::Deployed { success } => seq![
                member("elapsed"@, elapsed),
                member("success"@, truth(success)),
            ],
            Progress::Done => seq![member("elapsed"@, elapsed)],
        }
    }

    /// The event for clients. `elapsed` is the number of seconds since the
    /// start, as JSON writes it.
    pub fn to_event(&self, elapsed: &String) -> (res: SseEvent)
        ensures
            res.event@ == self.event(),
            res.data@ == object(self.members(elapsed@)),
    {
        let mut members: Vec<String> = Vec::new();
        let event = match self {
            Progress::Failed { .. } => "failed".to_owned(),
            Progress::Aborted { .. } => "failed".to_owned(),
            Progress::Deployed { .. } => "done".to_owned(),
            Progress::Done => "done".to_owned(),
            _ => "progress".to_owned(),
        };
        match self {
            Progress::Started => {
                members.push(string_member("phase", "started"));
            },
            Progress::StartedService { service } => {
                members.push(string_member("phase", "started"));
                members.push(string_member("service", service.as_str()));
            },
            Progress::Pulling => {
                members.push(string_member("phase", "pulling"));
            },
            Progress::Scheduled { service, node } => {
                members.push(string_member("node", node.0.as_str()));
                members.push(string_member("phase", "scheduled"));
                members.push(string_member("service", service.as_str()));
            },
            Progress::Starting { service } => {
                members.push(string_member("phase", "starting"));
                members.push(string_member("service", service.as_str()));
            },
            Progress::Healthy { service } => {
                members.push(member_text("elapsed", elapsed));
                members.push(string_member("phase", "healthy"));
                members.push(string_member("service", service.as_str()));
            },
            Progress::Migrated { service } => {
                members.push(string_member("phase", "migrated"));
                members.push(string_member("service", service.as_str()));
            },
            Progress::Stopped { service } => {
                members.push(string_member("phase", "stopped"));
                members.push(string_member("service", service.as_str()));
            },
            Progress::Failed { service, reason } => {
                members.push(string_member("reason", reason.as_str()));
                members.push(string_member("service", service.as_str()));
            },
            Progress::Aborted { reason } => {
                members.push(string_member("reason", reason.as_str()));
            },
            Progress::Deployed { success } => {
                members.push(member_text("elapsed", elapsed));
                let word = if *success {
                    "true".to_owned()
                } else {
                    "false".to_owned()
                };
                members.push(member_text("success", &word));
            },
            Progress::Done => {
                members.push(member_text("elapsed", elapsed));
            },
        }
        assert(texts(members@) =~= self.members(elapsed@));
        SseEvent { event, data: object_text(&members) }
    }
}

/// The word for an output.
pub open spec fn stream_word(stream: LogStream) -> Seq<char> {
    match stream {
        LogStream::Stdout => "stdout"@,
        LogStream::Stderr => "stderr"@,
    }
}

/// The members of the event for a log line, in the order of their keys.
pub open spec fn log_members(line: LogLine) -> Seq<Seq<char>> {
    let secs = line.timestamp.seconds_since_epoch();
    seq![
        member("line"@, quoted(line.content@)),
        member("stream"@, quoted(stream_word(line.stream))),
        member("ts"@, quoted(timestamp(date_of(secs), secs))),
    ]
}

/// Whether an event shows a log line. Such an event has no kind.
pub open spec fn shows_line(event: SseEvent, line: LogLine) -> bool {
    event.event@ == Seq::<char>::empty() && event.data@ == object(log_members(line))
}

/// The event for a log line.
pub fn log_event(line: &LogLine) -> (res: SseEvent)
    ensures
        shows_line(res, *line),
{
    let stream = match line.stream {
        LogStream::Stdout => "stdout".to_owned(),
        LogStream::Stderr => "stderr".to_owned(),
    };
    let mut members: Vec<String> = Vec::new();
    members.push(string_member("line", line.content.as_str()));
    members.push(string_member("stream", stream.as_str()));
    members.push(string_member("ts", format_system_time(&line.timestamp).as_str()));
    assert(texts(members@) =~= log_members(*line));
    SseEvent { event: String::new(), data: object_text(&members) }
}

/// The event for a name that no allocation answers to.
pub fn no_allocations_event(name: &String) -> (res: SseEvent)
    ensures
        res.event@ == "error"@,
        res.data@ == "no allocations found for '"@ + name@ + "'"@,
{
    let mut data = "no allocations found for '".to_owned();
    data.append(name.as_str());
    data.append("'");
    SseEvent { event: "error".to_owned(), data }
}

/// Clients can tell how something ended: only a failure is told as one, only an
/// end as an end, and everything else as progress.
pub proof fn events_tell_how_it_ended(progress: Progress)
    ensures
        progress.event() == "failed"@ <==> progress is Failed || progress is Aborted,
        progress.event() == "done"@ <==> progress is Deployed || progress is Done,
        progress.event() == "progress"@ <==> !(progress is Failed || progress is Aborted
            || progress is Deployed || progress is Done),
{
    reveal_strlit("failed");
    reveal_strlit("done");
    reveal_strlit("progress");
    assert("failed"@.len() != "done"@.len());
    assert("failed"@.len() != "progress"@.len());
    assert("done"@.len() != "progress"@.len());
}

/// An event about a service names it, under the key `service`; one about a
/// failure gives its reason; the one about a placement names the node; and the end
/// of a deploy tells whether it succeeded.
pub proof fn events_carry_what_they_are_about(progress: Progress, elapsed: Seq<char>)
    ensures
        progress matches Progress::Failed { service, reason } ==> progress.members(
            elapsed,
        ).contains(member("service"@, quoted(service@))) && progress.members(elapsed).contains(
            member("reason"@, quoted(reason@)),
        ),
        progress matches Progress::Aborted { reason } ==> progress.members(elapsed).contains(
            member("reason"@, quoted(reason@)),
        ),
        progress matches Progress::Scheduled { service, node } ==> progress.members(
            elapsed,
        ).contains(member("service"@, quoted(service@))) && progress.members(elapsed).contains(
            member("node"@, quoted(node@)),
        ) && progress.members(elapsed).contains(member("phase"@, quoted("scheduled"@))),
        progress matches Progress::StartedService { service } ==> progress.members(
            elapsed,
        ).contains(member("service"@, quoted(service@))) && progress.members(elapsed).contains(
            member("phase"@, quoted("started"@)),
        ),
        progress matches Progress::Starting { service } ==> progress.members(elapsed).contains(
            member("service"@, quoted(service@)),
        ) && progress.members(elapsed).contains(member("phase"@, quoted("starting"@))),
        progress matches Progress::Healthy { service } ==> progress.members(elapsed).contains(
            member("service"@, quoted(service@)),
        ) && progress.members(elapsed).contains(member("phase"@, quoted("healthy"@)))
            && progress.members(elapsed).contains(member("elapsed"@, elapsed)),
        progress matches Progress::Migrated { service } ==> progress.members(elapsed).contains(
            member("service"@, quoted(service@)),
        ) && progress.members(elapsed).contains(member("phase"@, quoted("migrated"@))),
        progress matches Progress::Stopped { service } ==> progress.members(elapsed).contains(
            member("service"@, quoted(service@)),
        ) && progress.members(elapsed).contains(member("phase"@, quoted("stopped"@))),
        progress is Started ==> progress.members(elapsed).contains(
            member("phase"@, quoted("started"@)),
        ),
        progress is Pulling ==> progress.members(elapsed).contains(
            member("phase"@, quoted("pulling"@)),
        ),
        progress == (Progress::Deployed { success: true }) ==> progress.members(elapsed).contains(
            member("success"@, "true"@),
        ),
        progress == (Progress::Deployed { success: false }) ==> progress.members(elapsed).contains(
            member("success"@, "false"@),
        ),
        progress is Deployed || progress is Done ==> progress.members(elapsed).contains(
            member("elapsed"@, elapsed),
        ),
{
    let all = progress.members(elapsed);
    assert(all.len() > 0 ==> all.contains(all[0]));
    assert(all.len() > 1 ==> all.contains(all[1]));
    assert(all.len() > 2 ==> all.contains(all[2]));
}

/// A line is shown with its own text, its own output and its own time.
pub proof fn lines_are_shown_as_written(event: SseEvent, line: LogLine)
    requires
        shows_line(event, line),
    ensures
        event.event@.len() == 0,
        exists|members: Seq<Seq<char>>|
            {
                &&& event.data@ == #[trigger] object(members)
                &&& members.contains(member("line"@, quoted(line.content@)))
                &&& line.stream is Stdout ==> members.contains(
                    member("stream"@, quoted("stdout"@)),
                )
                &&& line.stream is Stderr ==> members.contains(
                    member("stream"@, quoted("stderr"@)),
                )
                &&& line.timestamp.secs >= 0 ==> members.contains(
                    member(
                        "ts"@,
                        quoted(
                            timestamp(
                                date_of(line.timestamp.secs as int),
                                line.timestamp.secs as int,
                            ),
                        ),
                    ),
                )
            },
{
    let members = log_members(line);
    assert(members.contains(members[0]));
    assert(members.contains(members[1]));
    assert(members.contains(members[2]));
    assert(event.data@ == object(members));
}

} // verus!
