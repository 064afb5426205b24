//! The supervision core of one running job: it owns the job's accumulated
//! summaries, classifies each output line, keeps the registry up to date and
//! says which events to emit.  The surrounding program does only the outside
//! work — spawning, draining the streams, and delivering the events — and
//! feeds every line and the final exit code through these functions.
use vstd::prelude::*;
use vstd::string::StringExecFns;

use crate::command::ParseCommand;
use crate::events::{
    ParseEvent, ParseEventModel, StreamKind, Summary, SummaryModel,
};
use crate::parse::{
    converting_line_spec, duration_ms_of_line, elapsed_ms_of_line, summary_line_spec,
    to_parse_event_spec, try_converting_line, try_duration_line, try_percent_line,
    try_summary_line, ConvertStatusLine,
};
use crate::registry::{
    contains_id, duration_set, percent_step, remove_id, ParseTask, TaskModel, TaskRegistry,
};

verus! {

/// Per-job delivery options: whether raw output lines are passed through as
/// events.
pub struct TaskOptions {
    pub need_std_output: Option<bool>,
}

/// The state one job's supervisor carries between lines: the job id, the
/// raw-passthrough flag, and the summaries accumulated so far in emission
/// order.
pub struct ParseSession {
    id: String,
    need_std_output: bool,
    summaries: Vec<Summary>,
}

/// The mathematical content of a `ParseSession`.
pub struct SessionModel {
    pub id: Seq<char>,
    pub need_std_output: bool,
    pub summaries: Seq<SummaryModel>,
}

impl View for ParseSession {
    type V = SessionModel;

    closed spec fn view(&self) -> SessionModel {
        SessionModel {
            id: self.id@,
            need_std_output: self.need_std_output,
            summaries: self.summaries.deep_view(),
        }
    }
}

/// What one standard-output line does to the session: a file-status event
/// where the line reports one, the summary appended where the line carries
/// one, and the raw line echoed last when passthrough is on.
pub open spec fn stdout_step(sess: SessionModel, line: Seq<char>) -> (
    SessionModel,
    Seq<ParseEventModel>,
) {
    let file_evs = match converting_line_spec(line) {
        Some(m) => seq![to_parse_event_spec(m, sess.id)],
        None => Seq::empty(),
    };
    let new_summaries = match summary_line_spec(line) {
        Some(sm) => sess.summaries.push(sm),
        None => sess.summaries,
    };
    let raw_evs = if sess.need_std_output {
        seq![
            ParseEventModel::StdOutput {
                id: sess.id,
                kind: StreamKind::Stdout,
                content: line,
            },
        ]
    } else {
        Seq::empty()
    };
    (SessionModel { summaries: new_summaries, ..sess }, file_evs + raw_evs)
}

/// What one standard-error line does to the registry: the declared duration
/// recorded where the line declares one, then the elapsed report applied,
/// with its percent event (if any) before the raw echo.
pub open spec fn stderr_step(reg: Seq<TaskModel>, sess: SessionModel, line: Seq<char>) -> (
    Seq<TaskModel>,
    Seq<ParseEventModel>,
) {
    let reg1 = match duration_ms_of_line(line) {
        Some(d) => duration_set(reg, sess.id, d),
        None => reg,
    };
    let stepped = match elapsed_ms_of_line(line) {
        Some(e) => percent_step(reg1, sess.id, e),
        None => (reg1, None),
    };
    let pct_evs = match stepped.1 {
        Some(p) => seq![ParseEventModel::PercentProgress { id: sess.id, percent: p }],
        None => Seq::empty(),
    };
    let raw_evs = if sess.need_std_output {
        seq![
            ParseEventModel::StdOutput {
                id: sess.id,
                kind: StreamKind::Stderr,
                content: line,
            },
        ]
    } else {
        Seq::empty()
    };
    (stepped.0, pct_evs + raw_evs)
}

/// The registry, session and emitted events after a whole sequence of output
/// lines, each tagged with the stream it arrived on, fed in order.
pub open spec fn line_trace(
    reg: Seq<TaskModel>,
    sess: SessionModel,
    lines: Seq<(StreamKind, Seq<char>)>,
) -> (Seq<TaskModel>, SessionModel, Seq<ParseEventModel>)
    decreases lines.len(),
{
    if lines.len() == 0 {
        (reg, sess, Seq::empty())
    } else if lines[0].0 == StreamKind::Stdout {
        let st = stdout_step(sess, lines[0].1);
        let rest = line_trace(reg, st.0, lines.drop_first());
        (rest.0, rest.1, st.1 + rest.2)
    } else {
        let st = stderr_step(reg, sess, lines[0].1);
        let rest = line_trace(st.0, sess, lines.drop_first());
        (rest.0, rest.1, st.1 + rest.2)
    }
}

/// An event of the running phase: neither the opening `Started` nor the
/// terminal `Finished`.
pub open spec fn is_running_event(ev: ParseEventModel) -> bool {
    !(ev is Started) && !(ev is Finished)
}

/// Every event the output lines produce belongs to the running phase.
proof fn lemma_line_trace_events_running(
    reg: Seq<TaskModel>,
    sess: SessionModel,
    lines: Seq<(StreamKind, Seq<char>)>,
)
    ensures
        forall|x: int|
            0 <= x < line_trace(reg, sess, lines).2.len() ==> is_running_event(
                #[trigger] line_trace(reg, sess, lines).2[x],
            ),
    decreases lines.len(),
{
    if lines.len() > 0 {
        let line = lines[0].1;
        if lines[0].0 == StreamKind::Stdout {
            let st = stdout_step(sess, line);
            lemma_line_trace_events_running(reg, st.0, lines.drop_first());
            let rest = line_trace(reg, st.0, lines.drop_first());
            assert forall|x: int| 0 <= x < st.1.len() implies is_running_event(
                #[trigger] st.1[x],
            ) by {
                match converting_line_spec(line) {
                    Some(m) => {
                        assert(st.1[0] == to_parse_event_spec(m, sess.id));
                        assert(is_running_event(to_parse_event_spec(m, sess.id)));
                    },
                    None => {},
                }
            }
            assert forall|x: int|
                0 <= x < line_trace(reg, sess, lines).2.len() implies is_running_event(
                #[trigger] line_trace(reg, sess, lines).2[x],
            ) by {
                if x < st.1.len() {
                    assert(line_trace(reg, sess, lines).2[x] == st.1[x]);
                } else {
                    assert(line_trace(reg, sess, lines).2[x] == rest.2[x - st.1.len()]);
                }
            }
        } else {
            let st = stderr_step(reg, sess, line);
            lemma_line_trace_events_running(st.0, sess, lines.drop_first());
            let rest = line_trace(st.0, sess, lines.drop_first());
            assert(forall|x: int| 0 <= x < st.1.len() ==> is_running_event(#[trigger] st.1[x]));
            assert forall|x: int|
                0 <= x < line_trace(reg, sess, lines).2.len() implies is_running_event(
                #[trigger] line_trace(reg, sess, lines).2[x],
            ) by {
                if x < st.1.len() {
                    assert(line_trace(reg, sess, lines).2[x] == st.1[x]);
                } else {
                    assert(line_trace(reg, sess, lines).2[x] == rest.2[x - st.1.len()]);
                }
            }
        }
    }
}

/// Law: one supervised job's whole event stream — the `Started` event that
/// opening the job emits, the events its output lines produce, and the
/// `Finished` event that closing it emits — opens with its only `Started`,
/// closes with its only `Finished`, and holds nothing but running-phase
/// events in between, whatever the process prints.
pub proof fn lemma_supervised_stream_shape(
    reg: Seq<TaskModel>,
    sess: SessionModel,
    lines: Seq<(StreamKind, Seq<char>)>,
    success: bool,
)
    ensures
        ({
            let mids = line_trace(reg, sess, lines).2;
            let full = seq![ParseEventModel::Started { id: sess.id }] + mids + seq![
                ParseEventModel::Finished {
                    id: sess.id,
                    success,
                    summaries: line_trace(reg, sess, lines).1.summaries,
                },
            ];
            &&& full.len() == mids.len() + 2
            &&& full[0] is Started
            &&& full[full.len() - 1] is Finished
            &&& forall|x: int| 0 < x < full.len() - 1 ==> is_running_event(#[trigger] full[x])
        }),
{
    lemma_line_trace_events_running(reg, sess, lines);
    let mids = line_trace(reg, sess, lines).2;
    let full = seq![ParseEventModel::Started { id: sess.id }] + mids + seq![
        ParseEventModel::Finished {
            id: sess.id,
            success,
            summaries: line_trace(reg, sess, lines).1.summaries,
        },
    ];
    assert forall|x: int| 0 < x < full.len() - 1 implies is_running_event(#[trigger] full[x]) by {
        assert(full[x] == mids[x - 1]);
    }
}

impl ParseSession {
    /// Opens the supervision of a freshly spawned job: registers it with a
    /// zero duration and percentage and hands back the session with the
    /// `Started` event.  A taken id is refused and nothing is registered;
    /// a fresh id is never taken.
    pub fn begin(
        registry: &mut TaskRegistry,
        id: String,
        pid: u32,
        command: ParseCommand,
        options: TaskOptions,
    ) -> (r: Option<(ParseSession, ParseEvent)>)
        requires
            old(registry).wf(),
        ensures
            final(registry).wf(),
            match r {
                Some(se) => !contains_id(old(registry)@, id@) && final(registry)@ == old(
                    registry,
                )@.push(
                    TaskModel { id: id@, pid, command: command@, duration: 0, percent: 0 },
                ) && se.0@ == (SessionModel {
                    id: id@,
                    need_std_output: options.need_std_output == Some(true),
                    summaries: Seq::empty(),
                }) && se.1@ == (ParseEventModel::Started { id: id@ }),
                None => contains_id(old(registry)@, id@) && final(registry)@ == old(registry)@,
            },
    {
        let task = ParseTask { id: id.clone(), pid, command, duration: 0, percent: 0 };
        if registry.register(task) {
            let need_std_output = match options.need_std_output {
                Some(b) => b,
                None => false,
            };
            let ev = ParseEvent::Started { id: id.clone() };
            let session = ParseSession { id, need_std_output, summaries: Vec::new() };
            proof {
                assert(session@.summaries =~= Seq::<SummaryModel>::empty());
            }
            Some((session, ev))
        } else {
            None
        }
    }

    /// The job id this session supervises.
    pub fn id(&self) -> (r: &str)
        ensures
            r@ == self@.id,
    {
        self.id.as_str()
    }

    /// Feeds one line of the child's standard output: emits the file-status
    /// event the line reports, keeps the summary it carries, and echoes the
    /// raw line when passthrough is on.
    pub fn on_stdout_line(&mut self, line: &str) -> (evs: Vec<ParseEvent>)
        ensures
            final(self)@ == stdout_step(old(self)@, line@).0,
            evs.deep_view() == stdout_step(old(self)@, line@).1,
    {
        let mut evs: Vec<ParseEvent> = Vec::new();
        match try_converting_line(line) {
            Some(status) => {
                evs.push(ConvertStatusLine::to_parse_event(&status, self.id.as_str()));
            },
            None => {},
        }
        match try_summary_line(line) {
            Some(sm) => {
                self.summaries.push(sm);
            },
            None => {},
        }
        if self.need_std_output {
            evs.push(
                ParseEvent::StdOutput {
                    id: self.id.clone(),
                    kind: StreamKind::Stdout,
                    content: String::from_str(line),
                },
            );
        }
        proof {
            assert(self@.summaries =~= stdout_step(old(self)@, line@).0.summaries);
            assert(evs.deep_view() =~= stdout_step(old(self)@, line@).1);
        }
        evs
    }

    /// Feeds one line of the child's standard error: records a declared
    /// duration, applies an elapsed report to the registry, and emits the
    /// percent event where one is due, then the raw echo when passthrough is
    /// on.
    pub fn on_stderr_line(&self, registry: &mut TaskRegistry, line: &str) -> (evs: Vec<
        ParseEvent,
    >)
        requires
            old(registry).wf(),
        ensures
            final(registry).wf(),
            final(registry)@ == stderr_step(old(registry)@, self@, line@).0,
            evs.deep_view() == stderr_step(old(registry)@, self@, line@).1,
    {
        match try_duration_line(line) {
            Some(d) => {
                registry.set_duration(self.id.as_str(), d);
            },
            None => {},
        }
        let mut evs: Vec<ParseEvent> = Vec::new();
        match try_percent_line(line) {
            Some(e) => {
                match registry.update_percent(self.id.as_str(), e) {
                    Some(p) => {
                        evs.push(ParseEvent::PercentProgress { id: self.id.clone(), percent: p });
                    },
                    None => {},
                }
            },
            None => {},
        }
        if self.need_std_output {
            evs.push(
                ParseEvent::StdOutput {
                    id: self.id.clone(),
                    kind: StreamKind::Stderr,
                    content: String::from_str(line),
                },
            );
        }
        proof {
            assert(evs.deep_view() =~= stderr_step(old(registry)@, self@, line@).1);
        }
        evs
    }

    /// Closes the job when its process has exited: removes it from the
    /// registry — the only path to removal, taken exactly once — and emits
    /// the terminal event with the success flag (exit code zero) and the
    /// accumulated summaries.
    pub fn finish(self, registry: &mut TaskRegistry, exit_code: Option<i32>) -> (ev: ParseEvent)
        requires
            old(registry).wf(),
        ensures
            final(registry).wf(),
            final(registry)@ == remove_id(old(registry)@, self@.id),
            ev@ == (ParseEventModel::Finished {
                id: self@.id,
                success: exit_code == Some(0i32),
                summaries: self@.summaries,
            }),
    {
        registry.remove_task(self.id.as_str());
        let success = match exit_code {
            Some(code) => code == 0,
            None => false,
        };
        ParseEvent::Finished { id: self.id, success, summaries: self.summaries }
    }
}

} // verus!
