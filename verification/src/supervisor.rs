//! The per-run lifecycle: planning a start, recording the lines the child
//! produces (each line is emitted as an output event and appended to the
//! run's log), and the exit transition that releases the registry entry,
//! forces the final log compaction and yields the exit event.
//!
//! The embedding program drives a run as follows: under the registry lock it
//! calls `prepare_run` and, after a successful spawn, `try_register`; the
//! stream pumps feed every decoded line to `record_line` (serialized by one
//! lock per run) and perform the file writes the calls hand back; the exit
//! watcher calls `finish` once the child is gone. A stop request is the
//! registry's `lookup`: the caller signals the returned process id and does
//! not wait — the exit watcher alone completes the run.

use vstd::prelude::*;
use vstd::string::StringExecFns;

use crate::logbuf::LOG_CAPACITY;
use crate::logbuf::LogBuffer;
use crate::logbuf::REWRITE_INTERVAL;
use crate::logbuf::tail_capped;
use crate::naming::log_dir_name;
use crate::naming::log_dir_name_of;
use crate::naming::log_file_name;
use crate::naming::log_file_name_of;
use crate::naming::project_display_name;
use crate::naming::project_name_of;
use crate::registry::AlreadyRunning;
use crate::registry::ProcessState;
use crate::resolver::Platform;
use crate::resolver::ResolvedCommand;
use crate::resolver::ResolverProbe;
use crate::resolver::resolve_command;

verus! {

/// Which output stream of the child a line came from.
#[derive(Clone, Copy, PartialEq, Eq, Structural, Debug)]
pub enum StreamKind {
    Stdout,
    Stderr,
}

impl StreamKind {
    /// The tag output events carry for this stream.
    pub fn tag(&self) -> (r: &'static str)
        ensures
            self is Stdout ==> r@ == "stdout"@,
            self is Stderr ==> r@ == "stderr"@,
    {
        match self {
            StreamKind::Stdout => "stdout",
            StreamKind::Stderr => "stderr",
        }
    }
}

/// One line of child output, as handed to the event transport.
pub struct OutputEvent {
    pub id: String,
    pub stream: StreamKind,
    pub line: String,
}

/// The terminal event of a run, fired exactly once by the exit transition.
pub struct ExitEvent {
    pub id: String,
}

/// Ghost record of one emitted output event of a run.
pub ghost struct EmittedLine {
    pub on_stderr: bool,
    pub line: Seq<char>,
}

/// The form in which an emitted line lands in the log: a line from the
/// error stream carries a fixed marker so the two streams stay
/// distinguishable when interleaved in one file.
pub open spec fn logged_form(e: EmittedLine) -> Seq<char> {
    if e.on_stderr {
        "ERR: "@ + e.line
    } else {
        e.line
    }
}

/// What the embedding program must do to the backing file after one
/// recorded line: append `append_line` (the logged form of the line), then,
/// when `rewrite` holds contents, truncate the file and rewrite it from
/// exactly those lines.
pub struct LogDirective {
    pub append_line: String,
    pub rewrite: Option<Vec<String>>,
}

/// The log and event state of one live run.
pub struct RunSession {
    id: String,
    log: LogBuffer,
    emitted: Ghost<Seq<EmittedLine>>,
}

impl RunSession {
    /// The run id this session belongs to.
    pub closed spec fn id_view(&self) -> Seq<char> {
        self.id@
    }

    /// Every output event emitted for this run, in emission order.
    pub closed spec fn emitted(&self) -> Seq<EmittedLine> {
        self.emitted@
    }

    /// Every line appended to this run's log, in order.
    pub closed spec fn log_history(&self) -> Seq<Seq<char>> {
        self.log.history()
    }

    /// Appends to the log since its last file rewrite.
    pub closed spec fn pending(&self) -> int {
        self.log.pending()
    }

    /// The log history is exactly the emitted events in their logged form.
    pub closed spec fn wf(&self) -> bool {
        &&& self.log.wf()
        &&& self.log.history() == self.emitted@.map_values(|e: EmittedLine| logged_form(e))
    }

    /// A fresh session: nothing emitted, nothing logged.
    pub fn new(id: String) -> (s: RunSession)
        ensures
            s.wf(),
            s.id_view() == id@,
            s.emitted() == Seq::<EmittedLine>::empty(),
            s.log_history() == Seq::<Seq<char>>::empty(),
            s.pending() == 0,
    {
        let s = RunSession { id, log: LogBuffer::new(), emitted: Ghost(Seq::empty()) };
        proof {
            assert(s.emitted@.map_values(|e: EmittedLine| logged_form(e)) =~= Seq::<
                Seq<char>,
            >::empty());
        }
        s
    }

    /// Records one line of output: returns the output event to emit (the
    /// raw line, tagged with its stream) and appends the logged form to the
    /// log, handing back rewrite contents whenever the log's rewrite
    /// interval is reached.
    pub fn record_line(&mut self, on_stderr: bool, line: String) -> (r: (
        OutputEvent,
        LogDirective,
    ))
        requires
            old(self).wf(),
        ensures
            final(self).wf(),
            final(self).id_view() == old(self).id_view(),
            final(self).emitted() == old(self).emitted().push(
                EmittedLine { on_stderr, line: line@ },
            ),
            final(self).log_history() == old(self).log_history().push(
                logged_form(EmittedLine { on_stderr, line: line@ }),
            ),
            r.0.id@ == old(self).id_view(),
            (r.0.stream is Stderr) == on_stderr,
            r.0.line@ == line@,
            r.1.append_line@ == logged_form(EmittedLine { on_stderr, line: line@ }),
            match r.1.rewrite {
                Some(content) => {
                    &&& old(self).pending() == REWRITE_INTERVAL as int - 1
                    &&& final(self).pending() == 0
                    &&& content@.map_values(|s: String| s@) == tail_capped(
                        final(self).log_history(),
                    )
                },
                None => {
                    &&& old(self).pending() < REWRITE_INTERVAL as int - 1
                    &&& final(self).pending() == old(self).pending() + 1
                },
            },
    {
        let ev_line = line.clone();
        let logged: String = if on_stderr {
            let mut marked = String::from_str("ERR: ");
            marked.append(line.as_str());
            marked
        } else {
            line
        };
        let append_line = logged.clone();
        let rewrite = self.log.append(logged);
        self.emitted = Ghost(self.emitted@.push(EmittedLine { on_stderr, line: ev_line@ }));
        proof {
            assert(self.log.history() =~= self.emitted@.map_values(
                |e: EmittedLine| logged_form(e),
            ));
        }
        let stream = if on_stderr {
            StreamKind::Stderr
        } else {
            StreamKind::Stdout
        };
        let ev = OutputEvent { id: self.id.clone(), stream, line: ev_line };
        (ev, LogDirective { append_line, rewrite })
    }

    /// The exit transition of a run, driven only by the exit watcher once
    /// the child is gone: releases the registry entry, forces the final log
    /// compaction, and yields the exit event. The registry stops reporting
    /// the id in the same step that produces the event, so the event is
    /// never observable while the registry still reports the run as active.
    pub fn finish(self, reg: &mut ProcessState) -> (r: (Vec<String>, ExitEvent))
        requires
            self.wf(),
            old(reg).wf(),
        ensures
            final(reg).wf(),
            final(reg)@ == old(reg)@.remove(self.id_view()),
            !final(reg)@.contains_key(self.id_view()),
            r.1.id@ == self.id_view(),
            r.0@.map_values(|s: String| s@) == tail_capped(self.log_history()),
    {
        let mut sess = self;
        reg.unregister(&sess.id);
        let content = sess.log.compact();
        let ev = ExitEvent { id: sess.id };
        (content, ev)
    }
}

/// Everything the embedding program needs to start one run: the names of
/// the log directory and file, the resolved shell invocation, and the
/// diagnostic first line, which is emitted and logged before the spawn so
/// it survives even an immediate spawn failure.
pub struct RunPlan {
    pub log_dir: String,
    pub log_file: String,
    pub command: ResolvedCommand,
    pub first_line: String,
}

impl RunPlan {
    /// The plan's contract with respect to the run request it was built
    /// from.
    pub open spec fn obeys(
        &self,
        manifest: Option<Seq<char>>,
        project_path: Seq<char>,
        script: Seq<char>,
        package_manager: Seq<char>,
        node_path: Seq<char>,
        probe: ResolverProbe,
        platform: Platform,
        inherited: Seq<char>,
    ) -> bool {
        &&& self.log_dir@ == log_dir_name_of(project_name_of(manifest, project_path))
        &&& self.log_file@ == log_file_name_of(script)
        &&& self.command.is_resolution_for(
            platform,
            node_path,
            probe,
            package_manager,
            script,
            inherited,
        )
        &&& self.first_line@ == "Executing: "@ + self.command.command_line@
    }
}

/// Plans one run: refused, before any other work, exactly when the id is
/// already registered; otherwise derives the log names and resolves the
/// command. Called under the registry lock, so the check and the later
/// registration form one critical section.
pub fn prepare_run(
    reg: &ProcessState,
    id: &String,
    manifest: Option<&String>,
    project_path: &str,
    script: &str,
    package_manager: &str,
    node_path: &str,
    probe: &ResolverProbe,
    platform: Platform,
    inherited_path: &str,
) -> (r: Result<RunPlan, AlreadyRunning>)
    requires
        reg.wf(),
    ensures
        (r is Err) <==> reg@.contains_key(id@),
        manifest is Some ==> (r matches Ok(plan) ==> plan.obeys(
            Some(manifest->0@),
            project_path@,
            script@,
            package_manager@,
            node_path@,
            *probe,
            platform,
            inherited_path@,
        )),
        manifest is None ==> (r matches Ok(plan) ==> plan.obeys(
            None,
            project_path@,
            script@,
            package_manager@,
            node_path@,
            *probe,
            platform,
            inherited_path@,
        )),
{
    if reg.lookup(id).is_some() {
        return Err(AlreadyRunning);
    }
    let name = project_display_name(manifest, project_path);
    let log_dir = log_dir_name(name.as_str());
    let log_file = log_file_name(script);
    let command = resolve_command(
        platform,
        node_path,
        probe,
        package_manager,
        script,
        inherited_path,
    );
    let mut first_line = String::from_str("Executing: ");
    first_line.append(command.command_line.as_str());
    Ok(RunPlan { log_dir, log_file, command, first_line })
}

/// For every run id: while an entry for the id is registered, a second
/// registration of the same id is refused (`try_register` refuses exactly
/// the registered ids), and once the exit transition has removed the entry
/// the id is registrable again.
pub proof fn lemma_second_start_refused_until_exit(
    m: Map<Seq<char>, u32>,
    id: Seq<char>,
    pid: u32,
)
    requires
        !m.contains_key(id),
    ensures
        m.insert(id, pid).contains_key(id),
        !m.insert(id, pid).remove(id).contains_key(id),
{
}

/// Every line emitted as an output event of a run stands at the same
/// position in that run's log history — hence in the same relative order
/// within its own stream — in its logged form (the stderr marker allowed
/// for).
pub proof fn lemma_output_log_round_trip(s: RunSession)
    requires
        s.wf(),
    ensures
        s.log_history().len() == s.emitted().len(),
        forall|i: int|
            0 <= i < s.emitted().len() ==> s.log_history()[i] == logged_form(s.emitted()[i]),
{
}

/// For a run of at most `LOG_CAPACITY` emitted lines, the file persisted by
/// the final compaction holds exactly the logged form of every emitted
/// line, in emission order.
pub proof fn lemma_round_trip_persisted(s: RunSession)
    requires
        s.wf(),
        s.emitted().len() <= LOG_CAPACITY as int,
    ensures
        tail_capped(s.log_history()) == s.emitted().map_values(|e: EmittedLine| logged_form(e)),
{
}

/// The exit transition removes the registry entry in the same step that
/// yields the exit event: no registry state an exit event was derived from
/// still reports the run's id as active.
pub proof fn lemma_exit_after_release(m: Map<Seq<char>, u32>, id: Seq<char>)
    ensures
        !m.remove(id).contains_key(id),
{
}

} // verus!
