//! Running the script of a command frame: one RCON command after the other,
//! until the script ends or fails, and then one reply to the portal.
use crate::command::{command_script, law_refused_commands_are_not_run, script, step_views, text_field, CommandFrame, Step, StepView};
use crate::protocol::{field_views, put, Field, FieldView};
use crate::refusal::refusal;
use crate::text::{join, joined, result_text, same, texts};
use vstd::prelude::*;

verus! {

/// The answer to a command frame.
#[derive(Debug)]
pub struct Reply {
    pub id: String,
    pub result: Result<String, String>,
}

/// What the agent does next for a command frame.
pub enum Action {
    /// Run this console command and report what came back.
    Rcon(String),
    /// Send this answer; the frame is done.
    Reply(Reply),
}

/// What an action holds.
pub enum ActionView {
    Rcon(Seq<char>),
    Reply(Seq<char>, Result<Seq<char>, Seq<char>>),
}

impl View for Action {
    type V = ActionView;

    open spec fn view(&self) -> ActionView {
        match self {
            Action::Rcon(command) => ActionView::Rcon(command@),
            Action::Reply(reply) => ActionView::Reply(reply.id@, result_text(reply.result)),
        }
    }
}

/// A command frame that is being executed: its script, and the outputs of the
/// steps that have been run.
pub struct Execution {
    id: String,
    steps: Vec<Step>,
    outputs: Vec<String>,
}

/// What an execution holds.
pub struct ExecutionView {
    pub id: Seq<char>,
    pub steps: Seq<StepView>,
    pub outputs: Seq<Seq<char>>,
}

impl View for Execution {
    type V = ExecutionView;

    closed spec fn view(&self) -> ExecutionView {
        ExecutionView {
            id: self.id@,
            steps: step_views(self.steps@),
            outputs: texts(self.outputs@),
        }
    }
}

/// What is to be done next: the first step that has no output yet. Where every
/// step has one, the outputs are put together, a line each.
pub open spec fn pending(e: ExecutionView) -> ActionView {
    if e.outputs.len() >= e.steps.len() {
        ActionView::Reply(e.id, Ok(join(e.outputs, "\n"@)))
    } else {
        match e.steps[e.outputs.len() as int] {
            StepView::Run(command) => ActionView::Rcon(command),
            StepView::Fail(error) => ActionView::Reply(e.id, Err(error)),
        }
    }
}

/// The execution once the pending command has come back: an output is kept, an
/// error ends the script there. Nothing changes where no command was pending.
pub open spec fn after_result(
    e: ExecutionView,
    result: Result<Seq<char>, Seq<char>>,
) -> ExecutionView {
    if pending(e) is Rcon {
        match result {
            Ok(output) => ExecutionView { outputs: e.outputs.push(output), ..e },
            Err(error) => ExecutionView {
                steps: e.steps.take(e.outputs.len() as int).push(StepView::Fail(error)),
                ..e
            },
        }
    } else {
        e
    }
}

/// The execution once a list of results has come back, one after the other.
pub open spec fn after_results(
    e: ExecutionView,
    results: Seq<Result<Seq<char>, Seq<char>>>,
) -> ExecutionView
    decreases results.len(),
{
    if results.len() == 0 {
        e
    } else {
        after_result(after_results(e, results.drop_last()), results.last())
    }
}

/// The execution of a frame before any step.
pub open spec fn started(frame: CommandFrame) -> ExecutionView {
    ExecutionView {
        id: frame.id@,
        steps: script(frame.cmd@, frame.args),
        outputs: Seq::empty(),
    }
}

impl Execution {
    /// Begins the execution of a command frame.
    pub fn start(frame: &CommandFrame) -> (e: Execution)
        ensures
            e@ == started(*frame),
    {
        let e = Execution {
            id: frame.id.clone(),
            steps: command_script(frame),
            outputs: Vec::new(),
        };
        assert(texts(e.outputs@) == Seq::<Seq<char>>::empty());
        e
    }

    /// What is to be done next.
    pub fn next(&self) -> (action: Action)
        ensures
            action@ == pending(self@),
    {
        let n = self.outputs.len();
        if n >= self.steps.len() {
            let text = joined(&self.outputs, "\n");
            return Action::Reply(Reply { id: self.id.clone(), result: Ok(text) });
        }
        match &self.steps[n] {
            Step::Run(command) => Action::Rcon(command.clone()),
            Step::Fail(error) => Action::Reply(
                Reply { id: self.id.clone(), result: Err(error.clone()) },
            ),
        }
    }

    /// Takes in what the pending command came back with.
    pub fn resume(&mut self, result: Result<String, String>)
        ensures
            final(self)@ == after_result(old(self)@, result_text(result)),
    {
        let n = self.outputs.len();
        let ghost before = self@;
        if n < self.steps.len() {
            if let Step::Run(_) = &self.steps[n] {
                match result {
                    Ok(output) => {
                        let ghost outputs = self.outputs@;
                        self.outputs.push(output);
                        assert(texts(self.outputs@) == texts(outputs).push(output@));
                    },
                    Err(error) => {
                        self.steps.truncate(n);
                        self.steps.push(Step::Fail(error));
                        assert(step_views(self.steps@) == before.steps.take(n as int).push(
                            StepView::Fail(error@),
                        ));
                    },
                }
            }
        }
    }
}

/// The label under which a command is counted: one of the known verbs, and the
/// same one for everything else, so that a hostile frame cannot mint metric
/// series.
pub open spec fn label(cmd: Seq<char>) -> Seq<char> {
    if cmd == "load_match"@ || cmd == "end_match"@ || cmd == "status"@ || cmd == "load_backup"@
        || cmd == "roster_edit"@ || cmd == "exec"@ {
        cmd
    } else {
        "unknown"@
    }
}

/// The label under which a command is counted.
pub fn command_label(cmd: &str) -> (r: &'static str)
    ensures
        r@ == label(cmd@),
{
    if same(cmd, "load_match") {
        "load_match"
    } else if same(cmd, "end_match") {
        "end_match"
    } else if same(cmd, "status") {
        "status"
    } else if same(cmd, "load_backup") {
        "load_backup"
    } else if same(cmd, "roster_edit") {
        "roster_edit"
    } else if same(cmd, "exec") {
        "exec"
    } else {
        "unknown"
    }
}

/// The fields of an answer: the id of the frame, whether it went well, and the
/// output or the error.
pub open spec fn reply_object(
    id: Seq<char>,
    result: Result<Seq<char>, Seq<char>>,
) -> Seq<(Seq<char>, FieldView)> {
    match result {
        Ok(output) => seq![
            ("id"@, FieldView::Text(id)),
            ("ok"@, FieldView::Flag(true)),
            ("output"@, FieldView::Text(output)),
        ],
        Err(error) => seq![
            ("id"@, FieldView::Text(id)),
            ("ok"@, FieldView::Flag(false)),
            ("error"@, FieldView::Text(error)),
        ],
    }
}

impl Reply {
    /// The label under which the outcome is counted.
    pub fn outcome_label(&self) -> (r: &'static str)
        ensures
            r@ == (if self.result is Ok {
                "ok"@
            } else {
                "error"@
            }),
    {
        match &self.result {
            Ok(_) => "ok",
            Err(_) => "error",
        }
    }

    /// The fields of the answer.
    pub fn into_fields(self) -> (fields: Vec<(String, Field)>)
        ensures
            field_views(fields@) == reply_object(self.id@, result_text(self.result)),
            fields@.len() == 3,
            field_views(fields@)[0] == ("id"@, FieldView::Text(self.id@)),
            field_views(fields@)[1] == ("ok"@, FieldView::Flag(self.result is Ok)),
            field_views(fields@)[2] == match self.result {
                Ok(output) => ("output"@, FieldView::Text(output@)),
                Err(error) => ("error"@, FieldView::Text(error@)),
            },
    {
        let mut fields: Vec<(String, Field)> = Vec::new();
        assert(field_views(fields@) == Seq::<(Seq<char>, FieldView)>::empty());
        put(&mut fields, "id", Field::Text(self.id));
        match self.result {
            Ok(output) => {
                put(&mut fields, "ok", Field::Flag(true));
                put(&mut fields, "output", Field::Text(output));
            },
            Err(error) => {
                put(&mut fields, "ok", Field::Flag(false));
                put(&mut fields, "error", Field::Text(error));
            },
        }
        assert(fields@.len() == field_views(fields@).len());
        fields
    }
}

/// The results of commands that all came back with an output.
pub open spec fn outputs(texts: Seq<Seq<char>>) -> Seq<Result<Seq<char>, Seq<char>>> {
    Seq::new(texts.len(), |i: int| Ok(texts[i]))
}

/// Commands are run in the order of the script, each one once the one before
/// has come back with an output: after as many outputs as the script has
/// commands to begin with, exactly those outputs are kept.
pub proof fn law_script_is_run_in_order(e: ExecutionView, texts: Seq<Seq<char>>)
    requires
        e.outputs.len() == 0,
        texts.len() <= e.steps.len(),
        forall|i: int| 0 <= i < texts.len() ==> #[trigger] e.steps[i] is Run,
    ensures
        after_results(e, outputs(texts)) == (ExecutionView { outputs: texts, ..e }),
    decreases texts.len(),
{
    if texts.len() == 0 {
        assert(e.outputs =~= texts);
    } else {
        assert(outputs(texts).drop_last() =~= outputs(texts.drop_last()));
        assert(texts.drop_last().push(texts.last()) =~= texts);
        law_script_is_run_in_order(e, texts.drop_last());
        assert(e.steps[texts.len() - 1] is Run);
    }
}

/// A script whose commands all come back with an output is answered with the
/// outputs, put together in the order of the commands.
pub proof fn law_finished_script_is_answered_with_its_outputs(
    frame: CommandFrame,
    texts: Seq<Seq<char>>,
)
    requires
        texts.len() == started(frame).steps.len(),
        forall|i: int| 0 <= i < texts.len() ==> #[trigger] started(frame).steps[i] is Run,
    ensures
        pending(after_results(started(frame), outputs(texts))) == ActionView::Reply(
            frame.id@,
            Ok(join(texts, "\n"@)),
        ),
{
    law_script_is_run_in_order(started(frame), texts);
}

/// A script ends at its first failing step: the steps before it have been run,
/// none behind it is, and its error is the answer.
pub proof fn law_failing_step_ends_the_script(
    frame: CommandFrame,
    texts: Seq<Seq<char>>,
    error: Seq<char>,
)
    requires
        texts.len() < started(frame).steps.len(),
        forall|i: int| 0 <= i < texts.len() ==> #[trigger] started(frame).steps[i] is Run,
        started(frame).steps[texts.len() as int] == StepView::Fail(error),
    ensures
        pending(after_results(started(frame), outputs(texts))) == ActionView::Reply(
            frame.id@,
            Err(error),
        ),
{
    law_script_is_run_in_order(started(frame), texts);
}

/// A command that RCON does not answer ends the script: its error is the
/// answer, and no further command is run.
pub proof fn law_rcon_error_ends_the_script(e: ExecutionView, error: Seq<char>)
    requires
        pending(e) is Rcon,
    ensures
        pending(after_result(e, Err(error))) == ActionView::Reply(e.id, Err(error)),
{
}

/// Once a frame has its answer, the answer stays.
pub proof fn law_answer_is_final(e: ExecutionView, results: Seq<Result<Seq<char>, Seq<char>>>)
    requires
        pending(e) is Reply,
    ensures
        after_results(e, results) == e,
    decreases results.len(),
{
    if results.len() > 0 {
        law_answer_is_final(e, results.drop_last());
    }
}

/// As long as no answer is due, each result has added one output to the
/// unchanged script.
proof fn lemma_results_are_progress(
    e: ExecutionView,
    results: Seq<Result<Seq<char>, Seq<char>>>,
)
    requires
        e.outputs.len() == 0,
    ensures
        pending(after_results(e, results)) is Reply || {
            &&& after_results(e, results).outputs.len() == results.len()
            &&& after_results(e, results).steps == e.steps
        },
    decreases results.len(),
{
    if results.len() > 0 {
        lemma_results_are_progress(e, results.drop_last());
    }
}

/// Every frame is answered: once as many commands have come back as its script
/// has steps, with whatever results, the answer is due.
pub proof fn law_every_frame_is_answered(
    frame: CommandFrame,
    results: Seq<Result<Seq<char>, Seq<char>>>,
)
    requires
        results.len() >= script(frame.cmd@, frame.args).len(),
    ensures
        pending(after_results(started(frame), results)) is Reply,
{
    lemma_results_are_progress(started(frame), results);
}

/// The answer to a frame carries the frame's id.
pub proof fn law_answer_carries_the_id(
    frame: CommandFrame,
    results: Seq<Result<Seq<char>, Seq<char>>>,
)
    ensures
        pending(after_results(started(frame), results)) matches ActionView::Reply(id, _)
            ==> id == frame.id@,
{
    lemma_id_is_kept(started(frame), results);
}

proof fn lemma_id_is_kept(e: ExecutionView, results: Seq<Result<Seq<char>, Seq<char>>>)
    ensures
        after_results(e, results).id == e.id,
    decreases results.len(),
{
    if results.len() > 0 {
        lemma_id_is_kept(e, results.drop_last());
    }
}

/// Whatever results come back, each command that an execution asks to be run
/// stands in the script of its frame.
pub proof fn law_only_scripted_commands_are_run(
    frame: CommandFrame,
    results: Seq<Result<Seq<char>, Seq<char>>>,
)
    ensures
        pending(after_results(started(frame), results)) matches ActionView::Rcon(command)
            ==> script(frame.cmd@, frame.args).contains(StepView::Run(command)),
{
    lemma_steps_are_scripted(started(frame), results);
    let e = after_results(started(frame), results);
    if let ActionView::Rcon(command) = pending(e) {
        let i = e.outputs.len() as int;
        assert(e.steps[i] == StepView::Run(command));
    }
}

proof fn lemma_steps_are_scripted(e: ExecutionView, results: Seq<Result<Seq<char>, Seq<char>>>)
    ensures
        forall|i: int|
            0 <= i < after_results(e, results).steps.len() && (
            #[trigger] after_results(e, results).steps[i]) is Run ==> e.steps.contains(
                after_results(e, results).steps[i],
            ),
    decreases results.len(),
{
    if results.len() > 0 {
        lemma_steps_are_scripted(e, results.drop_last());
        let before = after_results(e, results.drop_last());
        let after = after_results(e, results);
        assert forall|i: int|
            0 <= i < after.steps.len() && (#[trigger] after.steps[i]) is Run implies e.steps.contains(
            after.steps[i],
        ) by {
            assert(after.steps[i] == before.steps[i]);
        }
    }
}

/// A raw command that is refused is answered with the refusal, and nothing is
/// run for it.
pub proof fn law_refusal_is_the_answer(frame: CommandFrame, reason: Seq<char>)
    requires
        frame.cmd@ == "exec"@,
        frame.args matches Some(args) && text_field(args, "command"@) matches Some(command)
            && refusal(command) == Some(reason),
    ensures
        pending(started(frame)) == ActionView::Reply(frame.id@, Err("refused: "@ + reason)),
        reply_object(frame.id@, Err("refused: "@ + reason)) == seq![
            ("id"@, FieldView::Text(frame.id@)),
            ("ok"@, FieldView::Flag(false)),
            ("error"@, FieldView::Text("refused: "@ + reason)),
        ],
{
    let args = frame.args->0;
    law_refused_commands_are_not_run(args, text_field(args, "command"@)->0);
}

/// There are seven labels, whatever the portal sends.
pub proof fn law_labels_are_bounded(cmd: Seq<char>)
    ensures
        seq![
            "load_match"@,
            "end_match"@,
            "status"@,
            "load_backup"@,
            "roster_edit"@,
            "exec"@,
            "unknown"@,
        ].contains(label(cmd)),
{
    let all = seq![
        "load_match"@,
        "end_match"@,
        "status"@,
        "load_backup"@,
        "roster_edit"@,
        "exec"@,
        "unknown"@,
    ];
    assert(all[0] == "load_match"@ && all[1] == "end_match"@ && all[2] == "status"@ && all[3]
        == "load_backup"@ && all[4] == "roster_edit"@ && all[5] == "exec"@ && all[6]
        == "unknown"@);
}

/// An answer has three fields: the frame's id, whether the frame went well, and
/// the whole output or the whole error, an empty one included. The flag says
/// that it went well exactly where there is an output.
pub proof fn law_answers_tell_how_it_went(id: Seq<char>, result: Result<Seq<char>, Seq<char>>)
    ensures
        reply_object(id, result).len() == 3,
        reply_object(id, result)[0] == ("id"@, FieldView::Text(id)),
        reply_object(id, result)[1].0 == "ok"@,
        reply_object(id, result)[1].1 == FieldView::Flag(true) <==> result is Ok,
        reply_object(id, result)[1].1 == FieldView::Flag(false) <==> result is Err,
        result matches Ok(output) ==> reply_object(id, result)[2] == (
            "output"@,
            FieldView::Text(output),
        ),
        result matches Err(error) ==> reply_object(id, result)[2] == (
            "error"@,
            FieldView::Text(error),
        ),
{
}

/// Once as many commands have come back as stand before it, the next command of
/// the script is asked for, word for word.
pub proof fn law_next_command_is_asked_for(
    frame: CommandFrame,
    texts: Seq<Seq<char>>,
    command: Seq<char>,
)
    requires
        texts.len() < script(frame.cmd@, frame.args).len(),
        forall|i: int|
            0 <= i < texts.len() ==> #[trigger] script(frame.cmd@, frame.args)[i] is Run,
        script(frame.cmd@, frame.args)[texts.len() as int] == StepView::Run(command),
    ensures
        pending(after_results(started(frame), Seq::new(texts.len(), |i: int| Ok(texts[i]))))
            == ActionView::Rcon(command),
{
    assert(outputs(texts) == Seq::new(
        texts.len(),
        |i: int| Ok::<Seq<char>, Seq<char>>(texts[i]),
    ));
    law_script_is_run_in_order(started(frame), texts);
}

/// A frame that stands for one command is answered with what that command came
/// back with, whole: with its output, the empty one included, or with its
/// error.
pub proof fn law_one_command_is_answered_with_its_output(
    frame: CommandFrame,
    command: Seq<char>,
    output: Seq<char>,
    error: Seq<char>,
)
    requires
        script(frame.cmd@, frame.args) == seq![StepView::Run(command)],
    ensures
        pending(started(frame)) == ActionView::Rcon(command),
        pending(after_result(started(frame), Ok(output))) == ActionView::Reply(
            frame.id@,
            Ok(output),
        ),
        pending(after_result(started(frame), Err(error))) == ActionView::Reply(
            frame.id@,
            Err(error),
        ),
{
    let e = after_result(started(frame), Ok(output));
    assert(e.outputs == seq![output]);
}

/// A frame that stands for nothing but an error is answered with that error,
/// and nothing is run for it.
pub proof fn law_failed_frame_is_answered_with_its_error(frame: CommandFrame, error: Seq<char>)
    requires
        script(frame.cmd@, frame.args).len() > 0,
        script(frame.cmd@, frame.args)[0] == StepView::Fail(error),
    ensures
        pending(started(frame)) == ActionView::Reply(frame.id@, Err(error)),
{
}

/// Two outputs are answered one behind the other, on lines of their own.
pub proof fn law_outputs_stand_on_lines_of_their_own(
    frame: CommandFrame,
    first: Seq<char>,
    second: Seq<char>,
)
    requires
        script(frame.cmd@, frame.args).len() == 2,
        script(frame.cmd@, frame.args)[0] is Run,
        script(frame.cmd@, frame.args)[1] is Run,
    ensures
        pending(after_result(after_result(started(frame), Ok(first)), Ok(second)))
            == ActionView::Reply(frame.id@, Ok(first + seq!['\n'] + second)),
{
    let once = after_result(started(frame), Ok(first));
    let twice = after_result(once, Ok(second));
    assert(twice.outputs == seq![first, second]);
    assert(seq![first, second].drop_last() == seq![first]);
    reveal_strlit("\n");
    assert("\n"@ == seq!['\n']);
    reveal_with_fuel(join, 2);
}

/// A known command is counted under its own name, every other one under the
/// same.
pub proof fn law_known_commands_are_counted_by_name(cmd: Seq<char>)
    ensures
        cmd == "load_match"@ || cmd == "end_match"@ || cmd == "status"@ || cmd == "load_backup"@
            || cmd == "roster_edit"@ || cmd == "exec"@ ==> label(cmd) == cmd,
        cmd != "load_match"@ && cmd != "end_match"@ && cmd != "status"@ && cmd != "load_backup"@
            && cmd != "roster_edit"@ && cmd != "exec"@ ==> label(cmd) == "unknown"@,
{
}

/// What an action holds is the command to run, or the id and the result of the
/// reply.
pub proof fn law_actions_keep_their_texts(action: Action)
    ensures
        action matches Action::Rcon(command) ==> action@ == ActionView::Rcon(command@),
        action matches Action::Reply(reply) ==> action@ == ActionView::Reply(
            reply.id@,
            match reply.result {
                Ok(output) => Ok(output@),
                Err(error) => Err(error@),
            },
        ),
{
}

} // verus!
