//! What holds of the conversation with a page as a whole.

use crate::cdp::{persist_script, ScriptsModel, CLEANUP, REMEMBERED};
use crate::cdp_session::{
    answer_ok, command_document, enable_command, evaluate_command, evaluated, evaluated_true,
    message_reply, register_command, registered, remembered, removal_next, value_of,
    withdraw_command, Action, ActionModel, Command, CommandModel, Incoming, Injection,
    InjectionModel, Removal, Reply, ReplyModel, Stage,
};
use crate::error::ErrorModel;
use crate::json::{json_read, JsonModel};
use crate::schema_laws::members_are_found;
use vstd::prelude::*;

verus! {

/// Whether an answer says that an expression was evaluated without an error or an exception.
pub open spec fn says_evaluated(answer: JsonModel) -> bool {
    &&& answer.member("error"@) is None
    &&& answer.member("result"@) matches Some(outer) && outer.member("exceptionDetails"@) is None
        && outer.member("result"@) is Some
}

/// The value that an answer gives for an expression, if it gives any.
pub open spec fn says(answer: JsonModel, value: JsonModel) -> bool {
    answer.member("result"@) matches Some(outer) && outer.member("result"@) matches Some(inner)
        && inner.member("value"@) == Some(value)
}

/// Whether an answer gives that identifier for a registered script.
pub open spec fn identifies(answer: JsonModel, identifier: Seq<char>) -> bool {
    answer.member("result"@) matches Some(result) && result.member("identifier"@) == Some(
        JsonModel::Text(identifier),
    )
}

/// What answers say: whether there was an error, whether an expression was evaluated, to what, and
/// under which identifier a script was registered.
pub proof fn answers_are_read(answer: JsonModel, text: Seq<char>, value: JsonModel)
    ensures
        answer_ok(answer) <==> answer.member("error"@) is None,
        evaluated(answer) <==> says_evaluated(answer),
        value_of(answer) == Some(value) <==> says(answer, value),
        evaluated_true(answer) <==> says_evaluated(answer) && says(answer, JsonModel::Bool(true)),
        remembered(answer) == Some(text) <==> says(answer, JsonModel::Text(text)) && text.len() > 0,
        (forall|t: Seq<char>| says(answer, JsonModel::Text(t)) ==> t.len() == 0) ==> remembered(
            answer,
        ) is None,
        registered(answer) == Some(text) <==> identifies(answer, text),
        (forall|t: Seq<char>| !identifies(answer, t)) ==> registered(answer) is None,
{
    if registered(answer) is Some {
        assert(identifies(answer, registered(answer)->0));
    }
    if remembered(answer) is Some {
        assert(says(answer, JsonModel::Text(remembered(answer)->0)));
    }
}

/// What commands say: their number, their method and what they are about.
pub proof fn commands_say(id: u64, text: Seq<char>)
    ensures
        enable_command() == (CommandModel {
            id: 1,
            method: "Page.enable"@,
            params: JsonModel::Object(Seq::empty()),
        }),
        evaluate_command(id, text).id == id,
        evaluate_command(id, text).method == "Runtime.evaluate"@,
        evaluate_command(id, text).params->Object_0 == seq![
            ("awaitPromise"@, JsonModel::Bool(true)),
            ("expression"@, JsonModel::Text(text)),
            ("returnByValue"@, JsonModel::Bool(true)),
        ],
        evaluate_command(id, text).params is Object,
        register_command(text).id == 4,
        register_command(text).method == "Page.addScriptToEvaluateOnNewDocument"@,
        register_command(text).params == JsonModel::Object(seq![("source"@, JsonModel::Text(text))]),
        withdraw_command(id, text).id == id,
        withdraw_command(id, text).method == "Page.removeScriptToEvaluateOnNewDocument"@,
        withdraw_command(id, text).params == JsonModel::Object(
            seq![("identifier"@, JsonModel::Text(text))],
        ),
{
}

/// A command is sent as a document of its number, its method and its parameters.
pub proof fn commands_are_documents(command: CommandModel)
    ensures
        command_document(command).member("id"@) == Some(JsonModel::Unsigned(command.id)),
        command_document(command).member("method"@) == Some(JsonModel::Text(command.method)),
        command_document(command).member("params"@) == Some(command.params),
        command_document(command)->Object_0.len() == 3,
{
    reveal_strlit("id");
    reveal_strlit("method");
    reveal_strlit("params");
    assert("id"@.len() == 2 && "method"@.len() == 6 && "params"@.len() == 6);
    assert("method"@[0] == 'm' && "params"@[0] == 'p');
    let document = command_document(command);
    members_are_found(document, "id"@, 0);
    members_are_found(document, "method"@, 1);
    members_are_found(document, "params"@, 2);
}

/// A message is the answer to a command exactly where it is a document with that command's
/// number. Other documents and control messages are passed over; one that is too long, is no
/// document, or ends the connection ends the wait, each for its reason.
pub proof fn replies_are_told_apart(message: Incoming, id: u64)
    ensures
        message matches Incoming::Data(bytes) ==> {
            &&& bytes@.len() > 4194304 ==> message_reply(message, id) == ReplyModel::Fail(
                ErrorModel::Message("CDP 响应超过 4 MB 安全限制。"@),
            )
            &&& bytes@.len() <= 4194304 ==> match json_read(bytes@) {
                Ok(value) => if value.member("id"@) == Some(JsonModel::Unsigned(id)) {
                    message_reply(message, id) == ReplyModel::Answer(value)
                } else {
                    message_reply(message, id) == ReplyModel::Wait
                },
                Err(text) => message_reply(message, id) == ReplyModel::Fail(ErrorModel::Json(text)),
            }
        },
        message is Control ==> message_reply(message, id) == ReplyModel::Wait,
        message is Close ==> message_reply(message, id) == ReplyModel::Fail(
            ErrorModel::Message("CDP 连接已关闭。"@),
        ),
        message matches Incoming::Failed(text) ==> message_reply(message, id) == ReplyModel::Fail(
            ErrorModel::Message("CDP 接收失败："@ + text@),
        ),
        message is End ==> message_reply(message, id) == ReplyModel::Fail(
            ErrorModel::Message("CDP 未返回响应。"@),
        ),
{
}

/// Commands, actions and replies keep what they hold.
pub proof fn sessions_are_what_they_hold(
    command: Command,
    action: Action,
    reply: Reply,
    injection: Injection,
)
    ensures
        command@ == (CommandModel {
            id: command.id,
            method: command.method@,
            params: command.params@,
        }),
        action matches Action::Send(sent) ==> action@ == ActionModel::Send(sent@),
        action matches Action::PauseAndSend(pause, sent) ==> action@ == ActionModel::PauseAndSend(
            pause,
            sent@,
        ),
        action matches Action::Finish(outcome) ==> action@ == ActionModel::Finish(outcome),
        reply is Wait ==> reply@ is Wait,
        reply matches Reply::Answer(json) ==> reply@ == ReplyModel::Answer(json@),
        reply matches Reply::Fail(error) ==> reply@ == ReplyModel::Fail(error@),
        injection@.stage == injection.stage,
        injection@.probe == injection.probe@,
        injection@.scripts == (ScriptsModel {
            activation: injection.scripts.activation@,
            new_document: injection.scripts.new_document@,
            verification: injection.scripts.verification@,
        }),
        injection@.identifier == injection.identifier@,
{
}

/// Which command follows which answer of a page while a theme is put into it: the page's events,
/// the main window, the script that the page remembers, which is withdrawn, the new script, which
/// the page is made to remember by the identifier that it gave, the theme, and whether it shows.
pub proof fn injections_go_on(injection: InjectionModel, answer: JsonModel, text: Seq<char>)
    ensures
        ({
            let at = |stage: Stage| InjectionModel { stage, ..injection };
            let yes = says_evaluated(answer) && says(answer, JsonModel::Bool(true));
            &&& answer.member("error"@) is None ==> at(Stage::Enable).next(answer) == (
                at(Stage::Probe),
                ActionModel::Send(evaluate_command(99, injection.probe)),
            )
            &&& yes ==> at(Stage::Probe).next(answer) == (
                at(Stage::Previous),
                ActionModel::Send(evaluate_command(2, REMEMBERED@)),
            )
            &&& says(answer, JsonModel::Text(text)) && text.len() > 0 ==> at(Stage::Previous).next(
                answer,
            ) == (at(Stage::Forget), ActionModel::Send(withdraw_command(3, text)))
            &&& (forall|t: Seq<char>| says(answer, JsonModel::Text(t)) ==> t.len() == 0) ==> at(
                Stage::Previous,
            ).next(answer) == (
                at(Stage::Register),
                ActionModel::Send(register_command(injection.scripts.new_document)),
            )
            &&& at(Stage::Forget).next(answer) == (
                at(Stage::Register),
                ActionModel::Send(register_command(injection.scripts.new_document)),
            )
            &&& identifies(answer, text) ==> at(Stage::Register).next(answer) == (
                InjectionModel { stage: Stage::Persist, identifier: text, ..injection },
                ActionModel::Send(evaluate_command(5, persist_script(text))),
            )
            &&& yes ==> at(Stage::Persist).next(answer) == (
                at(Stage::Activate),
                ActionModel::Send(evaluate_command(7, injection.scripts.activation)),
            )
            &&& says_evaluated(answer) ==> at(Stage::Activate).next(answer) == (
                at(Stage::Verify(0)),
                ActionModel::Send(evaluate_command(10, injection.scripts.verification)),
            )
        }),
{
    answers_are_read(answer, text, JsonModel::Bool(true));
}

/// Whether a theme shows is asked five times, 50 milliseconds apart, until the page says so; and
/// as soon as it does, the injection has succeeded.
pub proof fn five_looks_are_taken(injection: InjectionModel, answer: JsonModel, look: u64)
    requires
        look < 5,
    ensures
        ({
            let at = |stage: Stage| InjectionModel { stage, ..injection };
            let yes = says_evaluated(answer) && says(answer, JsonModel::Bool(true));
            let next = at(Stage::Verify(look)).next(answer);
            &&& yes ==> next == (at(Stage::Done), ActionModel::Finish(true))
            &&& !yes && look < 4 ==> next == (
                at(Stage::Verify((look + 1) as u64)),
                ActionModel::PauseAndSend(
                    50,
                    evaluate_command((look + 11) as u64, injection.scripts.verification),
                ),
            )
            &&& !yes && look == 4 ==> next == (
                at(Stage::Withdraw),
                ActionModel::PauseAndSend(50, withdraw_command(20, injection.identifier)),
            )
        }),
{
    answers_are_read(answer, Seq::empty(), JsonModel::Bool(true));
}

/// Where an injection stops short: without the page's events, the main window or an identifier it
/// has failed; after that, the registered script is withdrawn first.
pub proof fn injections_stop_short(injection: InjectionModel, answer: JsonModel)
    ensures
        ({
            let at = |stage: Stage| InjectionModel { stage, ..injection };
            let yes = says_evaluated(answer) && says(answer, JsonModel::Bool(true));
            let over = (at(Stage::Done), ActionModel::Finish(false));
            &&& answer.member("error"@) is Some ==> at(Stage::Enable).next(answer) == over
            &&& !yes ==> at(Stage::Probe).next(answer) == over
            &&& (forall|t: Seq<char>| !identifies(answer, t)) ==> at(Stage::Register).next(answer) == over
            &&& !yes ==> at(Stage::Persist).next(answer) == (
                at(Stage::Withdraw),
                ActionModel::Send(withdraw_command(6, injection.identifier)),
            )
            &&& !says_evaluated(answer) ==> at(Stage::Activate).next(answer) == (
                at(Stage::Withdraw),
                ActionModel::Send(withdraw_command(8, injection.identifier)),
            )
            &&& at(Stage::Withdraw).next(answer) == over
            &&& at(Stage::Done).next(answer) == over
        }),
{
    answers_are_read(answer, Seq::empty(), JsonModel::Bool(true));
}

/// Whether the answer of that number gave the identifier of the registered script, and the page
/// was made to remember that very identifier.
pub open spec fn remembers(
    start: InjectionModel,
    answers: Seq<JsonModel>,
    k: int,
    identifier: Seq<char>,
) -> bool {
    &&& 0 <= k < answers.len()
    &&& identifies(answers[k], identifier)
    &&& start.run(answers).1[k] == ActionModel::Send(
        evaluate_command(5, persist_script(identifier)),
    )
}

/// Whether a script was registered by the time of a stage.
pub open spec fn has_registered(stage: Stage) -> bool {
    match stage {
        Stage::Persist => true,
        Stage::Activate => true,
        Stage::Verify(_) => true,
        Stage::Withdraw => true,
        _ => false,
    }
}

proof fn run_lengths(start: InjectionModel, answers: Seq<JsonModel>)
    ensures
        start.run(answers).1.len() == answers.len(),
    decreases answers.len(),
{
    if answers.len() > 0 {
        run_lengths(start, answers.drop_last());
    }
}

/// From the registration of a script on, an injection holds the identifier that the page gave for
/// it, and the page was made to remember that one.
pub proof fn registered_scripts_are_remembered(start: InjectionModel, answers: Seq<JsonModel>)
    requires
        start.stage == Stage::Enable,
        has_registered(start.run(answers).0.stage),
    ensures
        exists|k: int| remembers(start, answers, k, start.run(answers).0.identifier),
    decreases answers.len(),
{
    if answers.len() > 0 {
        let before = answers.drop_last();
        let state = start.run(before).0;
        let last = answers.last();
        let x = start.run(answers).0.identifier;
        run_lengths(start, before);
        if has_registered(state.stage) {
            registered_scripts_are_remembered(start, before);
            let k = choose|k: int| remembers(start, before, k, state.identifier);
            assert(before[k] == answers[k]);
            assert(start.run(answers).1[k] == start.run(before).1[k]);
            assert(x == state.identifier);
            assert(remembers(start, answers, k, x));
        } else {
            assert(state.stage == Stage::Register);
            answers_are_read(last, x, last);
            assert(start.run(answers).1[answers.len() - 1] == ActionModel::Send(
                evaluate_command(5, persist_script(x)),
            ));
            assert(remembers(start, answers, answers.len() - 1, x));
        }
    }
}

/// A page that took a theme remembers the identifier that it gave for the theme's script itself;
/// and whoever reads it back later, to put another theme on or to take this one off, withdraws
/// that very script.
pub proof fn remembered_scripts_are_withdrawn(
    start: InjectionModel,
    answers: Seq<JsonModel>,
    later: InjectionModel,
    answer: JsonModel,
)
    requires
        start.stage == Stage::Enable,
        answers.len() > 0,
        start.run(answers.drop_last()).0.stage != Stage::Done,
        start.run(answers).1.last() == ActionModel::Finish(true),
        later.stage == Stage::Previous,
    ensures
        exists|k: int, x: Seq<char>|
            {
                &&& #[trigger] remembers(start, answers, k, x)
                &&& x.len() > 0 && says(answer, JsonModel::Text(x)) ==> {
                    &&& later.next(answer).1 == ActionModel::Send(withdraw_command(3, x))
                    &&& removal_next(Removal::Previous, answer).1 == ActionModel::Send(
                        withdraw_command(3, x),
                    )
                }
            },
{
    let before = answers.drop_last();
    let state = start.run(before).0;
    registered_scripts_are_remembered(start, before);
    let x = state.identifier;
    let k = choose|k: int| remembers(start, before, k, x);
    run_lengths(start, before);
    assert(before[k] == answers[k]);
    assert(start.run(answers).1[k] == start.run(before).1[k]);
    assert(remembers(start, answers, k, x));
    answers_are_read(answer, x, answer);
}

/// Which command follows which answer of a page while a theme is taken out of it: the page's
/// events, the script that the page remembers, which is withdrawn, and the cleanup; and the
/// removal has succeeded where the page says so.
pub proof fn removals_go_on(answer: JsonModel, text: Seq<char>)
    ensures
        ({
            let yes = says_evaluated(answer) && says(answer, JsonModel::Bool(true));
            let cleaning = (Removal::Clean, ActionModel::Send(evaluate_command(4, CLEANUP@)));
            &&& removal_next(Removal::Enable, answer) == (if answer.member("error"@) is None {
                (Removal::Previous, ActionModel::Send(evaluate_command(2, REMEMBERED@)))
            } else {
                (Removal::Done, ActionModel::Finish(false))
            })
            &&& says(answer, JsonModel::Text(text)) && text.len() > 0 ==> removal_next(
                Removal::Previous,
                answer,
            ) == (Removal::Forget, ActionModel::Send(withdraw_command(3, text)))
            &&& (forall|t: Seq<char>| says(answer, JsonModel::Text(t)) ==> t.len() == 0)
                ==> removal_next(Removal::Previous, answer) == cleaning
            &&& removal_next(Removal::Forget, answer) == cleaning
            &&& removal_next(Removal::Clean, answer) == (Removal::Done, ActionModel::Finish(yes))
            &&& removal_next(Removal::Done, answer) == (Removal::Done, ActionModel::Finish(false))
        }),
{
    answers_are_read(answer, text, JsonModel::Bool(true));
}

} // verus!
