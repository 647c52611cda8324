//! The conversation with one page: which command follows which answer.

use crate::cdp::{
    persist_expression, persist_script, probe_expression, probe_script, Scripts, ScriptsModel,
    CLEANUP, REMEMBERED,
};
use crate::error::{AppError, ErrorModel};
use crate::json::{
    ascending, json_read, member_models, object_model, read_json, writable, write_json, Json,
    JsonModel,
};
use crate::json_text::json_written;
use crate::text::{before, join2};
use vstd::prelude::*;

verus! {

/// The longest answer that is read.
pub const MAX_MESSAGE: usize = 4194304;

/// A command to the page.
#[derive(Debug)]
pub struct Command {
    pub id: u64,
    pub method: &'static str,
    pub params: Json,
}

/// What a [`Command`] holds.
pub struct CommandModel {
    pub id: u64,
    pub method: Seq<char>,
    pub params: JsonModel,
}

impl View for Command {
    type V = CommandModel;

    open spec fn view(&self) -> CommandModel {
        CommandModel { id: self.id, method: self.method@, params: self.params@ }
    }
}

/// The document that a command is sent as.
pub open spec fn command_document(command: CommandModel) -> JsonModel {
    JsonModel::Object(
        seq![
            ("id"@, JsonModel::Unsigned(command.id)),
            ("method"@, JsonModel::Text(command.method)),
            ("params"@, command.params),
        ],
    )
}

/// The document that holds a list of members.
fn object(members: Vec<(String, Json)>) -> (r: Json)
    ensures
        r@ == JsonModel::Object(member_models(members@)),
{
    proof {
        object_model(members);
    }
    Json::Object(members)
}

impl Command {
    /// The text that is sent.
    pub fn text(self) -> (text: String)
        requires
            writable(self@.params),
        ensures
            text@ == json_written(command_document(self@)),
    {
        proof {
            reveal_strlit("id");
            reveal_strlit("method");
            reveal_strlit("params");
        }
        let mut members: Vec<(String, Json)> = Vec::new();
        members.push(("id".to_owned(), Json::Unsigned(self.id)));
        members.push(("method".to_owned(), Json::Text(self.method.to_owned())));
        members.push(("params".to_owned(), self.params));
        let document = object(members);
        assert(document@->Object_0 =~= command_document(self@)->Object_0);
        assert(ascending(document@->Object_0)) by {
            reveal_with_fuel(before, 2);
        }
        assert(writable(document@)) by {
            reveal_with_fuel(writable, 2);
        }
        write_json(&document)
    }
}

/// The command that switches the page's events on.
pub open spec fn enable_command() -> CommandModel {
    CommandModel { id: 1, method: "Page.enable"@, params: JsonModel::Object(Seq::empty()) }
}

/// The command that evaluates an expression and waits for its value.
pub open spec fn evaluate_command(id: u64, expression: Seq<char>) -> CommandModel {
    CommandModel {
        id,
        method: "Runtime.evaluate"@,
        params: JsonModel::Object(
            seq![
                ("awaitPromise"@, JsonModel::Bool(true)),
                ("expression"@, JsonModel::Text(expression)),
                ("returnByValue"@, JsonModel::Bool(true)),
            ],
        ),
    }
}

/// The command that registers a script for each new document.
pub open spec fn register_command(source: Seq<char>) -> CommandModel {
    CommandModel {
        id: 4,
        method: "Page.addScriptToEvaluateOnNewDocument"@,
        params: JsonModel::Object(seq![("source"@, JsonModel::Text(source))]),
    }
}

/// The command that withdraws a registered script.
pub open spec fn withdraw_command(id: u64, identifier: Seq<char>) -> CommandModel {
    CommandModel {
        id,
        method: "Page.removeScriptToEvaluateOnNewDocument"@,
        params: JsonModel::Object(seq![("identifier"@, JsonModel::Text(identifier))]),
    }
}

fn enable() -> (r: Command)
    ensures
        r@ == enable_command(),
        writable(r@.params),
{
    let params = object(Vec::new());
    assert(params@->Object_0 =~= Seq::empty());
    Command { id: 1, method: "Page.enable", params }
}

/// Makes the command that evaluates an expression.
pub fn evaluate(id: u64, expression: &str) -> (r: Command)
    ensures
        r@ == evaluate_command(id, expression@),
        writable(r@.params),
{
    proof {
        reveal_strlit("awaitPromise");
        reveal_strlit("expression");
        reveal_strlit("returnByValue");
    }
    let mut members: Vec<(String, Json)> = Vec::new();
    members.push(("awaitPromise".to_owned(), Json::Bool(true)));
    members.push(("expression".to_owned(), Json::Text(expression.to_owned())));
    members.push(("returnByValue".to_owned(), Json::Bool(true)));
    let params = object(members);
    assert(params@->Object_0 =~= evaluate_command(id, expression@).params->Object_0);
    assert(ascending(params@->Object_0)) by {
        reveal_with_fuel(before, 2);
    }
    assert(writable(params@)) by {
        reveal_with_fuel(writable, 2);
    }
    Command { id, method: "Runtime.evaluate", params }
}

fn single(key: &str, value: &str) -> (r: Json)
    ensures
        r@ == JsonModel::Object(seq![(key@, JsonModel::Text(value@))]),
        writable(r@),
{
    let mut members: Vec<(String, Json)> = Vec::new();
    members.push((key.to_owned(), Json::Text(value.to_owned())));
    let params = object(members);
    assert(params@->Object_0 =~= seq![(key@, JsonModel::Text(value@))]);
    assert(writable(params@)) by {
        reveal_with_fuel(writable, 2);
    }
    params
}

fn register(source: &str) -> (r: Command)
    ensures
        r@ == register_command(source@),
        writable(r@.params),
{
    Command {
        id: 4,
        method: "Page.addScriptToEvaluateOnNewDocument",
        params: single("source", source),
    }
}

/// Makes the command that withdraws a registered script.
pub fn remove_script(identifier: &str, id: u64) -> (r: Command)
    ensures
        r@ == withdraw_command(id, identifier@),
        writable(r@.params),
{
    Command {
        id,
        method: "Page.removeScriptToEvaluateOnNewDocument",
        params: single("identifier", identifier),
    }
}

/// Whether an answer reports no error.
pub open spec fn answer_ok(answer: JsonModel) -> bool {
    answer.member("error"@) is None
}

/// Whether an answer reports that an expression was evaluated without an exception.
pub open spec fn evaluated(answer: JsonModel) -> bool {
    &&& answer_ok(answer)
    &&& answer.member("result"@) is Some
    &&& answer.member("result"@)->0.member("exceptionDetails"@) is None
    &&& answer.member("result"@)->0.member("result"@) is Some
}

/// The value of an evaluated expression.
pub open spec fn value_of(answer: JsonModel) -> Option<JsonModel> {
    match answer.member("result"@) {
        Some(outer) => match outer.member("result"@) {
            Some(inner) => inner.member("value"@),
            None => None,
        },
        None => None,
    }
}

/// Whether an expression was evaluated to `true`.
pub open spec fn evaluated_true(answer: JsonModel) -> bool {
    evaluated(answer) && value_of(answer) is Some && value_of(answer)->0.truth() == Some(true)
}

/// The text to which an expression was evaluated, unless it is empty.
pub open spec fn remembered(answer: JsonModel) -> Option<Seq<char>> {
    match value_of(answer) {
        Some(value) => match value.text() {
            Some(text) => if text.len() > 0 {
                Some(text)
            } else {
                None
            },
            None => None,
        },
        None => None,
    }
}

/// The identifier under which a script was registered.
pub open spec fn registered(answer: JsonModel) -> Option<Seq<char>> {
    match answer.member("result"@) {
        Some(result) => result.text_member("identifier"@),
        None => None,
    }
}

/// Whether an answer reports no error.
pub fn successful(value: &Json) -> (r: bool)
    ensures
        r == answer_ok(value@),
{
    value.get("error").is_none()
}

/// Whether an answer reports that an expression was evaluated without an exception.
pub fn successful_evaluation(value: &Json) -> (r: bool)
    ensures
        r == evaluated(value@),
{
    successful(value) && match value.get("result") {
        Some(result) => result.get("exceptionDetails").is_none() && result.get("result").is_some(),
        None => false,
    }
}

/// The value of an evaluated expression.
pub fn evaluation_value(value: &Json) -> (r: Option<&Json>)
    ensures
        match r {
            Some(inner) => value_of(value@) == Some(inner@),
            None => value_of(value@) is None,
        },
{
    match value.get("result") {
        Some(outer) => match outer.get("result") {
            Some(inner) => inner.get("value"),
            None => None,
        },
        None => None,
    }
}

/// Whether an expression was evaluated to `true`.
pub fn is_true(value: &Json) -> (r: bool)
    ensures
        r == evaluated_true(value@),
{
    successful_evaluation(value) && match evaluation_value(value) {
        Some(inner) => match inner.as_truth() {
            Some(truth) => truth,
            None => false,
        },
        None => false,
    }
}

fn remembered_script(answer: &Json) -> (r: Option<&str>)
    ensures
        match r {
            Some(text) => remembered(answer@) == Some(text@),
            None => remembered(answer@) is None,
        },
{
    match evaluation_value(answer) {
        Some(value) => match value.as_text() {
            Some(text) => if text.is_empty() {
                None
            } else {
                Some(text)
            },
            None => None,
        },
        None => None,
    }
}

fn registered_script(answer: &Json) -> (r: Option<&str>)
    ensures
        match r {
            Some(text) => registered(answer@) == Some(text@),
            None => registered(answer@) is None,
        },
{
    match answer.get("result") {
        Some(result) => result.text_at("identifier"),
        None => None,
    }
}

/// What comes in over the socket.
#[derive(Debug)]
pub enum Incoming {
    /// A text or binary message.
    Data(Vec<u8>),
    /// A control message.
    Control,
    /// The other side closes.
    Close,
    /// Receiving failed, for this reason.
    Failed(String),
    /// Nothing more comes.
    End,
}

/// What becomes of a message while an answer is awaited.
#[derive(Debug)]
pub enum Reply {
    /// It is not the answer.
    Wait,
    /// It is the answer.
    Answer(Json),
    /// There will be none.
    Fail(AppError),
}

/// What a [`Reply`] says.
pub enum ReplyModel {
    Wait,
    Answer(JsonModel),
    Fail(ErrorModel),
}

impl View for Reply {
    type V = ReplyModel;

    open spec fn view(&self) -> ReplyModel {
        match self {
            Reply::Wait => ReplyModel::Wait,
            Reply::Answer(json) => ReplyModel::Answer(json@),
            Reply::Fail(error) => ReplyModel::Fail(error@),
        }
    }
}

/// What becomes of a document while the answer to the command `id` is awaited.
pub open spec fn document_reply(document: Result<JsonModel, Seq<char>>, id: u64) -> ReplyModel {
    match document {
        Ok(value) => if value.unsigned_member("id"@) == Some(id) {
            ReplyModel::Answer(value)
        } else {
            ReplyModel::Wait
        },
        Err(text) => ReplyModel::Fail(ErrorModel::Json(text)),
    }
}

/// What becomes of a message while the answer to the command `id` is awaited.
pub open spec fn message_reply(message: Incoming, id: u64) -> ReplyModel {
    match message {
        Incoming::Data(bytes) => if bytes@.len() > MAX_MESSAGE {
            ReplyModel::Fail(ErrorModel::Message("CDP 响应超过 4 MB 安全限制。"@))
        } else {
            document_reply(json_read(bytes@), id)
        },
        Incoming::Control => ReplyModel::Wait,
        Incoming::Close => ReplyModel::Fail(ErrorModel::Message("CDP 连接已关闭。"@)),
        Incoming::Failed(text) => ReplyModel::Fail(ErrorModel::Message("CDP 接收失败："@ + text@)),
        Incoming::End => ReplyModel::Fail(ErrorModel::Message("CDP 未返回响应。"@)),
    }
}

/// What becomes of a document while the answer to the command `id` is awaited.
pub fn read_document(document: Result<Json, String>, id: u64) -> (r: Reply)
    ensures
        r@ == document_reply(
            match document {
                Ok(json) => Ok(json@),
                Err(text) => Err(text@),
            },
            id,
        ),
{
    match document {
        Ok(json) => if json.unsigned_at("id") == Some(id) {
            Reply::Answer(json)
        } else {
            Reply::Wait
        },
        Err(text) => Reply::Fail(AppError::Json(text)),
    }
}

/// What becomes of a message while the answer to the command `id` is awaited.
pub fn read_reply(message: &Incoming, id: u64) -> (r: Reply)
    ensures
        r@ == message_reply(*message, id),
{
    match message {
        Incoming::Data(bytes) => {
            if bytes.len() > MAX_MESSAGE {
                return Reply::Fail(AppError::Message("CDP 响应超过 4 MB 安全限制。".to_owned()));
            }
            read_document(read_json(bytes), id)
        },
        Incoming::Control => Reply::Wait,
        Incoming::Close => Reply::Fail(AppError::Message("CDP 连接已关闭。".to_owned())),
        Incoming::Failed(text) => Reply::Fail(AppError::Message(join2("CDP 接收失败：", text))),
        Incoming::End => Reply::Fail(AppError::Message("CDP 未返回响应。".to_owned())),
    }
}

/// The error when a page could not be connected to.
pub fn connection_failed(error: &str) -> (r: AppError)
    ensures
        r@ == ErrorModel::Message("CDP WebSocket 连接失败："@ + error@),
{
    AppError::Message(join2("CDP WebSocket 连接失败：", error))
}

/// The error when a command could not be sent.
pub fn sending_failed(error: &str) -> (r: AppError)
    ensures
        r@ == ErrorModel::Message("CDP 发送失败："@ + error@),
{
    AppError::Message(join2("CDP 发送失败：", error))
}

/// What to do next.
#[derive(Debug)]
pub enum Action {
    /// Send a command and await its answer.
    Send(Command),
    /// Wait so many milliseconds, then send a command and await its answer.
    PauseAndSend(u64, Command),
    /// End the conversation: whether the page is as it should be.
    Finish(bool),
}

/// What an [`Action`] says.
pub enum ActionModel {
    Send(CommandModel),
    PauseAndSend(u64, CommandModel),
    Finish(bool),
}

impl View for Action {
    type V = ActionModel;

    open spec fn view(&self) -> ActionModel {
        match self {
            Action::Send(command) => ActionModel::Send(command@),
            Action::PauseAndSend(pause, command) => ActionModel::PauseAndSend(*pause, command@),
            Action::Finish(outcome) => ActionModel::Finish(*outcome),
        }
    }
}

impl ActionModel {
    /// The command that is sent, if one is.
    pub open spec fn command(self) -> Option<CommandModel> {
        match self {
            ActionModel::Send(command) => Some(command),
            ActionModel::PauseAndSend(_, command) => Some(command),
            ActionModel::Finish(_) => None,
        }
    }

    /// Whether what is sent can be written.
    pub open spec fn sendable(self) -> bool {
        match self.command() {
            Some(command) => writable(command.params),
            None => true,
        }
    }
}

/// How far an injection into a page has come: the command whose answer is awaited.
#[derive(Clone, Copy, Debug, PartialEq, Eq, Structural)]
pub enum Stage {
    /// Switching the page's events on.
    Enable,
    /// Looking for the main window.
    Probe,
    /// Reading which script the page remembers.
    Previous,
    /// Withdrawing that script.
    Forget,
    /// Registering the script for new documents.
    Register,
    /// Making the page remember it.
    Persist,
    /// Putting the theme into the page.
    Activate,
    /// Looking whether it shows, for the so-many-th time.
    Verify(u64),
    /// Withdrawing the registered script after a failure.
    Withdraw,
    /// Done.
    Done,
}

/// An injection into a page.
#[derive(Debug)]
pub struct Injection {
    pub stage: Stage,
    pub probe: String,
    pub scripts: Scripts,
    /// The script registered by this injection, once it is.
    pub identifier: String,
}

/// What an [`Injection`] holds.
pub struct InjectionModel {
    pub stage: Stage,
    pub probe: Seq<char>,
    pub scripts: ScriptsModel,
    pub identifier: Seq<char>,
}

impl View for Injection {
    type V = InjectionModel;

    open spec fn view(&self) -> InjectionModel {
        InjectionModel {
            stage: self.stage,
            probe: self.probe@,
            scripts: self.scripts@,
            identifier: self.identifier@,
        }
    }
}

/// How often a page is asked whether the theme shows.
pub const ATTEMPTS: u64 = 5;

impl InjectionModel {
    /// The same injection at another stage.
    pub open spec fn at(self, stage: Stage) -> InjectionModel {
        InjectionModel { stage, ..self }
    }

    /// Ends the injection.
    pub open spec fn finish(self, outcome: bool) -> (InjectionModel, ActionModel) {
        (self.at(Stage::Done), ActionModel::Finish(outcome))
    }

    /// Goes on to a stage by sending its command.
    pub open spec fn go(self, stage: Stage, command: CommandModel) -> (InjectionModel, ActionModel) {
        (self.at(stage), ActionModel::Send(command))
    }

    /// What an answer leads to.
    pub open spec fn next(self, answer: JsonModel) -> (InjectionModel, ActionModel) {
        match self.stage {
            Stage::Enable => if answer_ok(answer) {
                self.go(Stage::Probe, evaluate_command(99, self.probe))
            } else {
                self.finish(false)
            },
            Stage::Probe => if evaluated_true(answer) {
                self.go(Stage::Previous, evaluate_command(2, REMEMBERED@))
            } else {
                self.finish(false)
            },
            Stage::Previous => match remembered(answer) {
                Some(script) => self.go(Stage::Forget, withdraw_command(3, script)),
                None => self.go(Stage::Register, register_command(self.scripts.new_document)),
            },
            Stage::Forget => self.go(
                Stage::Register,
                register_command(self.scripts.new_document),
            ),
            Stage::Register => match registered(answer) {
                Some(identifier) => InjectionModel { identifier, ..self }.go(
                    Stage::Persist,
                    evaluate_command(5, persist_script(identifier)),
                ),
                None => self.finish(false),
            },
            Stage::Persist => if evaluated_true(answer) {
                self.go(Stage::Activate, evaluate_command(7, self.scripts.activation))
            } else {
                self.go(Stage::Withdraw, withdraw_command(6, self.identifier))
            },
            Stage::Activate => if evaluated(answer) {
                self.go(Stage::Verify(0), evaluate_command(10, self.scripts.verification))
            } else {
                self.go(Stage::Withdraw, withdraw_command(8, self.identifier))
            },
            Stage::Verify(attempt) => if evaluated_true(answer) {
                self.finish(true)
            } else if attempt + 1 < ATTEMPTS {
                (
                    self.at(Stage::Verify((attempt + 1) as u64)),
                    ActionModel::PauseAndSend(
                        50,
                        evaluate_command((11 + attempt) as u64, self.scripts.verification),
                    ),
                )
            } else {
                (
                    self.at(Stage::Withdraw),
                    ActionModel::PauseAndSend(50, withdraw_command(20, self.identifier)),
                )
            },
            Stage::Withdraw => self.finish(false),
            Stage::Done => self.finish(false),
        }
    }
}

impl Injection {
    /// Starts an injection into a page whose main surface the selector `main_surface` finds, and
    /// gives the first command.
    pub fn begin(main_surface: &str, scripts: Scripts) -> (r: (Injection, Action))
        ensures
            r.0@ == (InjectionModel {
                stage: Stage::Enable,
                probe: probe_script(main_surface@),
                scripts: scripts@,
                identifier: Seq::empty(),
            }),
            r.1@ == ActionModel::Send(enable_command()),
            r.1@.sendable(),
    {
        (
            Injection {
                stage: Stage::Enable,
                probe: probe_expression(main_surface),
                scripts,
                identifier: String::new(),
            },
            Action::Send(enable()),
        )
    }

    fn finish(&mut self, outcome: bool) -> (r: Action)
        ensures
            (final(self)@, r@) == old(self)@.finish(outcome),
            r@.sendable(),
    {
        self.stage = Stage::Done;
        Action::Finish(outcome)
    }

    fn go(&mut self, stage: Stage, command: Command) -> (r: Action)
        requires
            writable(command@.params),
        ensures
            (final(self)@, r@) == old(self)@.go(stage, command@),
            r@.sendable(),
    {
        self.stage = stage;
        Action::Send(command)
    }

    /// What an answer leads to.
    pub fn inject_target(&mut self, answer: &Json) -> (r: Action)
        ensures
            (final(self)@, r@) == old(self)@.next(answer@),
            r@.sendable(),
    {
        match self.stage {
            Stage::Enable => {
                if !successful(answer) {
                    return self.finish(false);
                }
                let command = evaluate(99, &self.probe);
                self.go(Stage::Probe, command)
            },
            Stage::Probe => {
                if !is_true(answer) {
                    return self.finish(false);
                }
                self.go(Stage::Previous, evaluate(2, REMEMBERED))
            },
            Stage::Previous => match remembered_script(answer) {
                Some(script) => self.go(Stage::Forget, remove_script(script, 3)),
                None => {
                    let command = register(&self.scripts.new_document);
                    self.go(Stage::Register, command)
                },
            },
            Stage::Forget => {
                let command = register(&self.scripts.new_document);
                self.go(Stage::Register, command)
            },
            Stage::Register => match registered_script(answer) {
                Some(identifier) => {
                    self.identifier = identifier.to_owned();
                    self.go(Stage::Persist, evaluate(5, &persist_expression(identifier)))
                },
                None => self.finish(false),
            },
            Stage::Persist => {
                if is_true(answer) {
                    let command = evaluate(7, &self.scripts.activation);
                    self.go(Stage::Activate, command)
                } else {
                    let command = remove_script(&self.identifier, 6);
                    self.go(Stage::Withdraw, command)
                }
            },
            Stage::Activate => {
                if successful_evaluation(answer) {
                    let command = evaluate(10, &self.scripts.verification);
                    self.go(Stage::Verify(0), command)
                } else {
                    let command = remove_script(&self.identifier, 8);
                    self.go(Stage::Withdraw, command)
                }
            },
            Stage::Verify(attempt) => {
                if is_true(answer) {
                    return self.finish(true);
                }
                if attempt < ATTEMPTS - 1 {
                    let command = evaluate(11 + attempt, &self.scripts.verification);
                    self.stage = Stage::Verify(attempt + 1);
                    Action::PauseAndSend(50, command)
                } else {
                    let command = remove_script(&self.identifier, 20);
                    self.stage = Stage::Withdraw;
                    Action::PauseAndSend(50, command)
                }
            },
            Stage::Withdraw => self.finish(false),
            Stage::Done => self.finish(false),
        }
    }
}

impl InjectionModel {
    /// Where a run of answers leads, and what is done on the way.
    pub open spec fn run(self, answers: Seq<JsonModel>) -> (InjectionModel, Seq<ActionModel>)
        decreases answers.len(),
    {
        if answers.len() == 0 {
            (self, Seq::empty())
        } else {
            let (state, actions) = self.run(answers.drop_last());
            let (next, action) = state.next(answers.last());
            (next, actions.push(action))
        }
    }

    /// How many more answers an injection can take.
    pub open spec fn remaining(self) -> nat {
        match self.stage {
            Stage::Enable => 14,
            Stage::Probe => 13,
            Stage::Previous => 12,
            Stage::Forget => 11,
            Stage::Register => 10,
            Stage::Persist => 9,
            Stage::Activate => 8,
            Stage::Verify(attempt) => if attempt < ATTEMPTS {
                (7 - attempt) as nat
            } else {
                2
            },
            Stage::Withdraw => 1,
            Stage::Done => 0,
        }
    }
}

/// An injection succeeds only when the page itself says that it shows the theme.
pub proof fn success_is_verified(injection: InjectionModel, answer: JsonModel)
    requires
        injection.next(answer).1 == ActionModel::Finish(true),
    ensures
        injection.stage is Verify,
        evaluated_true(answer),
{
}

/// Each answer brings an injection closer to its end, so that it ends after fourteen answers
/// at the latest.
pub proof fn injection_ends(injection: InjectionModel, answer: JsonModel)
    requires
        injection.stage != Stage::Done,
    ensures
        injection.next(answer).0.remaining() < injection.remaining() <= 14,
        injection.next(answer).0.stage == Stage::Done <==> injection.next(answer).1 is Finish,
{
}

/// An injection that fails leaves no script behind: either none was registered, or the last
/// command withdrew the one that was.
pub proof fn failure_withdraws(start: InjectionModel, answers: Seq<JsonModel>)
    requires
        start.stage == Stage::Enable,
        answers.len() > 0,
        start.run(answers.drop_last()).0.stage != Stage::Done,
        start.run(answers).1.last() == ActionModel::Finish(false),
    ensures
        ({
            let last = start.run(answers.drop_last()).0;
            let actions = start.run(answers).1;
            ||| last.stage == Stage::Enable
            ||| last.stage == Stage::Probe
            ||| last.stage == Stage::Register && registered(answers.last()) is None
            ||| actions.len() >= 2 && exists|id: u64|
                actions[actions.len() - 2].command() == Some(
                    #[trigger] withdraw_command(id, last.identifier),
                )
        }),
{
    let last = start.run(answers.drop_last()).0;
    if last.stage == Stage::Withdraw {
        let shorter = answers.drop_last();
        assert(shorter.len() > 0);
        let before = start.run(shorter.drop_last()).0;
        let done = before.next(shorter.last());
        assert(done.0 == last);
        assert(start.run(answers).1[start.run(answers).1.len() - 2] == done.1);
        let id: u64 = match before.stage {
            Stage::Persist => 6,
            Stage::Activate => 8,
            _ => 20,
        };
        assert(done.1.command() == Some(withdraw_command(id, last.identifier)));
    }
}

/// How far the removal of a theme from a page has come: the command whose answer is awaited.
#[derive(Clone, Copy, Debug, PartialEq, Eq, Structural)]
pub enum Removal {
    /// Switching the page's events on.
    Enable,
    /// Reading which script the page remembers.
    Previous,
    /// Withdrawing that script.
    Forget,
    /// Taking the theme out of the page.
    Clean,
    /// Done.
    Done,
}

/// What an answer leads to while a theme is taken out of a page.
pub open spec fn removal_next(stage: Removal, answer: JsonModel) -> (Removal, ActionModel) {
    match stage {
        Removal::Enable => if answer_ok(answer) {
            (Removal::Previous, ActionModel::Send(evaluate_command(2, REMEMBERED@)))
        } else {
            (Removal::Done, ActionModel::Finish(false))
        },
        Removal::Previous => match remembered(answer) {
            Some(script) => (Removal::Forget, ActionModel::Send(withdraw_command(3, script))),
            None => (Removal::Clean, ActionModel::Send(evaluate_command(4, CLEANUP@))),
        },
        Removal::Forget => (Removal::Clean, ActionModel::Send(evaluate_command(4, CLEANUP@))),
        Removal::Clean => (Removal::Done, ActionModel::Finish(evaluated_true(answer))),
        Removal::Done => (Removal::Done, ActionModel::Finish(false)),
    }
}

/// A theme counts as removed only when the page has run the cleanup and says so.
pub proof fn removal_is_confirmed(stage: Removal, answer: JsonModel)
    requires
        removal_next(stage, answer).1 == ActionModel::Finish(true),
    ensures
        stage == Removal::Clean,
        evaluated_true(answer),
        forall|earlier: Removal, reply: JsonModel|
            (#[trigger] removal_next(earlier, reply)).0 == stage ==> removal_next(
                earlier,
                reply,
            ).1 == ActionModel::Send(evaluate_command(4, CLEANUP@)),
{
}

/// Starts the removal of a theme from a page.
pub fn begin_removal() -> (r: (Removal, Action))
    ensures
        r.0 == Removal::Enable,
        r.1@ == ActionModel::Send(enable_command()),
        r.1@.sendable(),
{
    (Removal::Enable, Action::Send(enable()))
}

/// What an answer leads to while a theme is taken out of a page.
pub fn remove_target(stage: Removal, answer: &Json) -> (r: (Removal, Action))
    ensures
        (r.0, r.1@) == removal_next(stage, answer@),
        r.1@.sendable(),
{
    match stage {
        Removal::Enable => {
            if successful(answer) {
                (Removal::Previous, Action::Send(evaluate(2, REMEMBERED)))
            } else {
                (Removal::Done, Action::Finish(false))
            }
        },
        Removal::Previous => match remembered_script(answer) {
            Some(script) => (Removal::Forget, Action::Send(remove_script(script, 3))),
            None => (Removal::Clean, Action::Send(evaluate(4, CLEANUP))),
        },
        Removal::Forget => (Removal::Clean, Action::Send(evaluate(4, CLEANUP))),
        Removal::Clean => (Removal::Done, Action::Finish(is_true(answer))),
        Removal::Done => (Removal::Done, Action::Finish(false)),
    }
}

} // verus!
