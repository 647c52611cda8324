//! What the window of the program asks for: previews, activations, and putting a theme on or
//! taking it off.

use crate::cdp::InjectionOutcome;
use crate::error::{broken, fault, AppError, ErrorModel};
use crate::outside::{base64_encode, base64_text};
use crate::text::{
    ascii_lowercase, begins, begins_with, chars_of, ends, ends_with, join2, join4, lower, same,
    strings, text_of,
};
use crate::theme::unless;
use vstd::prelude::*;

verus! {

/// Whether an argument asks for a theme: a link of the program, or a package.
pub open spec fn activation(value: Seq<char>) -> bool {
    begins(value, "dreamskin:"@) || ends(lower(value), ".dreamskin"@)
}

/// Whether an argument asks for a theme.
pub fn is_activation(value: &str) -> (r: bool)
    ensures
        r == activation(value@),
{
    begins_with(value, "dreamskin:") || ends_with(&ascii_lowercase(value), ".dreamskin")
}

/// The arguments that ask for a theme, in their order.
pub open spec fn activations(values: Seq<Seq<char>>) -> Seq<Seq<char>>
    decreases values.len(),
{
    if values.len() == 0 {
        Seq::empty()
    } else if activation(values.last()) {
        activations(values.drop_last()).push(values.last())
    } else {
        activations(values.drop_last())
    }
}

fn pick_activations(values: &Vec<String>, from: usize) -> (r: Vec<String>)
    requires
        from <= values@.len(),
    ensures
        strings(r@) == activations(strings(values@).skip(from as int)),
{
    let ghost all = strings(values@).skip(from as int);
    let mut picked: Vec<String> = Vec::new();
    let mut i: usize = from;
    assert(all.take(0) =~= Seq::empty());
    assert(strings(picked@) =~= Seq::empty());
    while i < values.len()
        invariant
            from <= i <= values@.len(),
            all == strings(values@).skip(from as int),
            strings(picked@) == activations(all.take(i - from)),
        decreases values@.len() - i,
    {
        let ghost next = all.take(i + 1 - from);
        assert(next.drop_last() =~= all.take(i - from));
        assert(next.last() == values@[i as int]@);
        let ghost earlier = strings(picked@);
        if is_activation(&values[i]) {
            picked.push(values[i].clone());
            assert(strings(picked@) =~= earlier.push(values@[i as int]@));
        }
        i += 1;
    }
    assert(all.take(i - from) =~= all);
    picked
}

/// The arguments of another start of the program that ask for a theme.
pub fn repeated_activations(arguments: &Vec<String>) -> (r: Vec<String>)
    ensures
        strings(r@) == activations(strings(arguments@)),
{
    assert(strings(arguments@).skip(0) =~= strings(arguments@));
    pick_activations(arguments, 0)
}

/// The arguments of the first start of the program that ask for a theme; the first of them is
/// the program itself.
pub fn initial_activations(arguments: &Vec<String>) -> (r: Vec<String>)
    ensures
        strings(r@) == (if arguments@.len() > 0 {
            activations(strings(arguments@).skip(1))
        } else {
            Seq::empty()
        }),
{
    if arguments.len() == 0 {
        let none: Vec<String> = Vec::new();
        assert(strings(none@) =~= Seq::empty());
        return none;
    }
    pick_activations(arguments, 1)
}

/// The requests for themes that the window has not asked for yet.
#[derive(Debug)]
pub struct ActivationQueue {
    pub waiting: Vec<String>,
}

impl View for ActivationQueue {
    type V = Seq<Seq<char>>;

    open spec fn view(&self) -> Seq<Seq<char>> {
        strings(self.waiting@)
    }
}

impl ActivationQueue {
    /// A queue with nothing in it.
    pub fn new() -> (queue: ActivationQueue)
        ensures
            queue@ == Seq::<Seq<char>>::empty(),
    {
        let queue = ActivationQueue { waiting: Vec::new() };
        assert(queue@ =~= Seq::empty());
        queue
    }

    /// Puts requests behind those that wait.
    pub fn extend(&mut self, more: Vec<String>)
        ensures
            final(self)@ == old(self)@ + strings(more@),
    {
        let ghost before = self@;
        let ghost all = strings(more@);
        let mut i: usize = 0;
        while i < more.len()
            invariant
                i <= more@.len(),
                all == strings(more@),
                self@ == before + all.take(i as int),
            decreases more@.len() - i,
        {
            let ghost earlier = self@;
            self.waiting.push(more[i].clone());
            assert(self@ =~= earlier.push(all[i as int]));
            i += 1;
            assert(self@ =~= before + all.take(i as int));
        }
        assert(all.take(i as int) =~= all);
    }

    /// Hands out all requests that wait, and leaves none.
    pub fn pending_activations(&mut self) -> (r: Vec<String>)
        ensures
            strings(r@) == old(self)@,
            final(self)@ == Seq::<Seq<char>>::empty(),
    {
        let mut taken: Vec<String> = Vec::new();
        std::mem::swap(&mut taken, &mut self.waiting);
        assert(self@ =~= Seq::empty());
        taken
    }
}

proof fn activations_add(a: Seq<Seq<char>>, b: Seq<Seq<char>>)
    ensures
        activations(a + b) == activations(a) + activations(b),
    decreases b.len(),
{
    if b.len() == 0 {
        assert(a + b =~= a);
        assert(activations(a) + activations(b) =~= activations(a));
    } else {
        assert((a + b).drop_last() =~= a + b.drop_last());
        assert((a + b).last() == b.last());
        activations_add(a, b.drop_last());
        assert(activations(a + b) =~= activations(a) + activations(b));
    }
}

/// The requests of two starts of the program, one after the other, are those of both together:
/// none is lost, and they keep their order.
pub proof fn activations_are_kept(
    waiting: Seq<Seq<char>>,
    first: Seq<Seq<char>>,
    second: Seq<Seq<char>>,
)
    ensures
        waiting + activations(first) + activations(second) == waiting + activations(first + second),
{
    activations_add(first, second);
    assert(waiting + activations(first) + activations(second) =~= waiting + activations(
        first + second,
    ));
}

/// What a preview is asked for by.
#[derive(Debug)]
pub enum PreviewTarget {
    /// The theme of the catalog with that identifier.
    Remote(String),
    /// A file.
    Local(String),
}

/// What a [`PreviewTarget`] says.
pub enum TargetModel {
    Remote(Seq<char>),
    Local(Seq<char>),
}

impl View for PreviewTarget {
    type V = TargetModel;

    open spec fn view(&self) -> TargetModel {
        match self {
            PreviewTarget::Remote(id) => TargetModel::Remote(id@),
            PreviewTarget::Local(path) => TargetModel::Local(path@),
        }
    }
}

/// What a preview is asked for by: `remote://` and the identifier of a theme, or a path.
pub fn preview_target(path: &str) -> (target: PreviewTarget)
    ensures
        target@ == (if begins(path@, "remote://"@) {
            TargetModel::Remote(path@.skip("remote://"@.len() as int))
        } else {
            TargetModel::Local(path@)
        }),
{
    if begins_with(path, "remote://") {
        let chars = chars_of(path);
        let from: usize = chars_of("remote://").len();
        let id = text_of(&chars, from, chars.len());
        assert(id@ =~= path@.skip(from as int));
        PreviewTarget::Remote(id)
    } else {
        PreviewTarget::Local(path.to_owned())
    }
}

/// The type of an image by its file's extension, in any case.
pub open spec fn mime(extension: Seq<char>) -> Option<Seq<char>> {
    let low = lower(extension);
    if low == "png"@ {
        Some("image/png"@)
    } else if low == "jpg"@ || low == "jpeg"@ {
        Some("image/jpeg"@)
    } else if low == "webp"@ {
        Some("image/webp"@)
    } else if low == "avif"@ {
        Some("image/avif"@)
    } else {
        None
    }
}

/// What keeps a file from being shown as a preview, before it is read.
pub open spec fn preview_fault(allowed: bool, extension: Seq<char>) -> Option<ErrorModel> {
    if !allowed {
        broken("拒绝读取主题目录之外的图片。"@)
    } else {
        unless(mime(extension) is Some, "不支持的预览图片格式。"@)
    }
}

/// The type of a preview: `allowed` tells whether the file lies among the themes.
pub fn preview_type(allowed: bool, extension: &str) -> (r: Result<&'static str, AppError>)
    ensures
        fault(r) == preview_fault(allowed, extension@),
        r is Ok ==> mime(extension@) == Some(r->Ok_0@),
{
    if !allowed {
        return Err(AppError::Message("拒绝读取主题目录之外的图片。".to_owned()));
    }
    let low = ascii_lowercase(extension);
    if same(&low, "png") {
        Ok("image/png")
    } else if same(&low, "jpg") || same(&low, "jpeg") {
        Ok("image/jpeg")
    } else if same(&low, "webp") {
        Ok("image/webp")
    } else if same(&low, "avif") {
        Ok("image/avif")
    } else {
        Err(AppError::Message("不支持的预览图片格式。".to_owned()))
    }
}

/// How many bytes a preview may have.
pub const MAX_PREVIEW: usize = 20971520;

/// A preview as the window shows it: a link that holds the image.
pub fn read_preview(mime: &str, bytes: &Vec<u8>) -> (r: Result<String, AppError>)
    ensures
        fault(r) == unless(bytes@.len() <= MAX_PREVIEW, "预览图片超过 20 MB 限制。"@),
        r is Ok ==> r->Ok_0@ == "data:"@ + mime@ + ";base64,"@ + base64_text(bytes@),
{
    if bytes.len() > MAX_PREVIEW {
        return Err(AppError::Message("预览图片超过 20 MB 限制。".to_owned()));
    }
    Ok(join4("data:", mime, ";base64,", &base64_encode(bytes)))
}

/// How many times a theme is tried to be put on, or taken off.
pub const ATTEMPTS: u32 = 3;

/// How long to wait before another attempt, in milliseconds.
pub const PAUSE_MILLIS: u64 = 350;

/// What follows from an attempt to put a theme on.
#[derive(Debug)]
pub enum ApplyStep {
    /// The theme is on.
    Applied,
    /// Another attempt, after that many milliseconds.
    Retry(u64),
    /// The theme is not on.
    Failed(AppError),
}

/// What an [`ApplyStep`] says.
pub enum ApplyModel {
    Applied,
    Retry(u64),
    Failed(ErrorModel),
}

impl View for ApplyStep {
    type V = ApplyModel;

    open spec fn view(&self) -> ApplyModel {
        match self {
            ApplyStep::Applied => ApplyModel::Applied,
            ApplyStep::Retry(pause) => ApplyModel::Retry(*pause),
            ApplyStep::Failed(error) => ApplyModel::Failed(error@),
        }
    }
}

/// What the user reads when no page took the theme.
pub open spec fn not_taken(outcome: InjectionOutcome) -> Seq<char> {
    if outcome.candidates == 0 {
        "已连接 Codex 主题端口，但主窗口尚未完成初始化，请稍后重试。"@
    } else {
        "已连接 Codex 主题端口，但当前 Codex 页面结构暂不受支持，请更新 Codex-Skin。"@
    }
}

/// What follows from an attempt, the first being number 0.
pub open spec fn apply_next(attempt: u32, outcome: InjectionOutcome) -> ApplyModel {
    if outcome.applied > 0 {
        ApplyModel::Applied
    } else if attempt + 1 < ATTEMPTS {
        ApplyModel::Retry(PAUSE_MILLIS)
    } else {
        ApplyModel::Failed(ErrorModel::Message(not_taken(outcome)))
    }
}

/// What follows from an attempt to put a theme on, the first being number 0.
pub fn apply_theme(attempt: u32, outcome: InjectionOutcome) -> (step: ApplyStep)
    ensures
        step@ == apply_next(attempt, outcome),
{
    if outcome.applied > 0 {
        return ApplyStep::Applied;
    }
    if attempt < ATTEMPTS - 1 {
        return ApplyStep::Retry(PAUSE_MILLIS);
    }
    ApplyStep::Failed(
        AppError::Message(
            if outcome.candidates == 0 {
                "已连接 Codex 主题端口，但主窗口尚未完成初始化，请稍后重试。".to_owned()
            } else {
                "已连接 Codex 主题端口，但当前 Codex 页面结构暂不受支持，请更新 Codex-Skin。".to_owned()
            },
        ),
    )
}

/// How putting a theme on comes out, from an attempt on, where `outcomes` is what each attempt
/// gives.
pub open spec fn applied(attempt: u32, outcomes: spec_fn(u32) -> InjectionOutcome) -> ApplyModel
    decreases ATTEMPTS - attempt,
{
    match apply_next(attempt, outcomes(attempt)) {
        ApplyModel::Retry(_) => applied((attempt + 1) as u32, outcomes),
        step => step,
    }
}

/// A theme is put on exactly when one of three attempts takes; else the last one gives the
/// reason.
pub proof fn three_attempts(outcomes: spec_fn(u32) -> InjectionOutcome)
    ensures
        applied(0, outcomes) == (if outcomes(0).applied > 0 || outcomes(1).applied > 0 || outcomes(
            2,
        ).applied > 0 {
            ApplyModel::Applied
        } else {
            ApplyModel::Failed(ErrorModel::Message(not_taken(outcomes(2))))
        }),
{
    reveal_with_fuel(applied, 3);
}

/// Where taking a theme off stands.
#[derive(Debug)]
pub enum Rollback {
    /// Whether the program answers on its port is asked for.
    Start,
    /// The theme is taken off, for the time with that number.
    Remove(u32),
    /// Whether the program still answers is asked for, after the last attempt failed so.
    Confirm(String),
    /// The theme is off, as the user reads, or is not.
    Done(Result<String, AppError>),
}

/// What a [`Rollback`] says.
pub enum RollbackModel {
    Start,
    Remove(u32),
    Confirm(Seq<char>),
    Done(Result<Seq<char>, ErrorModel>),
}

impl View for Rollback {
    type V = RollbackModel;

    open spec fn view(&self) -> RollbackModel {
        match self {
            Rollback::Start => RollbackModel::Start,
            Rollback::Remove(attempt) => RollbackModel::Remove(*attempt),
            Rollback::Confirm(text) => RollbackModel::Confirm(text@),
            Rollback::Done(Ok(text)) => RollbackModel::Done(Ok(text@)),
            Rollback::Done(Err(error)) => RollbackModel::Done(Err(error@)),
        }
    }
}

/// What came of a step of taking a theme off.
#[derive(Debug)]
pub enum RollbackEvent {
    /// Whether the program answers on its port.
    Ready(bool),
    /// From how many pages the theme was taken, or why it was not.
    Removed(Result<usize, AppError>),
}

/// What a [`RollbackEvent`] says.
pub enum RollbackEventModel {
    Ready(bool),
    Removed(Result<nat, ErrorModel>),
}

impl View for RollbackEvent {
    type V = RollbackEventModel;

    open spec fn view(&self) -> RollbackEventModel {
        match self {
            RollbackEvent::Ready(ready) => RollbackEventModel::Ready(*ready),
            RollbackEvent::Removed(Ok(count)) => RollbackEventModel::Removed(Ok(*count as nat)),
            RollbackEvent::Removed(Err(error)) => RollbackEventModel::Removed(Err(error@)),
        }
    }
}

/// What the user reads when there was no theme on.
pub open spec fn plain() -> RollbackModel {
    RollbackModel::Done(Ok("当前已经是默认主题"@))
}

/// Where taking a theme off stands after an event. One that was not asked for changes nothing.
pub open spec fn rollback_next(state: RollbackModel, event: RollbackEventModel) -> RollbackModel {
    match (state, event) {
        (RollbackModel::Start, RollbackEventModel::Ready(ready)) => if ready {
            RollbackModel::Remove(0)
        } else {
            plain()
        },
        (RollbackModel::Remove(_), RollbackEventModel::Removed(Ok(count))) => if count == 0 {
            plain()
        } else {
            RollbackModel::Done(Ok("已恢复默认主题"@))
        },
        (RollbackModel::Remove(attempt), RollbackEventModel::Removed(Err(error))) => if attempt + 1
            < ATTEMPTS {
            RollbackModel::Remove((attempt + 1) as u32)
        } else {
            RollbackModel::Confirm(error.text())
        },
        (RollbackModel::Confirm(text), RollbackEventModel::Ready(ready)) => if ready {
            RollbackModel::Done(
                Err(
                    ErrorModel::Message(
                        "恢复默认主题失败，请关闭并重新打开 Codex 后重试："@ + text,
                    ),
                ),
            )
        } else {
            plain()
        },
        _ => state,
    }
}

/// How long to wait before an attempt to take a theme off, in milliseconds: the first is made at
/// once.
pub fn rollback_pause(attempt: u32) -> (r: u64)
    ensures
        r == (if attempt == 0 {
            0
        } else {
            PAUSE_MILLIS
        }),
{
    if attempt == 0 {
        0
    } else {
        PAUSE_MILLIS
    }
}

/// Takes the taking off of a theme one event further.
pub fn rollback_theme(state: Rollback, event: RollbackEvent) -> (r: Rollback)
    ensures
        r@ == rollback_next(state@, event@),
{
    match (state, event) {
        (Rollback::Start, RollbackEvent::Ready(ready)) => if ready {
            Rollback::Remove(0)
        } else {
            Rollback::Done(Ok("当前已经是默认主题".to_owned()))
        },
        (Rollback::Remove(_), RollbackEvent::Removed(Ok(count))) => if count == 0 {
            Rollback::Done(Ok("当前已经是默认主题".to_owned()))
        } else {
            Rollback::Done(Ok("已恢复默认主题".to_owned()))
        },
        (Rollback::Remove(attempt), RollbackEvent::Removed(Err(error))) => if attempt < ATTEMPTS
            - 1 {
            Rollback::Remove(attempt + 1)
        } else {
            Rollback::Confirm(error.message())
        },
        (Rollback::Confirm(text), RollbackEvent::Ready(ready)) => if ready {
            Rollback::Done(
                Err(
                    AppError::Message(
                        join2("恢复默认主题失败，请关闭并重新打开 Codex 后重试：", &text),
                    ),
                ),
            )
        } else {
            Rollback::Done(Ok("当前已经是默认主题".to_owned()))
        },
        (state, _) => state,
    }
}

/// What comes of taking a theme off, from a state on, where `first` and `last` tell whether the
/// program answers before and after the attempts, and `removed` is what each attempt gives.
pub open spec fn rolled_back(
    state: RollbackModel,
    first: bool,
    last: bool,
    removed: spec_fn(u32) -> Result<nat, ErrorModel>,
) -> RollbackModel
    decreases rollback_left(state),
{
    match state {
        RollbackModel::Start => rolled_back(
            rollback_next(state, RollbackEventModel::Ready(first)),
            first,
            last,
            removed,
        ),
        RollbackModel::Remove(attempt) => rolled_back(
            rollback_next(state, RollbackEventModel::Removed(removed(attempt))),
            first,
            last,
            removed,
        ),
        RollbackModel::Confirm(_) => rolled_back(
            rollback_next(state, RollbackEventModel::Ready(last)),
            first,
            last,
            removed,
        ),
        RollbackModel::Done(_) => state,
    }
}

/// How far the taking off of a theme is from its end.
pub open spec fn rollback_left(state: RollbackModel) -> nat {
    match state {
        RollbackModel::Start => 10,
        RollbackModel::Remove(attempt) => if attempt < ATTEMPTS {
            (ATTEMPTS - attempt + 1) as nat
        } else {
            2
        },
        RollbackModel::Confirm(_) => 1,
        RollbackModel::Done(_) => 0,
    }
}

/// Where the program does not answer, the theme is off already, and nothing is done. The user
/// reads of a failure only when three attempts failed and the program still answers.
pub proof fn rollback_fails_last(
    first: bool,
    last: bool,
    removed: spec_fn(u32) -> Result<nat, ErrorModel>,
)
    ensures
        !first ==> rolled_back(RollbackModel::Start, first, last, removed) == plain(),
        (rolled_back(RollbackModel::Start, first, last, removed) matches RollbackModel::Done(
            Err(_),
        )) <==> first && last && removed(0) is Err && removed(1) is Err && removed(2) is Err,
{
    reveal_with_fuel(rolled_back, 6);
}

/// What the user reads when a theme was downloaded.
pub fn download_theme(name: &str) -> (r: String)
    ensures
        r@ == name@ + " 已下载"@,
{
    join2(name, " 已下载")
}

/// What the user reads when a theme was deleted; `removed` tells whether there was anything to
/// delete.
pub fn delete_theme(name: &str, removed: bool) -> (r: String)
    ensures
        r@ == name@ + (if removed {
            " 已从本地删除"@
        } else {
            " 没有可删除的本地文件"@
        }),
{
    if removed {
        join2(name, " 已从本地删除")
    } else {
        join2(name, " 没有可删除的本地文件")
    }
}

/// What the user reads when a theme is on.
pub fn theme_applied(name: &str) -> (r: String)
    ensures
        r@ == name@ + " 已应用"@,
{
    join2(name, " 已应用")
}

/// The error when the task that imports a package broke off.
pub fn import_failed(error: &str) -> (r: AppError)
    ensures
        r@ == ErrorModel::Message("主题导入任务失败："@ + error@),
{
    AppError::Message(join2("主题导入任务失败：", error))
}

} // verus!
