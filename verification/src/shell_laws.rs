//! What holds of the requests for themes, of previews, and of putting a theme on or taking it off.

use crate::cdp::InjectionOutcome;
use crate::error::{AppError, ErrorModel};
use crate::shell::{
    activation, activations, apply_next, mime, preview_fault, rollback_next, rolled_back,
    ActivationQueue, ApplyModel, ApplyStep, PreviewTarget, Rollback, RollbackEvent,
    RollbackEventModel, RollbackModel, TargetModel, MAX_PREVIEW,
};
use crate::text::{begins, ends, lower};
use crate::text_laws::{ends_of_texts, lowering_adds};
use vstd::prelude::*;

verus! {

/// An argument asks for a theme where it is a link of the program, with anything behind the
/// scheme, or the name of a package, with anything before the extension and that in any case; and
/// no other argument does.
pub proof fn requests_are(value: Seq<char>)
    ensures
        activation(value) <==> (exists|rest: Seq<char>| value == #[trigger] ("dreamskin:"@ + rest))
            || (exists|front: Seq<char>, extension: Seq<char>|
            value == #[trigger] (front + extension) && lower(extension) == ".dreamskin"@),
{
    ends_of_texts(value, "dreamskin:"@);
    ends_of_texts(lower(value), ".dreamskin"@);
    if begins(value, "dreamskin:"@) {
        let rest = value.skip("dreamskin:"@.len() as int);
        assert(value =~= "dreamskin:"@ + rest);
    }
    let n = ".dreamskin"@.len();
    if ends(lower(value), ".dreamskin"@) {
        let at = value.len() - n;
        let front = value.take(at);
        let extension = value.skip(at);
        assert(value =~= front + extension);
        assert(lower(extension) =~= lower(value).skip(at));
        assert(lower(value).skip(at) =~= ".dreamskin"@);
    }
    assert forall|front: Seq<char>, extension: Seq<char>|
        value == #[trigger] (front + extension) && lower(extension) == ".dreamskin"@ implies ends(
        lower(value),
        ".dreamskin"@,
    ) by {
        lowering_adds(front, extension);
        assert(lower(value) =~= lower(front) + ".dreamskin"@);
        assert(lower(value) == lower(front) + ".dreamskin"@);
    }
}

proof fn requests_add(a: Seq<Seq<char>>, b: Seq<Seq<char>>)
    ensures
        activations(a + b) == activations(a) + activations(b),
    decreases b.len(),
{
    if b.len() == 0 {
        assert(a + b =~= a);
        assert(activations(a) + activations(b) =~= activations(a));
    } else {
        assert((a + b).drop_last() =~= a + b.drop_last());
        assert((a + b).last() == b.last());
        requests_add(a, b.drop_last());
        assert(activations(a + b) =~= activations(a) + activations(b));
    }
}

/// Of a list of arguments those that ask for a theme are picked, each on its own and in their
/// order, and no other.
pub proof fn requests_are_picked(a: Seq<Seq<char>>, value: Seq<char>, b: Seq<Seq<char>>)
    ensures
        activations(Seq::empty()) == Seq::<Seq<char>>::empty(),
        activation(value) ==> activations(a + seq![value] + b) == activations(a) + seq![value]
            + activations(b),
        !activation(value) ==> activations(a + seq![value] + b) == activations(a) + activations(b),
{
    requests_add(a + seq![value], b);
    requests_add(a, seq![value]);
    assert(seq![value].drop_last() =~= Seq::<Seq<char>>::empty());
    reveal_with_fuel(activations, 2);
    if activation(value) {
        assert(activations(seq![value]) =~= seq![value]);
    } else {
        assert(activations(seq![value]) =~= Seq::<Seq<char>>::empty());
        assert(activations(a) + Seq::<Seq<char>>::empty() =~= activations(a));
    }
}

/// Which images are shown, and as what: by the extension of the file, in any case.
pub proof fn images_are_shown(extension: Seq<char>)
    ensures
        mime(extension) == Some("image/png"@) <==> lower(extension) == "png"@,
        mime(extension) == Some("image/jpeg"@) <==> lower(extension) == "jpg"@ || lower(extension)
            == "jpeg"@,
        mime(extension) == Some("image/webp"@) <==> lower(extension) == "webp"@,
        mime(extension) == Some("image/avif"@) <==> lower(extension) == "avif"@,
        mime(extension) is Some ==> mime(extension) == Some("image/png"@) || mime(extension)
            == Some("image/jpeg"@) || mime(extension) == Some("image/webp"@) || mime(extension)
            == Some("image/avif"@),
{
    reveal_strlit("image/png");
    reveal_strlit("image/jpeg");
    reveal_strlit("image/webp");
    reveal_strlit("image/avif");
    reveal_strlit("png");
    reveal_strlit("jpg");
    reveal_strlit("jpeg");
    reveal_strlit("webp");
    reveal_strlit("avif");
    assert("image/jpeg"@[6] == 'j' && "image/webp"@[6] == 'w' && "image/avif"@[6] == 'a');
    assert("jpeg"@[0] == 'j' && "webp"@[0] == 'w' && "avif"@[0] == 'a');
    assert("png"@[0] == 'p' && "jpg"@[0] == 'j');
}

/// An image is shown where it lies among the themes and is of such a type; where it does not lie
/// among them, that is said first.
pub proof fn previews_are_refused(allowed: bool, extension: Seq<char>)
    ensures
        !allowed ==> preview_fault(allowed, extension) == Some(
            ErrorModel::Message("拒绝读取主题目录之外的图片。"@),
        ),
        allowed && mime(extension) is None ==> preview_fault(allowed, extension) == Some(
            ErrorModel::Message("不支持的预览图片格式。"@),
        ),
        preview_fault(allowed, extension) is None <==> allowed && mime(extension) is Some,
        MAX_PREVIEW == 20 * 1024 * 1024,
{
}

/// A theme that a page took is on. Else two more attempts follow the first one, each after 350
/// milliseconds, and then the user reads why: because no page was there, or because those that
/// were there did not take it.
pub proof fn attempts_are_made(attempt: u32, outcome: InjectionOutcome)
    ensures
        outcome.applied > 0 ==> apply_next(attempt, outcome) == ApplyModel::Applied,
        outcome.applied == 0 && attempt < 2 ==> apply_next(attempt, outcome) == ApplyModel::Retry(
            350,
        ),
        outcome.applied == 0 && attempt >= 2 && outcome.candidates == 0 ==> apply_next(
            attempt,
            outcome,
        ) == ApplyModel::Failed(
            ErrorModel::Message("已连接 Codex 主题端口，但主窗口尚未完成初始化，请稍后重试。"@),
        ),
        outcome.applied == 0 && attempt >= 2 && outcome.candidates > 0 ==> apply_next(
            attempt,
            outcome,
        ) == ApplyModel::Failed(
            ErrorModel::Message(
                "已连接 Codex 主题端口，但当前 Codex 页面结构暂不受支持，请更新 Codex-Skin。"@,
            ),
        ),
{
}

/// Taking a theme off begins with the question whether the program answers. Where it does not,
/// nothing is on. Where it does, up to three attempts are made; one that reaches a page ends it,
/// and so does one that reaches none. After the third failure the program is asked once more: only
/// where it still answers has taking the theme off failed, with the last reason.
pub proof fn rollbacks_go_on(attempt: u32, count: nat, error: ErrorModel, text: Seq<char>)
    ensures
        rollback_next(RollbackModel::Start, RollbackEventModel::Ready(true))
            == RollbackModel::Remove(0),
        rollback_next(RollbackModel::Start, RollbackEventModel::Ready(false))
            == RollbackModel::Done(Ok("当前已经是默认主题"@)),
        rollback_next(RollbackModel::Remove(attempt), RollbackEventModel::Removed(Ok(count)))
            == RollbackModel::Done(
            Ok(
                if count > 0 {
                    "已恢复默认主题"@
                } else {
                    "当前已经是默认主题"@
                },
            ),
        ),
        attempt < 2 ==> rollback_next(
            RollbackModel::Remove(attempt),
            RollbackEventModel::Removed(Err(error)),
        ) == RollbackModel::Remove((attempt + 1) as u32),
        attempt >= 2 ==> rollback_next(
            RollbackModel::Remove(attempt),
            RollbackEventModel::Removed(Err(error)),
        ) == RollbackModel::Confirm(error.text()),
        rollback_next(RollbackModel::Confirm(text), RollbackEventModel::Ready(true))
            == RollbackModel::Done(
            Err(
                ErrorModel::Message(
                    "恢复默认主题失败，请关闭并重新打开 Codex 后重试："@ + text,
                ),
            ),
        ),
        rollback_next(RollbackModel::Confirm(text), RollbackEventModel::Ready(false))
            == RollbackModel::Done(Ok("当前已经是默认主题"@)),
{
}

/// What was not asked for changes nothing, and what has ended stays so.
pub proof fn rollbacks_wait(
    attempt: u32,
    ready: bool,
    removed: Result<nat, ErrorModel>,
    text: Seq<char>,
    result: Result<Seq<char>, ErrorModel>,
    event: RollbackEventModel,
)
    ensures
        rollback_next(RollbackModel::Start, RollbackEventModel::Removed(removed))
            == RollbackModel::Start,
        rollback_next(RollbackModel::Remove(attempt), RollbackEventModel::Ready(ready))
            == RollbackModel::Remove(attempt),
        rollback_next(RollbackModel::Confirm(text), RollbackEventModel::Removed(removed))
            == RollbackModel::Confirm(text),
        rollback_next(RollbackModel::Done(result), event) == RollbackModel::Done(result),
{
}

/// What the user reads in the end: that the theme was taken off, exactly where the program answers
/// and the first of three attempts that does not fail reaches a page; the reason of the third
/// attempt, where all three fail and the program still answers; and else that no theme is on.
pub proof fn rollbacks_end(
    first: bool,
    last: bool,
    removed: spec_fn(u32) -> Result<nat, ErrorModel>,
)
    ensures
        ({
            let end = rolled_back(RollbackModel::Start, first, last, removed);
            let reached = if removed(0) is Ok {
                removed(0)->Ok_0
            } else if removed(1) is Ok {
                removed(1)->Ok_0
            } else if removed(2) is Ok {
                removed(2)->Ok_0
            } else {
                0
            };
            let lost = removed(0) is Err && removed(1) is Err && removed(2) is Err;
            if first && reached > 0 {
                end == RollbackModel::Done(Ok("已恢复默认主题"@))
            } else if first && last && lost {
                end == RollbackModel::Done(
                    Err(
                        ErrorModel::Message(
                            "恢复默认主题失败，请关闭并重新打开 Codex 后重试："@
                                + removed(2)->Err_0.text(),
                        ),
                    ),
                )
            } else {
                end == RollbackModel::Done(Ok("当前已经是默认主题"@))
            }
        }),
{
    reveal_with_fuel(rolled_back, 6);
}

/// What is asked for, what came of it and what follows say what they hold.
pub proof fn requests_are_what_they_hold(
    queue: ActivationQueue,
    i: int,
    text: String,
    pause: u64,
    attempt: u32,
    ready: bool,
    count: usize,
    error: AppError,
)
    ensures
        queue@.len() == queue.waiting@.len(),
        0 <= i < queue@.len() ==> queue@[i] == queue.waiting@[i]@,
        PreviewTarget::Remote(text)@ == TargetModel::Remote(text@),
        PreviewTarget::Local(text)@ == TargetModel::Local(text@),
        ApplyStep::Applied@ == ApplyModel::Applied,
        ApplyStep::Retry(pause)@ == ApplyModel::Retry(pause),
        ApplyStep::Failed(error)@ == ApplyModel::Failed(error@),
        Rollback::Start@ == RollbackModel::Start,
        Rollback::Remove(attempt)@ == RollbackModel::Remove(attempt),
        Rollback::Confirm(text)@ == RollbackModel::Confirm(text@),
        Rollback::Done(Ok(text))@ == RollbackModel::Done(Ok(text@)),
        Rollback::Done(Err(error))@ == RollbackModel::Done(Err(error@)),
        RollbackEvent::Ready(ready)@ == RollbackEventModel::Ready(ready),
        RollbackEvent::Removed(Ok(count))@ == RollbackEventModel::Removed(Ok(count as nat)),
        RollbackEvent::Removed(Err(error))@ == RollbackEventModel::Removed(Err(error@)),
{
}

} // verus!
