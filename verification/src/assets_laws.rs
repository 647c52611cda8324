//! What holds of the images that a theme's manifest names, in the plainest terms.

use crate::assets::{
    asset_fault, asset_models, decoded, image_models, left, limits, walk, AssetModel, AssetRequest,
    Image, ImageModel, StepModel,
};
use crate::error::ErrorModel;
use crate::rules::asset_path;
use vstd::prelude::*;

verus! {

/// How many bytes an image of a directory may have: 2 MiB in the previews, 16 in the backgrounds,
/// 4 in the effects, 20 elsewhere.
pub open spec fn most_bytes(directory: Seq<char>) -> nat {
    if directory == "previews"@ {
        2097152
    } else if directory == "backgrounds"@ {
        16777216
    } else if directory == "effects"@ {
        4194304
    } else {
        20971520
    }
}

/// How many pixels a side of an image of a directory may have: 2400 in the previews, 4096 in the
/// effects, 8192 elsewhere.
pub open spec fn most_pixels(directory: Seq<char>) -> nat {
    if directory == "previews"@ {
        2400
    } else if directory == "effects"@ {
        4096
    } else {
        8192
    }
}

/// An image that a manifest names is sound exactly where its path is, and it was found, decoded
/// and is within the bounds of its directory. Else the error tells which of these failed first.
pub proof fn images_are_sound(asset: AssetModel, image: ImageModel)
    ensures
        !asset_path(asset.relative, asset.directory) ==> asset_fault(asset, image) == Some(
            ErrorModel::Message("主题资源路径无效："@ + asset.relative),
        ),
        asset_path(asset.relative, asset.directory) ==> {
            &&& image matches ImageModel::Failed(text) ==> asset_fault(asset, image) == Some(
                ErrorModel::Io(text),
            )
            &&& image is Outside ==> asset_fault(asset, image) == Some(
                ErrorModel::Message("主题资源越界或不存在："@ + asset.relative),
            )
            &&& image matches ImageModel::Found(_, Err(text)) ==> asset_fault(asset, image) == Some(
                ErrorModel::Message("主题图片无法解码："@ + text),
            )
            &&& image matches ImageModel::Found(length, Ok((width, height))) ==> asset_fault(
                asset,
                image,
            ) == (if length <= most_bytes(asset.directory) && width <= most_pixels(asset.directory)
                && height <= most_pixels(asset.directory) {
                None
            } else {
                Some(
                    ErrorModel::Message(
                        "主题图片超过 "@ + asset.directory + " 的大小或尺寸限制："@
                            + asset.relative,
                    ),
                )
            })
        },
{
    reveal_strlit("previews");
    reveal_strlit("backgrounds");
    reveal_strlit("effects");
    assert("previews"@.len() == 8 && "backgrounds"@.len() == 11 && "effects"@.len() == 7);
    assert(limits(asset.directory) == (most_bytes(asset.directory), most_pixels(asset.directory)));
}

/// What was decoded is kept as it came.
pub proof fn decoding_is_kept(outcome: Result<(u32, u32), String>)
    ensures
        outcome matches Ok(size) ==> decoded(outcome) == Ok::<(u32, u32), Seq<char>>(size),
        outcome matches Err(text) ==> decoded(outcome) == Err::<(u32, u32), Seq<char>>(text@),
{
}

/// A check of images goes on to the first of them that is not known to be sound: it ends with the
/// error of that one, where its path is refused or it was looked at, and else asks for it.
pub proof fn the_first_image_decides(assets: Seq<AssetModel>, images: Seq<ImageModel>, k: int)
    requires
        0 <= k < assets.len(),
        k <= images.len(),
        forall|i: int| 0 <= i < k ==> asset_fault(#[trigger] assets[i], images[i]) is None,
        k < images.len() ==> asset_fault(assets[k], images[k]) is Some,
    ensures
        walk(assets, images) == (if !asset_path(assets[k].relative, assets[k].directory) {
            Some(
                StepModel::Finished(
                    Some(ErrorModel::Message("主题资源路径无效："@ + assets[k].relative)),
                ),
            )
        } else if k < images.len() {
            Some(StepModel::Finished(asset_fault(assets[k], images[k])))
        } else {
            Some(StepModel::Read(assets[k]))
        }),
    decreases k,
{
    if k > 0 {
        let rest = assets.skip(1);
        let found = images.skip(1);
        assert(asset_fault(assets[0], images[0]) is None);
        assert(asset_path(assets[0].relative, assets[0].directory));
        assert forall|i: int| 0 <= i < k - 1 implies asset_fault(
            #[trigger] rest[i],
            found[i],
        ) is None by {
            assert(rest[i] == assets[i + 1] && found[i] == images[i + 1]);
        }
        the_first_image_decides(rest, found, k - 1);
        assert(rest[k - 1] == assets[k]);
    }
}

/// Images that were looked at are taken one after the other: what is left starts with the next.
pub proof fn images_are_taken_in_turn(images: Seq<ImageModel>, n: int, i: int)
    requires
        0 <= n,
        0 <= i,
        n + i < images.len(),
    ensures
        left(images, n).len() == images.len() - n,
        left(images, n)[i] == images[n + i],
{
}

/// Requests for images, and what is found for them, say what they hold.
pub proof fn images_are_what_they_hold(
    request: AssetRequest,
    requests: Seq<AssetRequest>,
    images: Seq<Image>,
    text: String,
    length: usize,
    size: (u32, u32),
    i: int,
)
    ensures
        request@.relative == request.relative@,
        request@.directory == request.directory@,
        asset_models(requests).len() == requests.len(),
        0 <= i < requests.len() ==> asset_models(requests)[i] == requests[i]@,
        image_models(images).len() == images.len(),
        0 <= i < images.len() ==> image_models(images)[i] == images[i]@,
        Image::Failed(text)@ == ImageModel::Failed(text@),
        Image::Outside@ == ImageModel::Outside,
        Image::Found(length, Ok(size))@ == ImageModel::Found(length as nat, Ok(size)),
        Image::Found(length, Err(text))@ == ImageModel::Found(length as nat, Err(text@)),
{
}

} // verus!
