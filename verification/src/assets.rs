//! The images that a theme's manifest names.

use crate::error::{broken, fault, AppError, ErrorModel};
use crate::outside::{decode_image, image_read};
use crate::rules::{asset_path, is_asset_path};
use crate::text::{join2, join4, same};
use vstd::prelude::*;

verus! {

/// An image that a manifest names: the path as the manifest writes it, and the directory of
/// the repository that it has to lie in.
#[derive(Debug)]
pub struct AssetRequest {
    pub relative: String,
    pub directory: String,
}

/// What an [`AssetRequest`] says.
pub struct AssetModel {
    pub relative: Seq<char>,
    pub directory: Seq<char>,
}

impl View for AssetRequest {
    type V = AssetModel;

    open spec fn view(&self) -> AssetModel {
        AssetModel { relative: self.relative@, directory: self.directory@ }
    }
}

/// What was found where a manifest says that there is an image.
#[derive(Debug)]
pub enum Image {
    /// The path could not be resolved, or the file not be read, for this reason.
    Failed(String),
    /// The path leads out of the repository, or to something that is no file.
    Outside,
    /// A file of that many bytes, with the size of the image in it, or the reason why it holds
    /// none.
    Found(usize, Result<(u32, u32), String>),
}

/// What an [`Image`] says.
pub enum ImageModel {
    Failed(Seq<char>),
    Outside,
    Found(nat, Result<(u32, u32), Seq<char>>),
}

/// The text of an image that could not be decoded.
pub open spec fn decoded(outcome: Result<(u32, u32), String>) -> Result<(u32, u32), Seq<char>> {
    match outcome {
        Ok(size) => Ok(size),
        Err(text) => Err(text@),
    }
}

impl View for Image {
    type V = ImageModel;

    open spec fn view(&self) -> ImageModel {
        match self {
            Image::Failed(text) => ImageModel::Failed(text@),
            Image::Outside => ImageModel::Outside,
            Image::Found(length, outcome) => ImageModel::Found(*length as nat, decoded(*outcome)),
        }
    }
}

/// What the images of a list say.
pub open spec fn image_models(images: Seq<Image>) -> Seq<ImageModel> {
    Seq::new(images.len(), |i: int| images[i]@)
}

/// What the bytes of a file hold, taken as an image.
pub fn read_image(bytes: &Vec<u8>) -> (image: Image)
    ensures
        image@ == ImageModel::Found(bytes@.len(), image_read(bytes@)),
{
    Image::Found(bytes.len(), decode_image(bytes))
}

/// How many bytes an image of a directory may have, and how many pixels its longer side.
pub open spec fn limits(directory: Seq<char>) -> (nat, nat) {
    if directory == "previews"@ {
        (2 * 1024 * 1024, 2400)
    } else if directory == "backgrounds"@ {
        (16 * 1024 * 1024, 8192)
    } else if directory == "effects"@ {
        (4 * 1024 * 1024, 4096)
    } else {
        (20 * 1024 * 1024, 8192)
    }
}

/// Whether an image of that size may stand in a directory.
pub open spec fn fits(directory: Seq<char>, length: nat, size: (u32, u32)) -> bool {
    &&& length <= limits(directory).0
    &&& size.0 <= limits(directory).1
    &&& size.1 <= limits(directory).1
}

/// What is wrong with an image that a manifest names.
pub open spec fn asset_fault(asset: AssetModel, image: ImageModel) -> Option<ErrorModel> {
    if !asset_path(asset.relative, asset.directory) {
        broken("主题资源路径无效："@ + asset.relative)
    } else {
        match image {
            ImageModel::Failed(text) => Some(ErrorModel::Io(text)),
            ImageModel::Outside => broken("主题资源越界或不存在："@ + asset.relative),
            ImageModel::Found(_, Err(text)) => broken("主题图片无法解码："@ + text),
            ImageModel::Found(length, Ok(size)) => if fits(asset.directory, length, size) {
                None
            } else {
                broken(
                    "主题图片超过 "@ + asset.directory + " 的大小或尺寸限制："@ + asset.relative,
                )
            },
        }
    }
}

fn limits_of(directory: &str) -> (r: (usize, u32))
    ensures
        (r.0 as nat, r.1 as nat) == limits(directory@),
{
    if same(directory, "previews") {
        (2 * 1024 * 1024, 2400)
    } else if same(directory, "backgrounds") {
        (16 * 1024 * 1024, 8192)
    } else if same(directory, "effects") {
        (4 * 1024 * 1024, 4096)
    } else {
        (20 * 1024 * 1024, 8192)
    }
}

/// Checks an image that a manifest names against what was found there.
pub fn validate_asset_path(relative: &str, directory: &str, image: &Image) -> (r: Result<
    (),
    AppError,
>)
    ensures
        fault(r) == asset_fault(
            (AssetModel { relative: relative@, directory: directory@ }),
            image@,
        ),
{
    if !is_asset_path(relative, directory) {
        return Err(AppError::Message(join2("主题资源路径无效：", relative)));
    }
    match image {
        Image::Failed(text) => Err(AppError::Io(text.clone())),
        Image::Outside => Err(AppError::Message(join2("主题资源越界或不存在：", relative))),
        Image::Found(length, Err(text)) => Err(
            AppError::Message(join2("主题图片无法解码：", text)),
        ),
        Image::Found(length, Ok(size)) => {
            let (most_bytes, most_pixels) = limits_of(directory);
            if *length > most_bytes || size.0 > most_pixels || size.1 > most_pixels {
                return Err(
                    AppError::Message(
                        join4("主题图片超过 ", directory, " 的大小或尺寸限制：", relative),
                    ),
                );
            }
            Ok(())
        },
    }
}

/// Where a check of images stands.
#[derive(Debug)]
pub enum Step {
    /// The check is over.
    Finished(Result<(), AppError>),
    /// The check goes on once this image was looked at.
    Read(AssetRequest),
}

/// What a [`Step`] says.
pub enum StepModel {
    Finished(Option<ErrorModel>),
    Read(AssetModel),
}

impl View for Step {
    type V = StepModel;

    open spec fn view(&self) -> StepModel {
        match self {
            Step::Finished(outcome) => StepModel::Finished(fault(*outcome)),
            Step::Read(request) => StepModel::Read(request@),
        }
    }
}

/// Where the check of a list of images stands, given what was found for the first of them:
/// nothing where all are sound.
pub open spec fn walk(assets: Seq<AssetModel>, images: Seq<ImageModel>) -> Option<StepModel>
    decreases assets.len(),
{
    if assets.len() == 0 {
        None
    } else if !asset_path(assets[0].relative, assets[0].directory) {
        Some(StepModel::Finished(broken("主题资源路径无效："@ + assets[0].relative)))
    } else if images.len() == 0 {
        Some(StepModel::Read(assets[0]))
    } else if asset_fault(assets[0], images[0]) is Some {
        Some(StepModel::Finished(asset_fault(assets[0], images[0])))
    } else {
        walk(assets.skip(1), images.skip(1))
    }
}

/// What the requests of a list say.
pub open spec fn asset_models(assets: Seq<AssetRequest>) -> Seq<AssetModel> {
    Seq::new(assets.len(), |i: int| assets[i]@)
}

/// What is left of the images after the first `n`.
pub open spec fn left(images: Seq<ImageModel>, n: int) -> Seq<ImageModel> {
    if n <= images.len() {
        images.skip(n)
    } else {
        Seq::empty()
    }
}

/// Goes through the images that a manifest names, as far as they were looked at. The images
/// found for `assets` start at `from`.
pub fn check_assets(assets: &Vec<AssetRequest>, images: &Vec<Image>, from: usize) -> (r: Option<
    Step,
>)
    requires
        from + assets@.len() <= usize::MAX,
    ensures
        match r {
            Some(step) => walk(asset_models(assets@), left(image_models(images@), from as int))
                == Some(step@),
            None => walk(asset_models(assets@), left(image_models(images@), from as int)) is None,
        },
{
    let ghost all = asset_models(assets@);
    let ghost found = image_models(images@);
    let mut i: usize = 0;
    assert(all.skip(0) =~= all);
    while i < assets.len()
        invariant
            i <= assets@.len(),
            from + assets@.len() <= usize::MAX,
            all == asset_models(assets@),
            found == image_models(images@),
            walk(all, left(found, from as int)) == walk(
                all.skip(i as int),
                left(found, from + i as int),
            ),
        decreases assets@.len() - i,
    {
        let asset = &assets[i];
        assert(all.skip(i as int)[0] == asset@);
        assert(all.skip(i as int).skip(1) =~= all.skip(i + 1));
        if !is_asset_path(&asset.relative, &asset.directory) {
            return Some(
                Step::Finished(
                    Err(AppError::Message(join2("主题资源路径无效：", &asset.relative))),
                ),
            );
        }
        if from + i >= images.len() {
            return Some(
                Step::Read(
                    AssetRequest {
                        relative: asset.relative.clone(),
                        directory: asset.directory.clone(),
                    },
                ),
            );
        }
        assert(left(found, from + i as int)[0] == images@[from + i as int]@);
        assert(left(found, from + i as int).skip(1) =~= left(found, from + i + 1 as int));
        if let Err(error) = validate_asset_path(
            &asset.relative,
            &asset.directory,
            &images[from + i],
        ) {
            return Some(Step::Finished(Err(error)));
        }
        i += 1;
    }
    None
}

/// A check of images finds nothing wrong exactly when each of them was looked at and is sound;
/// one that is over before that ends with an error.
pub proof fn walk_passes(assets: Seq<AssetModel>, images: Seq<ImageModel>)
    ensures
        walk(assets, images) != Some(StepModel::Finished(None)),
        walk(assets, images) is None <==> assets.len() <= images.len() && forall|i: int|
            0 <= i < assets.len() ==> asset_fault(#[trigger] assets[i], images[i]) is None,
    decreases assets.len(),
{
    if assets.len() > 0 {
        let rest = assets.skip(1);
        let found = images.skip(1);
        if images.len() > 0 {
            walk_passes(rest, found);
            if walk(assets, images) is None {
                assert forall|i: int| 0 <= i < assets.len() implies asset_fault(
                    #[trigger] assets[i],
                    images[i],
                ) is None by {
                    if i > 0 {
                        assert(assets[i] == rest[i - 1]);
                        assert(images[i] == found[i - 1]);
                    }
                }
            } else if assets.len() <= images.len() && forall|i: int|
                0 <= i < assets.len() ==> asset_fault(#[trigger] assets[i], images[i]) is None {
                assert(asset_fault(assets[0], images[0]) is None);
                assert forall|i: int| 0 <= i < rest.len() implies asset_fault(
                    #[trigger] rest[i],
                    found[i],
                ) is None by {
                    assert(rest[i] == assets[i + 1]);
                    assert(found[i] == images[i + 1]);
                }
            }
        }
    }
}

/// Once a check of images is over, what else is found does not change its outcome.
pub proof fn walk_settles(
    assets: Seq<AssetModel>,
    images: Seq<ImageModel>,
    more: Seq<ImageModel>,
)
    ensures
        !(walk(assets, images) matches Some(StepModel::Read(_))) ==> walk(assets, images + more)
            == walk(assets, images),
    decreases assets.len(),
{
    if assets.len() > 0 && images.len() > 0 {
        assert((images + more)[0] == images[0]);
        assert((images + more).skip(1) =~= images.skip(1) + more);
        walk_settles(assets.skip(1), images.skip(1), more);
    }
}

/// A check of images asks for the first one that was not looked at yet, and only by a path that
/// leads into its directory.
pub proof fn walk_reads(assets: Seq<AssetModel>, images: Seq<ImageModel>)
    ensures
        walk(assets, images) matches Some(StepModel::Read(asset)) ==> {
            &&& images.len() < assets.len()
            &&& asset == assets[images.len() as int]
            &&& asset_path(asset.relative, asset.directory)
        },
    decreases assets.len(),
{
    if assets.len() > 0 && images.len() > 0 {
        walk_reads(assets.skip(1), images.skip(1));
    }
}

} // verus!
