//! What holds of the check of repositories as a whole.

use crate::assets::{
    asset_fault, image_models, AssetModel, AssetRequest, Image, ImageModel, StepModel,
};
use crate::error::{AppError, ErrorModel};
use crate::json::{json_read, JsonModel};
use crate::repository::{
    entries, entry_fault, holds, id_of, index_fault, listed, lists, manifest_path, sound_name,
    CheckModel, Finding, FindingModel, RepositoryCheck, Stage, StageModel, ENTRY_FIELDS,
    INDEX_FIELDS, INDEX_REQUIRED, SCHEMAS,
};
use crate::rules::{catalog_id, named};
use crate::rules_laws::manifests_are_named;
use crate::schema::{closed, closed_objects_pass, object_fault};
use crate::text::{lower, texts};
use crate::theme::{theme_verdict, verdict, versioned};
use crate::theme_laws::{
    accepted_themes, bounded_reads, first_of, refused_unless, sound_manifest, theme_assets,
    verdicts_settle,
};
use vstd::prelude::*;

verus! {

/// The names of the two schemas.
pub open spec fn schema_name(place: int) -> Seq<char> {
    if place == 0 {
        "theme-v1.schema.json"@
    } else {
        "theme-repository-v1.schema.json"@
    }
}

/// Whether an entry of an index gives an identifier that none before it gives, and as its manifest
/// the file in the directory of manifests that has that identifier as its name.
pub open spec fn named_once(list: Seq<JsonModel>, n: int) -> bool {
    list[n].member("id"@) matches Some(JsonModel::Text(id)) && catalog_id(id) && list[n].member(
        "manifest"@,
    ) == Some(JsonModel::Text("themes/"@ + id + ".json"@)) && forall|j: int|
        0 <= j < n ==> (#[trigger] list[j]).member("id"@) != Some(JsonModel::Text(id))
}

/// Whether the files with the extension `json`, in any case, are those of the entries of an index:
/// each is the identifier of an entry and that extension, and each entry has such a file.
pub open spec fn complete_list(list: Seq<JsonModel>, names: Seq<Seq<char>>) -> bool {
    &&& forall|i: int|
        0 <= i < names.len() && named(#[trigger] names[i], ".json"@) ==> exists|j: int|
            0 <= j < list.len() && names[i] == id_of(#[trigger] list[j]) + ".json"@
    &&& forall|j: int|
        0 <= j < list.len() ==> names.contains(id_of(#[trigger] list[j]) + ".json"@) && id_of(
            list[j],
        ).len() > 0
}

/// The members and files that make up a repository.
pub proof fn repositories_are_made_of()
    ensures
        texts(SCHEMAS@) == seq!["theme-v1.schema.json"@, "theme-repository-v1.schema.json"@],
        texts(INDEX_FIELDS@) == seq![
            "$schema"@,
            "schemaVersion"@,
            "name"@,
            "updatedAt"@,
            "themes"@,
        ],
        texts(INDEX_REQUIRED@) == seq!["schemaVersion"@, "name"@, "updatedAt"@, "themes"@],
        texts(ENTRY_FIELDS@) == seq!["id"@, "manifest"@],
{
    assert(texts(SCHEMAS@) =~= seq!["theme-v1.schema.json"@, "theme-repository-v1.schema.json"@]);
    assert(texts(INDEX_FIELDS@) =~= seq![
        "$schema"@,
        "schemaVersion"@,
        "name"@,
        "updatedAt"@,
        "themes"@,
    ]);
    assert(texts(INDEX_REQUIRED@) =~= seq!["schemaVersion"@, "name"@, "updatedAt"@, "themes"@]);
    assert(texts(ENTRY_FIELDS@) =~= seq!["id"@, "manifest"@]);
}

/// An index lists what its member `themes` holds, an entry is named by its member `id`, and a
/// manifest by its theme.
pub proof fn indexes_are_read(index: JsonModel, list: Seq<JsonModel>, id: Seq<char>)
    ensures
        index.member("themes"@) == Some(JsonModel::Array(list)) ==> entries(index) == list,
        !(index.member("themes"@) is Some && index.member("themes"@)->0 is Array) ==> entries(
            index,
        ).len() == 0,
        index.member("id"@) == Some(JsonModel::Text(id)) ==> id_of(index) == id,
        !(index.member("id"@) is Some && index.member("id"@)->0 is Text) ==> id_of(index).len()
            == 0,
        manifest_path(id) == "themes/"@ + id + ".json"@,
{
}

proof fn names_in_words(list: Seq<JsonModel>, n: int)
    ensures
        sound_name(list, n) <==> named_once(list, n),
        sound_name(list, n) ==> id_of(list[n]) == list[n].member("id"@)->0->Text_0,
{
    let id = id_of(list[n]);
    reveal_strlit("themes/");
    assert(manifest_path(id).len() > 0);
    assert forall|j: int| 0 <= j < n && catalog_id(id) implies (id_of(#[trigger] list[j]) != id
        <==> list[j].member("id"@) != Some(JsonModel::Text(id))) by {}
}

proof fn listing_in_words(list: Seq<JsonModel>, names: Seq<Seq<char>>)
    ensures
        listed(list, names) <==> complete_list(list, names),
{
    reveal_strlit("themes/");
    reveal_strlit(".json");
    assert forall|id: Seq<char>, name: Seq<char>|
        #![trigger manifest_path(id), "themes/"@ + name]
        manifest_path(id) == "themes/"@ + name <==> name == id + ".json"@ by {
        assert(manifest_path(id) =~= "themes/"@ + (id + ".json"@));
        if manifest_path(id) == "themes/"@ + name {
            assert(name =~= ("themes/"@ + name).skip(7));
            assert(id + ".json"@ =~= ("themes/"@ + (id + ".json"@)).skip(7));
        }
    }
    assert forall|i: int| 0 <= i < names.len() implies (lists(list, #[trigger] names[i])
        <==> exists|j: int|
        0 <= j < list.len() && names[i] == id_of(#[trigger] list[j]) + ".json"@) by {
        if lists(list, names[i]) {
            let j = choose|j: int|
                0 <= j < list.len() && manifest_path(id_of(#[trigger] list[j])) == "themes/"@
                    + names[i];
            assert(names[i] == id_of(list[j]) + ".json"@);
        }
        if exists|j: int| 0 <= j < list.len() && names[i] == id_of(#[trigger] list[j]) + ".json"@ {
            let j = choose|j: int|
                0 <= j < list.len() && names[i] == id_of(#[trigger] list[j]) + ".json"@;
            assert(manifest_path(id_of(list[j])) == "themes/"@ + names[i]);
        }
    }
    assert forall|j: int| 0 <= j < list.len() implies (holds(
        names,
        manifest_path(id_of(#[trigger] list[j])),
    ) <==> names.contains(id_of(list[j]) + ".json"@) && id_of(list[j]).len() > 0) by {
        let id = id_of(list[j]);
        if holds(names, manifest_path(id)) {
            let i = choose|i: int|
                0 <= i < names.len() && named(#[trigger] names[i], ".json"@) && "themes/"@
                    + names[i] == manifest_path(id);
            assert(manifest_path(id) == "themes/"@ + names[i]);
            assert(names[i] == id + ".json"@);
            assert(names.contains(names[i]));
        }
        if names.contains(id + ".json"@) && id.len() > 0 {
            let i = names.index_of(id + ".json"@);
            assert(lower(".json"@) =~= ".json"@);
            manifests_are_named(names[i]);
            assert(names[i] == id + ".json"@);
            assert(manifest_path(id) == "themes/"@ + names[i]);
        }
    }
}

/// The index of a repository and its directory of manifests belong together exactly where every
/// manifest is that of an entry and every entry has one.
pub proof fn listings_are_complete(list: Seq<JsonModel>, names: Seq<Seq<char>>)
    ensures
        listed(list, names) <==> complete_list(list, names),
{
    listing_in_words(list, names);
}

/// An index is refused for the first thing in it that is wrong: its members, the version of its
/// standard, its list of themes, the number of themes.
pub proof fn indexes_are_checked_in_order(index: JsonModel)
    ensures
        first_of(
            seq![
                object_fault(
                    index,
                    seq!["$schema"@, "schemaVersion"@, "name"@, "updatedAt"@, "themes"@],
                    seq!["schemaVersion"@, "name"@, "updatedAt"@, "themes"@],
                    "theme-repository.json"@,
                ),
                refused_unless(
                    index.member("schemaVersion"@) == Some(JsonModel::Unsigned(1)),
                    "只支持主题仓库标准 v1。"@,
                ),
                refused_unless(
                    index.member("themes"@) is Some && index.member("themes"@)->0 is Array,
                    "主题仓库 themes 无效。"@,
                ),
                refused_unless(
                    1 <= entries(index).len() <= 500,
                    "主题数量必须在 1 到 500 之间。"@,
                ),
            ],
            index_fault(index),
        ),
{
    repositories_are_made_of();
    let faults = seq![
        object_fault(
            index,
            seq!["$schema"@, "schemaVersion"@, "name"@, "updatedAt"@, "themes"@],
            seq!["schemaVersion"@, "name"@, "updatedAt"@, "themes"@],
            "theme-repository.json"@,
        ),
        refused_unless(
            index.member("schemaVersion"@) == Some(JsonModel::Unsigned(1)),
            "只支持主题仓库标准 v1。"@,
        ),
        refused_unless(
            index.member("themes"@) is Some && index.member("themes"@)->0 is Array,
            "主题仓库 themes 无效。"@,
        ),
        refused_unless(1 <= entries(index).len() <= 500, "主题数量必须在 1 到 500 之间。"@),
    ];
    assert(faults[0] == faults[0] && faults[1] == faults[1] && faults[2] == faults[2] && faults[3]
        == faults[3]);
}

/// An entry of an index is refused for its members, or else for the names that it gives.
pub proof fn entries_are_checked_in_order(list: Seq<JsonModel>, n: int)
    ensures
        first_of(
            seq![
                object_fault(
                    list[n],
                    seq!["id"@, "manifest"@],
                    seq!["id"@, "manifest"@],
                    "themes[]"@,
                ),
                refused_unless(named_once(list, n), "主题索引条目无效："@ + id_of(list[n])),
            ],
            entry_fault(list, n),
        ),
{
    repositories_are_made_of();
    names_in_words(list, n);
    let faults = seq![
        object_fault(list[n], seq!["id"@, "manifest"@], seq!["id"@, "manifest"@], "themes[]"@),
        refused_unless(named_once(list, n), "主题索引条目无效："@ + id_of(list[n])),
    ];
    assert(faults[0] == faults[0] && faults[1] == faults[1]);
}

/// Whether a check stands at that stage, with what it has read.
pub open spec fn check_at(
    check: CheckModel,
    stage: StageModel,
    index: JsonModel,
    at: int,
    manifest: Seq<u8>,
    images: Seq<ImageModel>,
) -> bool {
    &&& check.stage == stage
    &&& check.index == index
    &&& check.at == at
    &&& check.manifest == manifest
    &&& check.images == images
}

/// Whether a check has turned to the entry at that place: it asks for its manifest, if the entry
/// is sound; it ends with what is wrong with the entry, if it is not; and behind the last entry it
/// asks for the directory of manifests.
pub open spec fn turned_to(
    check: CheckModel,
    index: JsonModel,
    n: int,
    manifest: Seq<u8>,
    images: Seq<ImageModel>,
) -> bool {
    if n >= entries(index).len() {
        check_at(check, StageModel::Listing, index, n, manifest, images)
    } else if entry_fault(entries(index), n) is None {
        check_at(check, StageModel::Present, index, n, manifest, images)
    } else {
        check_at(
            check,
            StageModel::Done(entry_fault(entries(index), n)),
            index,
            n,
            manifest,
            images,
        )
    }
}

/// Whether a check has come to an end without having read anything more.
pub open spec fn ended(check: CheckModel, next: CheckModel, error: Option<ErrorModel>) -> bool {
    check_at(next, StageModel::Done(error), check.index, check.at, check.manifest, check.images)
}

/// Whether a check stands elsewhere without having read anything more.
pub open spec fn moved(check: CheckModel, next: CheckModel, stage: StageModel) -> bool {
    check_at(next, stage, check.index, check.at, check.manifest, check.images)
}

/// Whether a check has gone on by the verdict on the manifest at hand: to the next entry, to the
/// image that is still to be looked at, or to its end.
pub open spec fn followed(
    next: CheckModel,
    index: JsonModel,
    at: int,
    manifest: Seq<u8>,
    images: Seq<ImageModel>,
) -> bool {
    match theme_verdict(manifest, id_of(entries(index)[at]), images) {
        StepModel::Finished(None) => turned_to(next, index, at + 1, manifest, images),
        StepModel::Finished(error) => check_at(
            next,
            StageModel::Done(error),
            index,
            at,
            manifest,
            images,
        ),
        StepModel::Read(asset) => check_at(
            next,
            StageModel::Image(asset),
            index,
            at,
            manifest,
            images,
        ),
    }
}

/// A check begins with the first schema, goes on to the second and then to the index; a schema
/// that is missing ends it.
pub proof fn checks_begin(check: CheckModel)
    ensures
        check_at(
            CheckModel::start(),
            StageModel::Schema(0),
            JsonModel::Null,
            0,
            Seq::empty(),
            Seq::empty(),
        ),
        check.stage == StageModel::Schema(0) ==> {
            &&& moved(check, check.next(FindingModel::Present(true)), StageModel::Schema(1))
            &&& ended(
                check,
                check.next(FindingModel::Present(false)),
                Some(ErrorModel::Message("主题仓库缺少 Schema："@ + "theme-v1.schema.json"@)),
            )
        },
        check.stage == StageModel::Schema(1) ==> {
            &&& moved(check, check.next(FindingModel::Present(true)), StageModel::Index)
            &&& ended(
                check,
                check.next(FindingModel::Present(false)),
                Some(
                    ErrorModel::Message(
                        "主题仓库缺少 Schema："@ + "theme-repository-v1.schema.json"@,
                    ),
                ),
            )
        },
{
    repositories_are_made_of();
}

/// What was read or found leads to what has to be looked at next, or to the end of the check.
pub proof fn checks_go_on(
    check: CheckModel,
    bytes: Seq<u8>,
    text: Seq<char>,
    image: ImageModel,
    names: Seq<Seq<char>>,
)
    ensures
        check.stage == StageModel::Index ==> {
            let next = check.next(FindingModel::Document(Ok(bytes)));
            &&& ended(
                check,
                check.next(FindingModel::Document(Err(text))),
                Some(ErrorModel::Io(text)),
            )
            &&& match json_read(bytes) {
                Err(text) => ended(check, next, Some(ErrorModel::Json(text))),
                Ok(index) => if index_fault(index) is None {
                    turned_to(next, index, 0, check.manifest, check.images)
                } else {
                    ended(check, next, index_fault(index))
                },
            }
        },
        check.stage == StageModel::Present ==> {
            &&& moved(check, check.next(FindingModel::Present(true)), StageModel::Manifest)
            &&& ended(
                check,
                check.next(FindingModel::Present(false)),
                Some(
                    ErrorModel::Message(
                        "主题索引条目无效："@ + id_of(entries(check.index)[check.at]),
                    ),
                ),
            )
        },
        check.stage == StageModel::Manifest ==> {
            &&& ended(
                check,
                check.next(FindingModel::Document(Err(text))),
                Some(ErrorModel::Io(text)),
            )
            &&& followed(
                check.next(FindingModel::Document(Ok(bytes))),
                check.index,
                check.at,
                bytes,
                Seq::empty(),
            )
        },
        check.stage is Image ==> followed(
            check.next(FindingModel::Image(image)),
            check.index,
            check.at,
            check.manifest,
            check.images.push(image),
        ),
        check.stage == StageModel::Listing ==> {
            &&& ended(
                check,
                check.next(FindingModel::Names(Err(text))),
                Some(ErrorModel::Io(text)),
            )
            &&& ended(
                check,
                check.next(FindingModel::Names(Ok(names))),
                refused_unless(
                    complete_list(entries(check.index), names),
                    "主题索引与 themes 目录不一致。"@,
                ),
            )
        },
{
    listing_in_words(entries(check.index), names);
}

/// What a check did not ask for changes nothing, and one that has ended stays so.
pub proof fn checks_wait(check: CheckModel, finding: FindingModel)
    requires
        !(check.stage is Schema && finding is Present),
        !(check.stage is Index && finding is Document),
        !(check.stage is Present && finding is Present),
        !(check.stage is Manifest && finding is Document),
        !(check.stage is Image && finding is Image),
        !(check.stage is Listing && finding is Names),
    ensures
        check.next(finding) == check,
{
}

/// Checks and findings say what they hold.
pub proof fn checks_are_what_they_hold(
    check: RepositoryCheck,
    place: usize,
    request: AssetRequest,
    error: AppError,
    present: bool,
    bytes: Vec<u8>,
    text: String,
    image: Image,
    names: Vec<String>,
)
    ensures
        check@.stage == check.stage@,
        check@.index == check.index@,
        check@.at == check.at,
        check@.manifest == check.manifest@,
        check@.images == image_models(check.images@),
        Stage::Schema(place)@ == StageModel::Schema(place as int),
        Stage::Index@ == StageModel::Index,
        Stage::Present@ == StageModel::Present,
        Stage::Manifest@ == StageModel::Manifest,
        Stage::Image(request)@ == StageModel::Image(request@),
        Stage::Listing@ == StageModel::Listing,
        Stage::Done(Ok(()))@ == StageModel::Done(None),
        Stage::Done(Err(error))@ == StageModel::Done(Some(error@)),
        Finding::Present(present)@ == FindingModel::Present(present),
        Finding::Document(Ok(bytes))@ == FindingModel::Document(Ok(bytes@)),
        Finding::Document(Err(text))@ == FindingModel::Document(Err(text@)),
        Finding::Image(image)@ == FindingModel::Image(image@),
        Finding::Names(Err(text))@ == FindingModel::Names(Err(text@)),
        Finding::Names(Ok(names))@ == FindingModel::Names(
            Ok(Seq::new(names@.len(), |i: int| names@[i]@)),
        ),
{
    assert(crate::text::strings(names@) =~= Seq::new(names@.len(), |i: int| names@[i]@));
}

/// A repository as it lies on disk.
pub struct Repository {
    /// Whether there is a file with that path.
    pub present: spec_fn(Seq<char>) -> bool,
    /// The bytes of the file with that path, or why they cannot be read.
    pub document: spec_fn(Seq<char>) -> Result<Seq<u8>, Seq<char>>,
    /// What the image is that the manifest with that path names.
    pub image: spec_fn(Seq<char>, AssetModel) -> ImageModel,
    /// The names of the files in the directory of manifests.
    pub names: Result<Seq<Seq<char>>, Seq<char>>,
}

impl Repository {
    /// What there is to find at a stage of the check.
    pub open spec fn finding(self, check: CheckModel) -> FindingModel {
        match check.stage {
            StageModel::Schema(place) => FindingModel::Present(
                (self.present)("schemas/"@ + schema_name(place)),
            ),
            StageModel::Index => FindingModel::Document((self.document)("theme-repository.json"@)),
            StageModel::Present => FindingModel::Present((self.present)(manifest_path(check.id()))),
            StageModel::Manifest => FindingModel::Document(
                (self.document)(manifest_path(check.id())),
            ),
            StageModel::Image(asset) => FindingModel::Image(
                (self.image)(manifest_path(check.id()), asset),
            ),
            StageModel::Listing => FindingModel::Names(self.names),
            StageModel::Done(_) => FindingModel::Present(true),
        }
    }

    /// What the images are that a manifest names.
    pub open spec fn images(self, id: Seq<char>, root: JsonModel) -> Seq<ImageModel> {
        Seq::new(
            theme_assets(root).len(),
            |i: int| (self.image)(manifest_path(id), theme_assets(root)[i]),
        )
    }

    /// A theme whose manifest is there and sound, with the images that it names.
    pub open spec fn sound_theme(self, id: Seq<char>) -> bool {
        &&& (self.present)(manifest_path(id))
        &&& (self.document)(manifest_path(id)) matches Ok(bytes) && json_read(bytes) matches Ok(
            root,
        ) && sound_manifest(root, id, versioned(root)) && forall|i: int|
            0 <= i < theme_assets(root).len() ==> asset_fault(
                #[trigger] theme_assets(root)[i],
                (self.image)(manifest_path(id), theme_assets(root)[i]),
            ) is None
    }

    /// An entry of the index that names a sound theme that no entry before it names.
    pub open spec fn sound_entry(self, list: Seq<JsonModel>, n: int) -> bool {
        &&& closed(list[n], seq!["id"@, "manifest"@], seq!["id"@, "manifest"@])
        &&& named_once(list, n)
        &&& self.sound_theme(list[n].member("id"@)->0->Text_0)
    }

    /// A sound repository: with its schemas, an index of 1 to 500 different and sound themes,
    /// and no manifest that the index does not list.
    pub open spec fn sound(self) -> bool {
        &&& (self.present)("schemas/"@ + "theme-v1.schema.json"@)
        &&& (self.present)("schemas/"@ + "theme-repository-v1.schema.json"@)
        &&& (self.document)("theme-repository.json"@) matches Ok(bytes) && json_read(
            bytes,
        ) matches Ok(index) && self.sound_index(index)
    }

    /// An index that lists what the repository holds.
    pub open spec fn sound_index(self, index: JsonModel) -> bool {
        &&& closed(
            index,
            seq!["$schema"@, "schemaVersion"@, "name"@, "updatedAt"@, "themes"@],
            seq!["schemaVersion"@, "name"@, "updatedAt"@, "themes"@],
        )
        &&& index.member("schemaVersion"@) == Some(JsonModel::Unsigned(1))
        &&& index.member("themes"@) matches Some(JsonModel::Array(list)) && self.sound_list(list)
    }

    /// A list of themes, each of which the repository holds, and which leaves none out.
    pub open spec fn sound_list(self, list: Seq<JsonModel>) -> bool {
        &&& 1 <= list.len() <= 500
        &&& forall|n: int| 0 <= n < list.len() ==> self.sound_entry(list, n)
        &&& self.names matches Ok(names) && complete_list(list, names)
    }
}

/// How far a check is from its end: first by the parts of the repository that are left, then by
/// the entries, then by what is left of an entry.
pub open spec fn parts_left(check: CheckModel) -> nat {
    match check.stage {
        StageModel::Schema(_) => 3,
        StageModel::Index => 2,
        StageModel::Present | StageModel::Manifest | StageModel::Image(_) => 1,
        StageModel::Listing => 1,
        StageModel::Done(_) => 0,
    }
}

/// The entries of the index that are left.
pub open spec fn entries_left(check: CheckModel) -> nat {
    if check.at < entries(check.index).len() && !(check.stage is Listing) {
        (entries(check.index).len() - check.at) as nat
    } else {
        0
    }
}

/// What is left of an entry.
pub open spec fn steps_left(check: CheckModel) -> nat {
    match check.stage {
        StageModel::Schema(place) => if place < 2 {
            (2 - place) as nat
        } else {
            0
        },
        StageModel::Present => 9,
        StageModel::Manifest => 8,
        StageModel::Image(_) => if check.images.len() < 7 {
            (7 - check.images.len()) as nat
        } else {
            0
        },
        _ => 0,
    }
}

/// How the check of a repository comes out.
pub open spec fn outcome(repository: Repository, check: CheckModel) -> Option<ErrorModel>
    decreases parts_left(check), entries_left(check), steps_left(check),
    when check.valid()
    via check_advances
{
    match check.stage {
        StageModel::Done(error) => error,
        _ => outcome(repository, check.next(repository.finding(check))),
    }
}

#[via_fn]
proof fn check_advances(repository: Repository, check: CheckModel) {
    if check.valid() && !(check.stage is Done) {
        advances(repository, check);
    }
}

/// A valid check stays valid, and each finding brings it nearer to its end.
pub proof fn advances(repository: Repository, check: CheckModel)
    requires
        check.valid(),
        !(check.stage is Done),
    ensures
        check.next(repository.finding(check)).valid(),
        ({
            let next = check.next(repository.finding(check));
            decreases_to!(
                parts_left(check), entries_left(check), steps_left(check)
                => parts_left(next), entries_left(next), steps_left(next)
            )
        }),
{
    let finding = repository.finding(check);
    let next = check.next(finding);
    match check.stage {
        StageModel::Manifest => {
            if let FindingModel::Document(Ok(bytes)) = finding {
                let read = CheckModel { manifest: bytes, images: Seq::empty(), ..check };
                if let Ok(root) = json_read(bytes) {
                    bounded_reads(root, read.id(), versioned(root), read.images);
                }
            }
        },
        StageModel::Image(_) => {
            if let FindingModel::Image(image) = finding {
                let read = CheckModel { images: check.images.push(image), ..check };
                if let Ok(root) = json_read(check.manifest) {
                    bounded_reads(root, read.id(), versioned(root), read.images);
                }
            }
        },
        _ => {},
    }
}

/// Whether the entries from a place on are sound, and the directory of manifests holds no others.
spec fn sound_from(repository: Repository, list: Seq<JsonModel>, n: int) -> bool {
    &&& forall|m: int| n <= m < list.len() ==> repository.sound_entry(list, m)
    &&& repository.names matches Ok(names) && complete_list(list, names)
}

proof fn judgement(repository: Repository, check: CheckModel, root: JsonModel, k: int)
    requires
        0 <= check.at < entries(check.index).len(),
        json_read(check.manifest) == Ok::<JsonModel, Seq<char>>(root),
        0 <= k <= repository.images(check.id(), root).len(),
        check.images == repository.images(check.id(), root).take(k),
    ensures
        outcome(repository, check.judged()) is None <==> verdict(
            root,
            check.id(),
            versioned(root),
            repository.images(check.id(), root),
        ) == StepModel::Finished(None) && sound_from(
            repository,
            entries(check.index),
            check.at + 1,
        ),
    decreases entries(check.index).len() - check.at, repository.images(check.id(), root).len() - k,
{
    let id = check.id();
    let all = repository.images(id, root);
    verdicts_settle(root, id, versioned(root), check.images, all.skip(k));
    assert(check.images + all.skip(k) =~= all);
    bounded_reads(root, id, versioned(root), check.images);
    match verdict(root, id, versioned(root), check.images) {
        StepModel::Finished(Some(_)) => {},
        StepModel::Finished(None) => {
            entries_judged(repository, check, check.at + 1);
        },
        StepModel::Read(asset) => {
            let asking = check.judged();
            let image = (repository.image)(manifest_path(id), asset);
            let read = CheckModel { images: check.images.push(image), ..asking };
            assert(outcome(repository, asking) == outcome(repository, read.judged()));
            assert(read.images =~= all.take(k + 1));
            judgement(repository, read, root, k + 1);
        },
    }
}

proof fn entries_judged(repository: Repository, check: CheckModel, n: int)
    requires
        0 <= n <= entries(check.index).len(),
    ensures
        outcome(repository, check.entry(n)) is None <==> sound_from(
            repository,
            entries(check.index),
            n,
        ),
    decreases entries(check.index).len() - n, 100nat,
{
    let list = entries(check.index);
    let there = check.entry(n);
    repositories_are_made_of();
    names_in_words(list, n);
    if n >= list.len() {
        if let Ok(names) = repository.names {
            listing_in_words(list, names);
        }
        assert(outcome(repository, there) == outcome(
            repository,
            there.next(repository.finding(there)),
        ));
    } else {
        closed_objects_pass(list[n], texts(ENTRY_FIELDS@), texts(ENTRY_FIELDS@), "themes[]"@);
        assert(sound_from(repository, list, n) <==> repository.sound_entry(list, n) && sound_from(
            repository,
            list,
            n + 1,
        ));
        if entry_fault(list, n) is Some {
            assert(!repository.sound_entry(list, n));
        } else {
            present_judged(repository, there);
        }
    }
}

proof fn present_judged(repository: Repository, there: CheckModel)
    requires
        there.stage == StageModel::Present,
        0 <= there.at < entries(there.index).len(),
        entry_fault(entries(there.index), there.at) is None,
    ensures
        outcome(repository, there) is None <==> repository.sound_entry(
            entries(there.index),
            there.at,
        ) && sound_from(repository, entries(there.index), there.at + 1),
    decreases entries(there.index).len() - there.at, 80nat,
{
    let path = manifest_path(there.id());
    repositories_are_made_of();
    names_in_words(entries(there.index), there.at);
    let next = there.next(repository.finding(there));
    assert(outcome(repository, there) == outcome(repository, next));
    if (repository.present)(path) {
        assert(next == there.to(StageModel::Manifest));
        manifest_judged(repository, next);
    } else {
        assert(!repository.sound_theme(there.id()));
    }
}

proof fn manifest_judged(repository: Repository, reading: CheckModel)
    requires
        reading.stage == StageModel::Manifest,
        0 <= reading.at < entries(reading.index).len(),
        entry_fault(entries(reading.index), reading.at) is None,
        (repository.present)(manifest_path(reading.id())),
    ensures
        outcome(repository, reading) is None <==> repository.sound_entry(
            entries(reading.index),
            reading.at,
        ) && sound_from(repository, entries(reading.index), reading.at + 1),
    decreases entries(reading.index).len() - reading.at, 70nat,
{
    let id = reading.id();
    repositories_are_made_of();
    names_in_words(entries(reading.index), reading.at);
    let next = reading.next(repository.finding(reading));
    assert(outcome(repository, reading) == outcome(repository, next));
    match (repository.document)(manifest_path(id)) {
        Err(_) => {
            assert(!repository.sound_theme(id));
        },
        Ok(bytes) => {
            let read = CheckModel { manifest: bytes, images: Seq::empty(), ..reading };
            assert(next == read.judged());
            match json_read(bytes) {
                Err(_) => {
                    assert(!repository.sound_theme(id));
                },
                Ok(root) => {
                    assert(read.images =~= repository.images(id, root).take(0));
                    entry_judged(repository, read, root);
                },
            }
        },
    }
}

proof fn entry_judged(repository: Repository, read: CheckModel, root: JsonModel)
    requires
        0 <= read.at < entries(read.index).len(),
        entry_fault(entries(read.index), read.at) is None,
        (repository.present)(manifest_path(read.id())),
        (repository.document)(manifest_path(read.id())) == Ok::<Seq<u8>, Seq<char>>(read.manifest),
        json_read(read.manifest) == Ok::<JsonModel, Seq<char>>(root),
        read.images == repository.images(read.id(), root).take(0),
    ensures
        outcome(repository, read.judged()) is None <==> repository.sound_entry(
            entries(read.index),
            read.at,
        ) && sound_from(repository, entries(read.index), read.at + 1),
    decreases entries(read.index).len() - read.at, 50nat,
{
    let list = entries(read.index);
    let all = repository.images(read.id(), root);
    repositories_are_made_of();
    names_in_words(list, read.at);
    judgement(repository, read, root, 0);
    accepted_themes(root, read.id(), versioned(root), all);
    closed_objects_pass(list[read.at], texts(ENTRY_FIELDS@), texts(ENTRY_FIELDS@), "themes[]"@);
    if repository.sound_theme(read.id()) {
        assert forall|i: int| 0 <= i < theme_assets(root).len() implies asset_fault(
            #[trigger] theme_assets(root)[i],
            all[i],
        ) is None by {}
    }
}

/// A repository is accepted exactly when it is sound: with its schemas, an index of 1 to 500
/// different and sound themes, and no manifest that the index does not list.
pub proof fn accepted_repositories(repository: Repository)
    ensures
        outcome(repository, CheckModel::start()) is None <==> repository.sound(),
{
    let start = CheckModel::start();
    let second = start.to(StageModel::Schema(1));
    let third = start.to(StageModel::Index);
    repositories_are_made_of();
    assert(outcome(repository, start) == outcome(repository, start.next(repository.finding(start))));
    if (repository.present)("schemas/"@ + "theme-v1.schema.json"@) {
        assert(outcome(repository, second) == outcome(
            repository,
            second.next(repository.finding(second)),
        ));
        if (repository.present)("schemas/"@ + "theme-repository-v1.schema.json"@) {
            let next = third.next(repository.finding(third));
            assert(outcome(repository, third) == outcome(repository, next));
            if let Ok(bytes) = (repository.document)("theme-repository.json"@) {
                if let Ok(index) = json_read(bytes) {
                    closed_objects_pass(
                        index,
                        texts(INDEX_FIELDS@),
                        texts(INDEX_REQUIRED@),
                        "theme-repository.json"@,
                    );
                    if index_fault(index) is None {
                        entries_judged(repository, CheckModel { index, ..third }, 0);
                    }
                }
            }
        }
    }
}

} // verus!
