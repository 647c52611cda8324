//! A repository of themes on disk: what makes it sound, and the order in which it is looked at.

use crate::assets::{image_models, AssetModel, AssetRequest, Image, ImageModel, Step, StepModel};
use crate::error::{broken, either, fault, AppError, ErrorModel};
use crate::json::{json_read, models, read_json, Json, JsonModel};
use crate::rules::{catalog_id, named, valid_catalog_id};
use crate::schema::{closed_object, object_fault};
use crate::text::{ascii_lowercase, chars_of, ends_with, join2, join3, same, strings, texts};
use crate::theme::{theme_verdict, unless, validate_theme};
use vstd::prelude::*;

verus! {

/// The schemas that a repository must hold.
pub const SCHEMAS: [&'static str; 2] = ["theme-v1.schema.json", "theme-repository-v1.schema.json"];

/// The members of the index.
pub const INDEX_FIELDS: [&'static str; 5] = [
    "$schema",
    "schemaVersion",
    "name",
    "updatedAt",
    "themes",
];

/// The members that the index must have.
pub const INDEX_REQUIRED: [&'static str; 4] = ["schemaVersion", "name", "updatedAt", "themes"];

/// The members of an entry of the index, each of which must be there.
pub const ENTRY_FIELDS: [&'static str; 2] = ["id", "manifest"];

/// The themes that an index lists.
pub open spec fn entries(index: JsonModel) -> Seq<JsonModel> {
    match index.member("themes"@) {
        Some(value) => match value.items() {
            Some(list) => list,
            None => Seq::empty(),
        },
        None => Seq::empty(),
    }
}

/// What is wrong with the index, its entries aside.
pub open spec fn index_fault(index: JsonModel) -> Option<ErrorModel> {
    either(
        object_fault(
            index,
            texts(INDEX_FIELDS@),
            texts(INDEX_REQUIRED@),
            "theme-repository.json"@,
        ),
        either(
            unless(
                index.unsigned_member("schemaVersion"@) == Some(1u64),
                "只支持主题仓库标准 v1。"@,
            ),
            match index.member("themes"@) {
                Some(value) => match value.items() {
                    Some(list) => unless(
                        1 <= list.len() <= 500,
                        "主题数量必须在 1 到 500 之间。"@,
                    ),
                    None => broken("主题仓库 themes 无效。"@),
                },
                None => broken("主题仓库 themes 无效。"@),
            },
        ),
    )
}

/// Checks the index, its entries aside.
pub fn validate_index(index: &Json) -> (r: Result<(), AppError>)
    ensures
        fault(r) == index_fault(index@),
{
    closed_object(index, &INDEX_FIELDS, &INDEX_REQUIRED, "theme-repository.json")?;
    if index.unsigned_at("schemaVersion") != Some(1) {
        return Err(AppError::Message("只支持主题仓库标准 v1。".to_owned()));
    }
    match index.get("themes") {
        Some(value) => match value.as_items() {
            Some(list) => {
                if list.len() == 0 || list.len() > 500 {
                    return Err(
                        AppError::Message("主题数量必须在 1 到 500 之间。".to_owned()),
                    );
                }
                Ok(())
            },
            None => Err(AppError::Message("主题仓库 themes 无效。".to_owned())),
        },
        None => Err(AppError::Message("主题仓库 themes 无效。".to_owned())),
    }
}

/// A member that is a text, or else the empty text.
pub open spec fn text_of_member(value: JsonModel, key: Seq<char>) -> Seq<char> {
    match value.text_member(key) {
        Some(text) => text,
        None => Seq::empty(),
    }
}

/// The identifier that an entry of the index gives.
pub open spec fn id_of(entry: JsonModel) -> Seq<char> {
    text_of_member(entry, "id"@)
}

/// The path of the manifest of a theme.
pub open spec fn manifest_path(id: Seq<char>) -> Seq<char> {
    "themes/"@ + id + ".json"@
}

/// Whether an entry of the index gives an identifier that none before it gives, and the path of
/// its manifest.
pub open spec fn sound_name(list: Seq<JsonModel>, n: int) -> bool {
    &&& catalog_id(id_of(list[n]))
    &&& forall|j: int| 0 <= j < n ==> id_of(#[trigger] list[j]) != id_of(list[n])
    &&& text_of_member(list[n], "manifest"@) == manifest_path(id_of(list[n]))
}

/// What is wrong with an entry of the index, its files aside.
pub open spec fn entry_fault(list: Seq<JsonModel>, n: int) -> Option<ErrorModel> {
    either(
        object_fault(list[n], texts(ENTRY_FIELDS@), texts(ENTRY_FIELDS@), "themes[]"@),
        unless(sound_name(list, n), "主题索引条目无效："@ + id_of(list[n])),
    )
}

fn read_member<'a>(value: &'a Json, key: &str) -> (r: &'a str)
    ensures
        r@ == text_of_member(value@, key@),
{
    match value.text_at(key) {
        Some(text) => text,
        None => {
            proof {
                reveal_strlit("");
            }
            assert(""@ =~= Seq::empty());
            ""
        },
    }
}

/// Checks an entry of the index, its files aside.
pub fn validate_entry(list: &Vec<Json>, n: usize) -> (r: Result<(), AppError>)
    requires
        n < list@.len(),
    ensures
        fault(r) == entry_fault(models(list@), n as int),
{
    let entry = &list[n];
    assert(models(list@)[n as int] == entry@);
    closed_object(entry, &ENTRY_FIELDS, &ENTRY_FIELDS, "themes[]")?;
    let id = read_member(entry, "id");
    let path = join3("themes/", id, ".json");
    let mut sound = valid_catalog_id(id) && same(read_member(entry, "manifest"), &path);
    let ghost placed = sound;
    let mut j: usize = 0;
    while j < n
        invariant
            j <= n < list@.len(),
            sound == (placed && forall|k: int|
                0 <= k < j ==> id_of(#[trigger] models(list@)[k]) != id@),
        decreases n - j,
    {
        assert(models(list@)[j as int] == list@[j as int]@);
        if same(read_member(&list[j], "id"), id) {
            sound = false;
        }
        j += 1;
    }
    if !sound {
        return Err(AppError::Message(join2("主题索引条目无效：", id)));
    }
    Ok(())
}

/// Whether the files of the directory of manifests are those that the index lists. Files
/// without the extension `json` do not count.
pub open spec fn listed(list: Seq<JsonModel>, names: Seq<Seq<char>>) -> bool {
    &&& forall|i: int|
        0 <= i < names.len() && named(#[trigger] names[i], ".json"@) ==> lists(list, names[i])
    &&& forall|j: int|
        0 <= j < list.len() ==> holds(names, manifest_path(id_of(#[trigger] list[j])))
}

/// Whether an index lists the manifest of that name.
pub open spec fn lists(list: Seq<JsonModel>, name: Seq<char>) -> bool {
    exists|j: int|
        0 <= j < list.len() && manifest_path(id_of(#[trigger] list[j])) == "themes/"@ + name
}

/// Whether a directory of manifests holds one with that path.
pub open spec fn holds(names: Seq<Seq<char>>, path: Seq<char>) -> bool {
    exists|i: int|
        0 <= i < names.len() && named(#[trigger] names[i], ".json"@) && "themes/"@ + names[i]
            == path
}

fn is_manifest(name: &str) -> (r: bool)
    ensures
        r == named(name@, ".json"@),
{
    proof {
        reveal_strlit(".json");
    }
    chars_of(name).len() > 5 && ends_with(&ascii_lowercase(name), ".json")
}

fn index_lists(list: &Vec<Json>, name: &str) -> (r: bool)
    ensures
        r == lists(models(list@), name@),
{
    let path = join2("themes/", name);
    let mut j: usize = 0;
    while j < list.len()
        invariant
            j <= list@.len(),
            path@ == "themes/"@ + name@,
            forall|k: int|
                0 <= k < j ==> manifest_path(id_of(#[trigger] models(list@)[k])) != "themes/"@
                    + name@,
        decreases list@.len() - j,
    {
        assert(models(list@)[j as int] == list@[j as int]@);
        if same(&join3("themes/", read_member(&list[j], "id"), ".json"), &path) {
            return true;
        }
        j += 1;
    }
    false
}

fn directory_holds(names: &Vec<String>, path: &str) -> (r: bool)
    ensures
        r == holds(strings(names@), path@),
{
    let mut i: usize = 0;
    while i < names.len()
        invariant
            i <= names@.len(),
            forall|k: int|
                0 <= k < i ==> !(named(#[trigger] strings(names@)[k], ".json"@) && "themes/"@
                    + strings(names@)[k] == path@),
        decreases names@.len() - i,
    {
        assert(strings(names@)[i as int] == names@[i as int]@);
        if is_manifest(&names[i]) && same(&join2("themes/", &names[i]), path) {
            return true;
        }
        i += 1;
    }
    false
}

/// Whether the files of the directory of manifests are those that the index lists.
pub fn is_listed(list: &Vec<Json>, names: &Vec<String>) -> (r: bool)
    ensures
        r == listed(models(list@), strings(names@)),
{
    let ghost index = models(list@);
    let ghost found = strings(names@);
    let mut i: usize = 0;
    while i < names.len()
        invariant
            i <= names@.len(),
            index == models(list@),
            found == strings(names@),
            forall|k: int|
                0 <= k < i && named(#[trigger] found[k], ".json"@) ==> lists(index, found[k]),
        decreases names@.len() - i,
    {
        assert(found[i as int] == names@[i as int]@);
        if is_manifest(&names[i]) && !index_lists(list, &names[i]) {
            return false;
        }
        i += 1;
    }
    let mut j: usize = 0;
    while j < list.len()
        invariant
            j <= list@.len(),
            index == models(list@),
            found == strings(names@),
            forall|k: int|
                0 <= k < j ==> holds(found, manifest_path(id_of(#[trigger] index[k]))),
        decreases list@.len() - j,
    {
        assert(index[j as int] == list@[j as int]@);
        if !directory_holds(names, &join3("themes/", read_member(&list[j], "id"), ".json")) {
            return false;
        }
        j += 1;
    }
    true
}

/// What the check of a repository has to know next.
#[derive(Debug)]
pub enum Stage {
    /// Whether the schema at that place in [`SCHEMAS`] is there.
    Schema(usize),
    /// What the index holds.
    Index,
    /// Whether the manifest of the entry at hand is there.
    Present,
    /// What the manifest of the entry at hand holds.
    Manifest,
    /// What is found for an image that the manifest at hand names.
    Image(AssetRequest),
    /// Which files the directory of manifests holds.
    Listing,
    /// Nothing: the check is over.
    Done(Result<(), AppError>),
}

/// What a [`Stage`] says.
pub enum StageModel {
    Schema(int),
    Index,
    Present,
    Manifest,
    Image(AssetModel),
    Listing,
    Done(Option<ErrorModel>),
}

impl View for Stage {
    type V = StageModel;

    open spec fn view(&self) -> StageModel {
        match self {
            Stage::Schema(place) => StageModel::Schema(*place as int),
            Stage::Index => StageModel::Index,
            Stage::Present => StageModel::Present,
            Stage::Manifest => StageModel::Manifest,
            Stage::Image(request) => StageModel::Image(request@),
            Stage::Listing => StageModel::Listing,
            Stage::Done(outcome) => StageModel::Done(fault(*outcome)),
        }
    }
}

/// What was found in a repository.
#[derive(Debug)]
pub enum Finding {
    /// Whether a file is there.
    Present(bool),
    /// The bytes of a file, or why they could not be read.
    Document(Result<Vec<u8>, String>),
    /// What was found for an image.
    Image(Image),
    /// The names of the files of a directory, or why they could not be listed.
    Names(Result<Vec<String>, String>),
}

/// What a [`Finding`] says.
pub enum FindingModel {
    Present(bool),
    Document(Result<Seq<u8>, Seq<char>>),
    Image(ImageModel),
    Names(Result<Seq<Seq<char>>, Seq<char>>),
}

impl View for Finding {
    type V = FindingModel;

    open spec fn view(&self) -> FindingModel {
        match self {
            Finding::Present(present) => FindingModel::Present(*present),
            Finding::Document(Ok(bytes)) => FindingModel::Document(Ok(bytes@)),
            Finding::Document(Err(text)) => FindingModel::Document(Err(text@)),
            Finding::Image(image) => FindingModel::Image(image@),
            Finding::Names(Ok(names)) => FindingModel::Names(Ok(strings(names@))),
            Finding::Names(Err(text)) => FindingModel::Names(Err(text@)),
        }
    }
}

/// The check of a repository.
#[derive(Debug)]
pub struct RepositoryCheck {
    pub stage: Stage,
    /// The index, once it was read.
    pub index: Json,
    /// The place of the entry at hand in the index.
    pub at: usize,
    /// The bytes of the manifest at hand.
    pub manifest: Vec<u8>,
    /// What was found for the images that the manifest at hand names.
    pub images: Vec<Image>,
}

/// What a [`RepositoryCheck`] says.
pub struct CheckModel {
    pub stage: StageModel,
    pub index: JsonModel,
    pub at: int,
    pub manifest: Seq<u8>,
    pub images: Seq<ImageModel>,
}

impl View for RepositoryCheck {
    type V = CheckModel;

    open spec fn view(&self) -> CheckModel {
        CheckModel {
            stage: self.stage@,
            index: self.index@,
            at: self.at as int,
            manifest: self.manifest@,
            images: image_models(self.images@),
        }
    }
}

impl CheckModel {
    /// The check before anything was found.
    pub open spec fn start() -> CheckModel {
        CheckModel {
            stage: StageModel::Schema(0),
            index: JsonModel::Null,
            at: 0,
            manifest: Seq::empty(),
            images: Seq::empty(),
        }
    }

    /// The check at another stage.
    pub open spec fn to(self, stage: StageModel) -> CheckModel {
        CheckModel { stage, ..self }
    }

    /// The check when it has come to an error.
    pub open spec fn failed(self, error: Option<ErrorModel>) -> CheckModel {
        self.to(StageModel::Done(error))
    }

    /// The check when it turns to the entry at that place, or is through with them.
    pub open spec fn entry(self, n: int) -> CheckModel {
        let list = entries(self.index);
        let there = CheckModel { at: n, ..self };
        if n >= list.len() {
            there.to(StageModel::Listing)
        } else if entry_fault(list, n) is Some {
            there.failed(entry_fault(list, n))
        } else {
            there.to(StageModel::Present)
        }
    }

    /// The identifier of the theme at hand.
    pub open spec fn id(self) -> Seq<char> {
        id_of(entries(self.index)[self.at])
    }

    /// The check when the manifest at hand was read, and some of its images were looked at.
    pub open spec fn judged(self) -> CheckModel {
        match theme_verdict(self.manifest, self.id(), self.images) {
            StepModel::Finished(Some(error)) => self.failed(Some(error)),
            StepModel::Finished(None) => self.entry(self.at + 1),
            StepModel::Read(asset) => self.to(StageModel::Image(asset)),
        }
    }

    /// The check once it knows what it asked for. What it did not ask for changes nothing.
    pub open spec fn next(self, finding: FindingModel) -> CheckModel {
        match (self.stage, finding) {
            (StageModel::Schema(place), FindingModel::Present(present)) => {
                if !present {
                    self.failed(broken("主题仓库缺少 Schema："@ + texts(SCHEMAS@)[place]))
                } else if place + 1 < 2 {
                    self.to(StageModel::Schema(place + 1))
                } else {
                    self.to(StageModel::Index)
                }
            },
            (StageModel::Index, FindingModel::Document(Err(text))) => self.failed(
                Some(ErrorModel::Io(text)),
            ),
            (StageModel::Index, FindingModel::Document(Ok(bytes))) => match json_read(bytes) {
                Err(text) => self.failed(Some(ErrorModel::Json(text))),
                Ok(index) => if index_fault(index) is Some {
                    self.failed(index_fault(index))
                } else {
                    CheckModel { index, ..self }.entry(0)
                },
            },
            (StageModel::Present, FindingModel::Present(present)) => {
                if present {
                    self.to(StageModel::Manifest)
                } else {
                    self.failed(broken("主题索引条目无效："@ + self.id()))
                }
            },
            (StageModel::Manifest, FindingModel::Document(Err(text))) => self.failed(
                Some(ErrorModel::Io(text)),
            ),
            (StageModel::Manifest, FindingModel::Document(Ok(bytes))) => CheckModel {
                manifest: bytes,
                images: Seq::empty(),
                ..self
            }.judged(),
            (StageModel::Image(_), FindingModel::Image(image)) => CheckModel {
                images: self.images.push(image),
                ..self
            }.judged(),
            (StageModel::Listing, FindingModel::Names(Err(text))) => self.failed(
                Some(ErrorModel::Io(text)),
            ),
            (StageModel::Listing, FindingModel::Names(Ok(names))) => self.failed(
                unless(
                    listed(entries(self.index), names),
                    "主题索引与 themes 目录不一致。"@,
                ),
            ),
            _ => self,
        }
    }

    /// Whether the check is at a stage that it can be at.
    pub open spec fn valid(self) -> bool {
        match self.stage {
            StageModel::Schema(place) => 0 <= place < 2,
            StageModel::Present | StageModel::Manifest | StageModel::Image(_) => 0 <= self.at
                < entries(self.index).len(),
            _ => true,
        }
    }
}

/// The themes that an index lists.
fn list_of(index: &Json) -> (r: Option<&Vec<Json>>)
    ensures
        match r {
            Some(list) => entries(index@) == models(list@),
            None => entries(index@) == Seq::<JsonModel>::empty(),
        },
{
    match index.get("themes") {
        Some(value) => value.as_items(),
        None => None,
    }
}

fn to_entry(check: &mut RepositoryCheck, n: usize)
    ensures
        final(check)@ == old(check)@.entry(n as int),
{
    check.at = n;
    match list_of(&check.index) {
        Some(list) => {
            if n >= list.len() {
                check.stage = Stage::Listing;
            } else {
                match validate_entry(list, n) {
                    Ok(_) => {
                        check.stage = Stage::Present;
                    },
                    Err(error) => {
                        check.stage = Stage::Done(Err(error));
                    },
                }
            }
        },
        None => {
            check.stage = Stage::Listing;
        },
    }
}

/// The identifier of the theme at hand.
fn id_at_hand(check: &RepositoryCheck) -> (r: &str)
    requires
        0 <= check@.at < entries(check@.index).len(),
    ensures
        r@ == check@.id(),
        check.at < usize::MAX,
{
    match list_of(&check.index) {
        Some(list) => {
            assert(models(list@)[check.at as int] == list@[check.at as int]@);
            assert(list.len() <= usize::MAX);
            read_member(&list[check.at], "id")
        },
        None => "",
    }
}

fn judge(check: &mut RepositoryCheck)
    requires
        0 <= old(check)@.at < entries(old(check)@.index).len(),
    ensures
        final(check)@ == old(check)@.judged(),
{
    let step = validate_theme(&check.manifest, id_at_hand(check), &check.images);
    match step {
        Step::Finished(Err(error)) => {
            check.stage = Stage::Done(Err(error));
        },
        Step::Finished(Ok(_)) => {
            let next: usize = check.at + 1;
            to_entry(check, next);
        },
        Step::Read(request) => {
            check.stage = Stage::Image(request);
        },
    }
}

/// The path of the manifest at hand.
pub fn manifest_at_hand(check: &RepositoryCheck) -> (r: String)
    requires
        0 <= check@.at < entries(check@.index).len(),
    ensures
        r@ == manifest_path(check@.id()),
{
    join3("themes/", id_at_hand(check), ".json")
}

/// The check of a repository, before anything of it is known.
pub fn begin_repository() -> (check: RepositoryCheck)
    ensures
        check@ == CheckModel::start(),
        check@.valid(),
{
    let check = RepositoryCheck {
        stage: Stage::Schema(0),
        index: Json::Null,
        at: 0,
        manifest: Vec::new(),
        images: Vec::new(),
    };
    assert(check@.images =~= Seq::empty());
    check
}

/// Takes the check of a repository one finding further.
pub fn validate_repository(check: RepositoryCheck, finding: Finding) -> (r: RepositoryCheck)
    requires
        check@.valid(),
    ensures
        r@ == check@.next(finding@),
        r@.valid(),
{
    let mut check = check;
    let ghost before = check@;
    match (&check.stage, finding) {
        (Stage::Schema(place), Finding::Present(present)) => {
            if !present {
                check.stage = Stage::Done(
                    Err(AppError::Message(join2("主题仓库缺少 Schema：", SCHEMAS[*place]))),
                );
            } else if *place + 1 < 2 {
                check.stage = Stage::Schema(*place + 1);
            } else {
                check.stage = Stage::Index;
            }
        },
        (Stage::Index, Finding::Document(Err(text))) => {
            check.stage = Stage::Done(Err(AppError::Io(text)));
        },
        (Stage::Index, Finding::Document(Ok(bytes))) => match read_json(&bytes) {
            Err(text) => {
                check.stage = Stage::Done(Err(AppError::Json(text)));
            },
            Ok(index) => match validate_index(&index) {
                Err(error) => {
                    check.stage = Stage::Done(Err(error));
                },
                Ok(_) => {
                    check.index = index;
                    to_entry(&mut check, 0);
                },
            },
        },
        (Stage::Present, Finding::Present(present)) => {
            if present {
                check.stage = Stage::Manifest;
            } else {
                let error = AppError::Message(join2("主题索引条目无效：", id_at_hand(&check)));
                check.stage = Stage::Done(Err(error));
            }
        },
        (Stage::Manifest, Finding::Document(Err(text))) => {
            check.stage = Stage::Done(Err(AppError::Io(text)));
        },
        (Stage::Manifest, Finding::Document(Ok(bytes))) => {
            check.manifest = bytes;
            check.images = Vec::new();
            assert(check@.images =~= Seq::empty());
            judge(&mut check);
        },
        (Stage::Image(_), Finding::Image(image)) => {
            check.images.push(image);
            assert(check@.images =~= before.images.push(image@));
            judge(&mut check);
        },
        (Stage::Listing, Finding::Names(Err(text))) => {
            check.stage = Stage::Done(Err(AppError::Io(text)));
        },
        (Stage::Listing, Finding::Names(Ok(names))) => {
            let none: Vec<Json> = Vec::new();
            assert(models(none@) =~= Seq::empty());
            let list = match list_of(&check.index) {
                Some(list) => list,
                None => &none,
            };
            if is_listed(list, &names) {
                check.stage = Stage::Done(Ok(()));
            } else {
                check.stage = Stage::Done(
                    Err(AppError::Message("主题索引与 themes 目录不一致。".to_owned())),
                );
            }
        },
        _ => {},
    }
    check
}

} // verus!
