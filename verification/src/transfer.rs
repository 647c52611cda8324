//! Fetching the catalog and its files.

use crate::assets::decoded;
use crate::catalog::{judged, validate_remote_catalog, RemoteCatalog, RemoteResource, ResourceModel};
use crate::error::{broken, either, fault, AppError, ErrorModel};
use crate::json::{object_model, write_json_pretty, Json, JsonModel};
use crate::json_text::json_pretty;
use crate::outside::{decode_image, hex_encode, hex_text, image_read, maybe, sha256, sha256_digest};
use crate::sources::{
    address, address_of, feed_order, file_order, order_for_feed, order_for_file, places, source_ids,
    within, Source, FEED_NAME,
};
use crate::text::{join2, join4, same};
use crate::theme::unless;
use vstd::prelude::*;

verus! {

/// How many bytes the catalog may have.
pub const MAX_FEED: u64 = 5242880;

/// Which catalog lies in the cache: where it came from, and the tag that the server gave it.
#[derive(Debug)]
pub struct SyncState {
    pub source_id: String,
    pub etag: Option<String>,
}

impl Default for SyncState {
    fn default() -> (state: SyncState)
        ensures
            state.source_id@ == Seq::<char>::empty(),
            state.etag is None,
    {
        SyncState { source_id: String::new(), etag: None }
    }
}

/// How the catalog is asked for.
#[derive(Debug)]
pub struct FeedRequest {
    pub url: String,
    /// The tag of the catalog that need not be sent again.
    pub etag: Option<String>,
}

/// The tag that is sent to a server: the one that it gave itself.
pub open spec fn tag_for(source_id: Seq<char>, state: SyncState) -> Option<Seq<char>> {
    if state.source_id@ == source_id {
        maybe(state.etag)
    } else {
        None
    }
}

/// How the catalog is asked for at a server.
pub fn feed_request(source: &Source, state: &SyncState) -> (request: FeedRequest)
    ensures
        request.url@ == address(source.prefix@, FEED_NAME@),
        maybe(request.etag) == tag_for(source.id@, *state),
{
    let etag = if same(&state.source_id, &source.id) {
        match &state.etag {
            Some(etag) => Some(etag.clone()),
            None => None,
        }
    } else {
        None
    };
    FeedRequest { url: address_of(&source.prefix, FEED_NAME), etag }
}

/// What a server answered when it was asked for the catalog.
#[derive(Debug)]
pub enum FeedReply {
    /// The catalog with the tag that was sent is the newest.
    NotModified,
    /// No answer, or one that says that it failed.
    Failed(String),
    /// The catalog, with its length where the server tells it.
    Answered(Option<u64>),
}

/// What follows from the answer of a server.
#[derive(Debug)]
pub enum FeedAction {
    /// The catalog in the cache is taken.
    UseCache,
    /// The catalog is received, up to that many bytes.
    Receive(u64),
    /// The server is given up.
    Fail(AppError),
}

/// What a [`FeedAction`] says.
pub enum FeedModel {
    UseCache,
    Receive(u64),
    Fail(ErrorModel),
}

impl View for FeedAction {
    type V = FeedModel;

    open spec fn view(&self) -> FeedModel {
        match self {
            FeedAction::UseCache => FeedModel::UseCache,
            FeedAction::Receive(limit) => FeedModel::Receive(*limit),
            FeedAction::Fail(error) => FeedModel::Fail(error@),
        }
    }
}

/// What follows from the answer of a server; `cached` tells whether a catalog is in the cache.
pub fn sync_feed(reply: FeedReply, cached: bool) -> (action: FeedAction)
    ensures
        action@ == (match reply {
            FeedReply::NotModified => if cached {
                FeedModel::UseCache
            } else {
                FeedModel::Fail(
                    ErrorModel::Message("服务器返回未修改，但本地没有目录缓存。"@),
                )
            },
            FeedReply::Failed(text) => FeedModel::Fail(ErrorModel::Http(text@)),
            FeedReply::Answered(length) => if length matches Some(n) && n > MAX_FEED {
                FeedModel::Fail(ErrorModel::Message("远程主题目录超过 5 MB 限制。"@))
            } else {
                FeedModel::Receive(MAX_FEED)
            },
        }),
{
    match reply {
        FeedReply::NotModified => {
            if cached {
                FeedAction::UseCache
            } else {
                FeedAction::Fail(
                    AppError::Message("服务器返回未修改，但本地没有目录缓存。".to_owned()),
                )
            }
        },
        FeedReply::Failed(text) => FeedAction::Fail(AppError::Http(text)),
        FeedReply::Answered(Some(length)) => {
            if length > MAX_FEED {
                FeedAction::Fail(
                    AppError::Message("远程主题目录超过 5 MB 限制。".to_owned()),
                )
            } else {
                FeedAction::Receive(MAX_FEED)
            }
        },
        FeedReply::Answered(None) => FeedAction::Receive(MAX_FEED),
    }
}

/// Takes a catalog that was received from a server, if it is sound: what is remembered of it.
pub fn accept_feed(catalog: &RemoteCatalog, source_id: &str, etag: Option<String>) -> (r: Result<
    SyncState,
    AppError,
>)
    ensures
        judged(catalog@, fault(r)),
        r is Ok ==> r->Ok_0.source_id@ == source_id@ && maybe(r->Ok_0.etag) == maybe(etag),
{
    validate_remote_catalog(catalog)?;
    Ok(SyncState { source_id: source_id.to_owned(), etag })
}

/// Adds a piece to what was received so far, unless that makes it too long.
pub fn download_response(bytes: &mut Vec<u8>, chunk: &Vec<u8>, limit: u64) -> (r: Result<
    (),
    AppError,
>)
    ensures
        fault(r) == unless(
            old(bytes)@.len() + chunk@.len() <= limit,
            "远程资源超过声明的大小限制。"@,
        ),
        final(bytes)@ == (if r is Ok {
            old(bytes)@ + chunk@
        } else {
            old(bytes)@
        }),
{
    let held = bytes.len() as u64;
    let more = chunk.len() as u64;
    if more > limit || held > limit - more {
        return Err(AppError::Message("远程资源超过声明的大小限制。".to_owned()));
    }
    let ghost before = bytes@;
    let mut i: usize = 0;
    while i < chunk.len()
        invariant
            i <= chunk@.len(),
            bytes@ == before + chunk@.take(i as int),
        decreases chunk@.len() - i,
    {
        bytes.push(chunk[i]);
        i += 1;
        assert(bytes@ =~= before + chunk@.take(i as int));
    }
    assert(chunk@.take(i as int) =~= chunk@);
    Ok(())
}

/// What is received in pieces, if it does not get too long.
pub open spec fn received(held: Seq<u8>, chunks: Seq<Seq<u8>>, limit: u64) -> Option<Seq<u8>>
    decreases chunks.len(),
{
    if chunks.len() == 0 {
        Some(held)
    } else if held.len() + chunks[0].len() > limit {
        None
    } else {
        received(held + chunks[0], chunks.skip(1), limit)
    }
}

/// The pieces, one after the other.
pub open spec fn joined(chunks: Seq<Seq<u8>>) -> Seq<u8>
    decreases chunks.len(),
{
    if chunks.len() == 0 {
        Seq::empty()
    } else {
        chunks[0] + joined(chunks.skip(1))
    }
}

/// However the bytes are cut into pieces, they are received whole exactly when they are not too
/// long.
pub proof fn pieces_are_received(held: Seq<u8>, chunks: Seq<Seq<u8>>, limit: u64)
    requires
        held.len() <= limit,
    ensures
        received(held, chunks, limit) == (if held.len() + joined(chunks).len() <= limit {
            Some(held + joined(chunks))
        } else {
            None
        }),
    decreases chunks.len(),
{
    if chunks.len() == 0 {
        assert(held + joined(chunks) =~= held);
    } else {
        if held.len() + chunks[0].len() <= limit {
            pieces_are_received(held + chunks[0], chunks.skip(1), limit);
            assert(held + chunks[0] + joined(chunks.skip(1)) =~= held + joined(chunks));
        }
    }
}

/// What the server that was chosen gave.
#[derive(Debug)]
pub struct SyncResult {
    pub theme_count: usize,
    pub source_id: String,
    pub source_name: String,
}

/// The search for a server that gives the catalog.
#[derive(Debug)]
pub struct CatalogSync {
    /// The places of the servers, in the order in which they are tried.
    pub order: Vec<usize>,
    /// How many of them failed.
    pub at: usize,
}

/// What follows from the attempt at a server.
#[derive(Debug)]
pub enum SyncStep {
    /// The server at that place is tried.
    Try(usize),
    /// The catalog is there.
    Chosen(SyncResult),
    /// No server gave the catalog.
    Failed(AppError),
}

/// What a [`SyncStep`] says.
pub enum SyncModel {
    Try(int),
    Chosen(nat, Seq<char>, Seq<char>),
    Failed(ErrorModel),
}

impl View for SyncStep {
    type V = SyncModel;

    open spec fn view(&self) -> SyncModel {
        match self {
            SyncStep::Try(place) => SyncModel::Try(*place as int),
            SyncStep::Chosen(result) => SyncModel::Chosen(
                result.theme_count as nat,
                result.source_id@,
                result.source_name@,
            ),
            SyncStep::Failed(error) => SyncModel::Failed(error@),
        }
    }
}

/// What an attempt at a server gave.
pub open spec fn attempted(outcome: Result<usize, AppError>) -> Result<nat, ErrorModel> {
    match outcome {
        Ok(count) => Ok(count as nat),
        Err(error) => Err(error@),
    }
}

/// What follows from the attempt at the server at a place in the order.
pub open spec fn sync_step(
    sources: Seq<(Seq<char>, Seq<char>)>,
    order: Seq<int>,
    at: int,
    outcome: Result<nat, ErrorModel>,
) -> SyncModel {
    match outcome {
        Ok(count) => SyncModel::Chosen(count, sources[order[at]].0, sources[order[at]].1),
        Err(error) => if at + 1 < order.len() {
            SyncModel::Try(order[at + 1])
        } else {
            SyncModel::Failed(ErrorModel::Message("所有主题同步线路均失败："@ + error.text()))
        },
    }
}

/// The identifiers and the names of servers.
pub open spec fn titles(sources: Seq<Source>) -> Seq<(Seq<char>, Seq<char>)> {
    Seq::new(sources.len(), |i: int| (sources[i].id@, sources[i].name@))
}

impl CatalogSync {
    /// Whether there is a server to try.
    pub open spec fn valid(&self, sources: Seq<Source>) -> bool {
        &&& within(places(self.order@), sources.len() as int)
        &&& self.at < self.order@.len()
    }

    /// The server that is tried.
    pub open spec fn place(&self) -> int {
        places(self.order@)[self.at as int]
    }

    /// The search before any server was tried.
    pub fn new(sources: &Vec<Source>, preferred: &str) -> (sync: CatalogSync)
        requires
            sources@.len() > 0,
        ensures
            sync.valid(sources@),
            places(sync.order@) == feed_order(source_ids(sources@), preferred@),
            sync.at == 0,
    {
        CatalogSync { order: order_for_feed(sources, preferred), at: 0 }
    }

    /// The place of the server that is to be tried.
    pub fn pending(&self, sources: &Vec<Source>) -> (place: usize)
        requires
            self.valid(sources@),
        ensures
            place == self.place(),
            place < sources@.len(),
    {
        assert(places(self.order@)[self.at as int] == self.order@[self.at as int]);
        self.order[self.at]
    }

    /// Takes the search further, given what the server gave: how many themes its catalog has,
    /// or why it failed.
    pub fn sync(&mut self, sources: &Vec<Source>, outcome: Result<usize, AppError>) -> (step:
        SyncStep)
        requires
            old(self).valid(sources@),
        ensures
            final(self).order@ == old(self).order@,
            step is Try ==> final(self).valid(sources@) && final(self).at == old(self).at + 1,
            !(step is Try) ==> final(self).at == old(self).at,
            step@ == sync_step(
                titles(sources@),
                places(old(self).order@),
                old(self).at as int,
                attempted(outcome),
            ),
    {
        assert(places(self.order@)[self.at as int] == self.order@[self.at as int]);
        match outcome {
            Ok(theme_count) => {
                let source = &sources[self.order[self.at]];
                SyncStep::Chosen(
                    SyncResult {
                        theme_count,
                        source_id: source.id.clone(),
                        source_name: source.name.clone(),
                    },
                )
            },
            Err(error) => {
                if self.order.len() - self.at > 1 {
                    self.at = self.at + 1;
                    SyncStep::Try(self.order[self.at])
                } else {
                    SyncStep::Failed(
                        AppError::Message(join2("所有主题同步线路均失败：", &error.message())),
                    )
                }
            },
        }
    }
}

/// The settings, with the server that gave the catalog.
pub open spec fn settings_model(source_id: Seq<char>) -> JsonModel {
    JsonModel::Object(seq![("sourceId"@, JsonModel::Text(source_id))])
}

/// The settings as a document.
pub fn settings_document(source_id: &str) -> (bytes: Vec<u8>)
    ensures
        bytes@ == json_pretty(settings_model(source_id@)),
{
    let mut members: Vec<(String, Json)> = Vec::new();
    members.push(("sourceId".to_owned(), Json::Text(source_id.to_owned())));
    proof {
        object_model(members);
        reveal_with_fuel(crate::json::writable, 2);
    }
    assert(Json::Object(members)@->Object_0 =~= seq![("sourceId"@, JsonModel::Text(source_id@))]);
    write_json_pretty(&Json::Object(members))
}

/// What is wrong with the bytes of a file, given their digest, and what they are as an image
/// where they have to be one.
pub open spec fn content_fault(
    resource: ResourceModel,
    length: nat,
    digest: Seq<u8>,
    image: Option<Result<(u32, u32), Seq<char>>>,
) -> Option<ErrorModel> {
    either(
        unless(
            length == resource.size && hex_text(digest) == resource.sha256,
            "主题资源完整性校验失败："@ + resource.path,
        ),
        match image {
            Some(Err(text)) => broken(
                "主题图片无法解码："@ + resource.path + "："@ + text,
            ),
            _ => None,
        },
    )
}

/// What the result of decoding is, where something was decoded.
pub open spec fn maybe_decoded(image: Option<Result<(u32, u32), String>>) -> Option<
    Result<(u32, u32), Seq<char>>,
> {
    match image {
        Some(outcome) => Some(decoded(outcome)),
        None => None,
    }
}

/// Checks the bytes of a file, given their digest, and what they are as an image where they have
/// to be one.
pub fn validate_content(
    resource: &RemoteResource,
    length: usize,
    digest: &Vec<u8>,
    image: Option<Result<(u32, u32), String>>,
) -> (r: Result<(), AppError>)
    ensures
        fault(r) == content_fault(resource@, length as nat, digest@, maybe_decoded(image)),
{
    if length as u64 != resource.size || !same(&hex_encode(digest), &resource.sha256) {
        return Err(AppError::Message(join2("主题资源完整性校验失败：", &resource.path)));
    }
    if let Some(Err(text)) = image {
        return Err(
            AppError::Message(join4("主题图片无法解码：", &resource.path, "：", &text)),
        );
    }
    Ok(())
}

/// What is wrong with the bytes of a file.
pub open spec fn bytes_fault(resource: ResourceModel, image: bool, bytes: Seq<u8>) -> Option<
    ErrorModel,
> {
    content_fault(
        resource,
        bytes.len(),
        sha256(bytes),
        if image {
            Some(image_read(bytes))
        } else {
            None
        },
    )
}

/// Checks the bytes of a file, which have to be an image where `image` says so.
pub fn validate_bytes(resource: &RemoteResource, image: bool, bytes: &Vec<u8>) -> (r: Result<
    (),
    AppError,
>)
    ensures
        fault(r) == bytes_fault(resource@, image, bytes@),
{
    let digest = sha256_digest(bytes);
    let outcome = if image {
        Some(decode_image(bytes))
    } else {
        None
    };
    validate_content(resource, bytes.len(), &digest, outcome)
}

/// Whether what lies in the cache is the file that the catalog describes.
pub fn verify_cached(bytes: Option<&Vec<u8>>, resource: &RemoteResource, image: bool) -> (r: bool)
    ensures
        r == (bytes matches Some(bytes) && bytes_fault(resource@, image, bytes@) is None),
{
    match bytes {
        Some(bytes) => validate_bytes(resource, image, bytes).is_ok(),
        None => false,
    }
}

/// The error of a file that could not be written.
pub fn write_failed(error: &str) -> (r: AppError)
    ensures
        r@ == ErrorModel::Message("原子写入失败："@ + error@),
{
    AppError::Message(join2("原子写入失败：", error))
}

/// What the fetching of a file has to know or do next.
#[derive(Debug)]
pub enum TransferStage {
    /// What lies in the cache.
    Cache,
    /// What the server at hand answers.
    Request,
    /// The bytes that the server at hand sends.
    Body,
    /// These bytes are written to the cache.
    Store(Vec<u8>),
    /// Nothing: the file is in the cache, or could not be fetched.
    Done(Result<(), AppError>),
}

/// What a [`TransferStage`] says.
pub enum TransferModel {
    Cache,
    Request,
    Body,
    Store(Seq<u8>),
    Done(Option<ErrorModel>),
}

impl View for TransferStage {
    type V = TransferModel;

    open spec fn view(&self) -> TransferModel {
        match self {
            TransferStage::Cache => TransferModel::Cache,
            TransferStage::Request => TransferModel::Request,
            TransferStage::Body => TransferModel::Body,
            TransferStage::Store(bytes) => TransferModel::Store(bytes@),
            TransferStage::Done(outcome) => TransferModel::Done(fault(*outcome)),
        }
    }
}

/// What came of a stage of the fetching of a file.
#[derive(Debug)]
pub enum TransferEvent {
    /// The bytes in the cache, where there are any.
    Cached(Option<Vec<u8>>),
    /// The length that a server tells, or why it failed.
    Answered(Result<Option<u64>, String>),
    /// The bytes that a server sent, or why they did not come.
    Received(Result<Vec<u8>, AppError>),
    /// Whether the bytes were written.
    Stored(Result<(), AppError>),
}

/// What a [`TransferEvent`] says.
pub enum EventModel {
    Cached(Option<Seq<u8>>),
    Answered(Result<Option<u64>, Seq<char>>),
    Received(Result<Seq<u8>, ErrorModel>),
    Stored(Option<ErrorModel>),
}

impl View for TransferEvent {
    type V = EventModel;

    open spec fn view(&self) -> EventModel {
        match self {
            TransferEvent::Cached(Some(bytes)) => EventModel::Cached(Some(bytes@)),
            TransferEvent::Cached(None) => EventModel::Cached(None),
            TransferEvent::Answered(Ok(length)) => EventModel::Answered(Ok(*length)),
            TransferEvent::Answered(Err(text)) => EventModel::Answered(Err(text@)),
            TransferEvent::Received(Ok(bytes)) => EventModel::Received(Ok(bytes@)),
            TransferEvent::Received(Err(error)) => EventModel::Received(Err(error@)),
            TransferEvent::Stored(outcome) => EventModel::Stored(fault(*outcome)),
        }
    }
}

/// The fetching of a file.
#[derive(Debug)]
pub struct Transfer {
    pub stage: TransferStage,
    /// The places of the servers, in the order in which they are tried.
    pub order: Vec<usize>,
    /// How many of them failed.
    pub at: usize,
}

/// What a [`Transfer`] says.
pub struct FetchModel {
    pub stage: TransferModel,
    pub order: Seq<int>,
    pub at: int,
}

impl View for Transfer {
    type V = FetchModel;

    open spec fn view(&self) -> FetchModel {
        FetchModel { stage: self.stage@, order: places(self.order@), at: self.at as int }
    }
}

/// The error when no server gave a file.
pub open spec fn unavailable(path: Seq<char>, last: Seq<char>) -> ErrorModel {
    ErrorModel::Message("所有线路均无法下载主题资源 "@ + path + "："@ + last)
}

impl FetchModel {
    /// The fetching at another stage.
    pub open spec fn to(self, stage: TransferModel) -> FetchModel {
        FetchModel { stage, ..self }
    }

    /// The fetching when it turns to the server at that place in the order, or has tried all of
    /// them in vain, the last one with that text.
    pub open spec fn turn(self, path: Seq<char>, n: int, last: Seq<char>) -> FetchModel {
        if n < self.order.len() {
            FetchModel { at: n, ..self }.to(TransferModel::Request)
        } else {
            self.to(TransferModel::Done(Some(unavailable(path, last))))
        }
    }

    /// The fetching when the server at hand failed.
    pub open spec fn missed(self, path: Seq<char>, error: ErrorModel) -> FetchModel {
        self.turn(path, self.at + 1, error.text())
    }

    /// The fetching once it knows what it asked for. What it did not ask for changes nothing.
    pub open spec fn next(self, resource: ResourceModel, image: bool, event: EventModel) -> FetchModel {
        match (self.stage, event) {
            (TransferModel::Cache, EventModel::Cached(cached)) => {
                if cached matches Some(bytes) && bytes_fault(resource, image, bytes) is None {
                    self.to(TransferModel::Done(None))
                } else {
                    self.turn(resource.path, 0, Seq::empty())
                }
            },
            (TransferModel::Request, EventModel::Answered(Err(text))) => self.missed(
                resource.path,
                ErrorModel::Http(text),
            ),
            (TransferModel::Request, EventModel::Answered(Ok(length))) => {
                if length matches Some(n) && n != resource.size {
                    self.missed(
                        resource.path,
                        ErrorModel::Message("主题资源大小不匹配："@ + resource.path),
                    )
                } else {
                    self.to(TransferModel::Body)
                }
            },
            (TransferModel::Body, EventModel::Received(Err(error))) => self.missed(
                resource.path,
                error,
            ),
            (TransferModel::Body, EventModel::Received(Ok(bytes))) => match bytes_fault(
                resource,
                image,
                bytes,
            ) {
                Some(error) => self.missed(resource.path, error),
                None => self.to(TransferModel::Store(bytes)),
            },
            (TransferModel::Store(_), EventModel::Stored(Some(error))) => self.missed(
                resource.path,
                error,
            ),
            (TransferModel::Store(_), EventModel::Stored(None)) => self.to(
                TransferModel::Done(None),
            ),
            _ => self,
        }
    }

    /// Whether there is a server at hand where the fetching needs one.
    pub open spec fn valid(self) -> bool {
        !(self.stage is Cache) && !(self.stage is Done) ==> 0 <= self.at < self.order.len()
    }

    /// Whether nothing is to be stored but what the catalog describes.
    pub open spec fn intact(self, resource: ResourceModel, image: bool) -> bool {
        self.stage matches TransferModel::Store(bytes) ==> bytes_fault(
            resource,
            image,
            bytes,
        ) is None
    }
}

fn turn(transfer: Transfer, path: &str, n: usize, last: &str) -> (r: Transfer)
    ensures
        r@ == transfer@.turn(path@, n as int, last@),
        r.order@ == transfer.order@,
{
    let mut next = transfer;
    if n < next.order.len() {
        next.at = n;
        next.stage = TransferStage::Request;
    } else {
        next.stage = TransferStage::Done(
            Err(AppError::Message(join4("所有线路均无法下载主题资源 ", path, "：", last))),
        );
    }
    next
}

fn missed(transfer: Transfer, path: &str, error: AppError) -> (r: Transfer)
    requires
        transfer.at < transfer.order@.len(),
    ensures
        r@ == transfer@.missed(path@, error@),
        r.order@ == transfer.order@,
{
    assert(transfer.order.len() <= usize::MAX);
    let n: usize = transfer.at + 1;
    turn(transfer, path, n, &error.message())
}

/// The fetching of a file, before anything is known.
pub fn begin_download(sources: &Vec<Source>, preferred: &str) -> (transfer: Transfer)
    ensures
        transfer@ == (FetchModel {
            stage: TransferModel::Cache,
            order: file_order(source_ids(sources@), preferred@),
            at: 0,
        }),
        within(transfer@.order, sources@.len() as int),
{
    Transfer { stage: TransferStage::Cache, order: order_for_file(sources, preferred), at: 0 }
}

/// The address that the server at hand is asked for.
pub fn download_address(transfer: &Transfer, sources: &Vec<Source>, resource: &RemoteResource) -> (r:
    String)
    requires
        within(transfer@.order, sources@.len() as int),
        transfer.at < transfer.order@.len(),
    ensures
        r@ == address(sources@[transfer@.order[transfer@.at]].prefix@, resource.path@),
{
    assert(transfer@.order[transfer@.at] == transfer.order@[transfer.at as int]);
    address_of(&sources[transfer.order[transfer.at]].prefix, &resource.path)
}

/// Takes the fetching of a file one event further.
pub fn download_resource(
    transfer: Transfer,
    resource: &RemoteResource,
    image: bool,
    event: TransferEvent,
) -> (r: Transfer)
    requires
        transfer@.valid(),
    ensures
        r@ == transfer@.next(resource@, image, event@),
        r@.valid(),
        transfer@.intact(resource@, image) ==> r@.intact(resource@, image),
        r.order@ == transfer.order@,
{
    let mut next = transfer;
    assert(places(next.order@).len() == next.order@.len());
    match (&next.stage, event) {
        (TransferStage::Cache, TransferEvent::Cached(cached)) => {
            let held = match &cached {
                Some(bytes) => Some(bytes),
                None => None,
            };
            if verify_cached(held, resource, image) {
                next.stage = TransferStage::Done(Ok(()));
                next
            } else {
                proof {
                    reveal_strlit("");
                }
                assert(""@ =~= Seq::empty());
                turn(next, &resource.path, 0, "")
            }
        },
        (TransferStage::Request, TransferEvent::Answered(Err(text))) => missed(
            next,
            &resource.path,
            AppError::Http(text),
        ),
        (TransferStage::Request, TransferEvent::Answered(Ok(length))) => {
            let wrong = match length {
                Some(n) => n != resource.size,
                None => false,
            };
            if wrong {
                let error = AppError::Message(join2("主题资源大小不匹配：", &resource.path));
                missed(next, &resource.path, error)
            } else {
                next.stage = TransferStage::Body;
                next
            }
        },
        (TransferStage::Body, TransferEvent::Received(Err(error))) => missed(
            next,
            &resource.path,
            error,
        ),
        (TransferStage::Body, TransferEvent::Received(Ok(bytes))) => match validate_bytes(
            resource,
            image,
            &bytes,
        ) {
            Ok(_) => {
                next.stage = TransferStage::Store(bytes);
                next
            },
            Err(error) => missed(next, &resource.path, error),
        },
        (TransferStage::Store(_), TransferEvent::Stored(Err(error))) => missed(
            next,
            &resource.path,
            error,
        ),
        (TransferStage::Store(_), TransferEvent::Stored(Ok(_))) => {
            next.stage = TransferStage::Done(Ok(()));
            next
        },
        _ => next,
    }
}

} // verus!
