//! What holds of fetching the catalog and its files as a whole.

use crate::catalog::ResourceModel;
use crate::error::{AppError, ErrorModel};
use crate::json::JsonModel;
use crate::outside::{hex_text, image_read, maybe, sha256};
use crate::sources::{
    chosen, feed_order, feed_order_is_complete, feed_order_is_within, places, Source,
};
use crate::transfer::{
    attempted, bytes_fault, content_fault, maybe_decoded, settings_model, sync_step, tag_for,
    titles, CatalogSync, EventModel, FeedAction, FeedModel, FetchModel, SyncModel, SyncResult,
    SyncState, SyncStep, Transfer, TransferEvent, TransferModel, TransferStage, MAX_FEED,
};
use vstd::prelude::*;

verus! {

/// Bytes are taken for a file of the catalog only if they have its size and its digest, and,
/// where the file has to be an image, hold one.
pub proof fn taken_bytes_are_intact(resource: ResourceModel, image: bool, bytes: Seq<u8>)
    ensures
        bytes_fault(resource, image, bytes) is None <==> {
            &&& bytes.len() == resource.size
            &&& hex_text(sha256(bytes)) == resource.sha256
            &&& image ==> image_read(bytes) is Ok
        },
{
}

/// Whatever happens, nothing comes to be stored but what the catalog describes.
pub proof fn stored_bytes_are_intact(
    fetch: FetchModel,
    resource: ResourceModel,
    image: bool,
    event: EventModel,
)
    requires
        fetch.intact(resource, image),
    ensures
        fetch.next(resource, image, event).intact(resource, image),
{
}

/// The fetching of a file succeeds only when the file in the cache is intact, or when one that
/// is intact was stored.
pub proof fn success_is_intact(
    fetch: FetchModel,
    resource: ResourceModel,
    image: bool,
    event: EventModel,
)
    requires
        fetch.intact(resource, image),
        !(fetch.stage is Done),
        fetch.next(resource, image, event).stage == TransferModel::Done(None),
    ensures
        (event matches EventModel::Cached(Some(bytes)) && bytes_fault(resource, image, bytes) is None)
            || (fetch.stage matches TransferModel::Store(bytes) && bytes_fault(
            resource,
            image,
            bytes,
        ) is None && event == EventModel::Stored(None)),
{
}

/// What there is to be found while a file is fetched.
pub struct Network {
    /// The bytes in the cache.
    pub cached: Option<Seq<u8>>,
    /// What the server at a place answers.
    pub answer: spec_fn(int) -> Result<Option<u64>, Seq<char>>,
    /// The bytes that the server at a place sends.
    pub body: spec_fn(int) -> Result<Seq<u8>, ErrorModel>,
    /// Why what the server at a place sent cannot be written, if it cannot.
    pub write: spec_fn(int) -> Option<ErrorModel>,
}

impl Network {
    /// What comes of a stage.
    pub open spec fn event(self, fetch: FetchModel) -> EventModel {
        let place = fetch.order[fetch.at];
        match fetch.stage {
            TransferModel::Cache => EventModel::Cached(self.cached),
            TransferModel::Request => EventModel::Answered((self.answer)(place)),
            TransferModel::Body => EventModel::Received((self.body)(place)),
            TransferModel::Store(_) => EventModel::Stored((self.write)(place)),
            TransferModel::Done(_) => EventModel::Stored(None),
        }
    }

    /// Whether the server at a place delivers the file, and it can be written.
    pub open spec fn delivers(self, resource: ResourceModel, image: bool, place: int) -> bool {
        &&& (self.answer)(place) matches Ok(length) && (length matches Some(n) ==> n
            == resource.size)
        &&& (self.body)(place) matches Ok(bytes) && bytes_fault(resource, image, bytes) is None
        &&& (self.write)(place) is None
    }

    /// Whether the cache holds the file.
    pub open spec fn holds(self, resource: ResourceModel, image: bool) -> bool {
        self.cached matches Some(bytes) && bytes_fault(resource, image, bytes) is None
    }
}

/// The servers that are left.
pub open spec fn servers_left(fetch: FetchModel) -> nat {
    match fetch.stage {
        TransferModel::Cache => fetch.order.len() + 1,
        TransferModel::Done(_) => 0,
        _ => if fetch.at < fetch.order.len() {
            (fetch.order.len() - fetch.at) as nat
        } else {
            0
        },
    }
}

/// What is left of the attempt at a server.
pub open spec fn stages_left(fetch: FetchModel) -> nat {
    match fetch.stage {
        TransferModel::Request => 3,
        TransferModel::Body => 2,
        TransferModel::Store(_) => 1,
        _ => 0,
    }
}

/// How the fetching of a file comes out.
pub open spec fn outcome(
    network: Network,
    resource: ResourceModel,
    image: bool,
    fetch: FetchModel,
) -> Option<ErrorModel>
    decreases servers_left(fetch), stages_left(fetch),
    when fetch.valid()
    via fetch_advances
{
    match fetch.stage {
        TransferModel::Done(error) => error,
        _ => outcome(
            network,
            resource,
            image,
            fetch.next(resource, image, network.event(fetch)),
        ),
    }
}

#[via_fn]
proof fn fetch_advances(network: Network, resource: ResourceModel, image: bool, fetch: FetchModel) {
    if fetch.valid() && !(fetch.stage is Done) {
        advances(network, resource, image, fetch);
    }
}

/// A valid fetching stays valid, and each event brings it nearer to its end.
pub proof fn advances(
    network: Network,
    resource: ResourceModel,
    image: bool,
    fetch: FetchModel,
)
    requires
        fetch.valid(),
        !(fetch.stage is Done),
    ensures
        fetch.next(resource, image, network.event(fetch)).valid(),
        ({
            let next = fetch.next(resource, image, network.event(fetch));
            decreases_to!(
                servers_left(fetch), stages_left(fetch) => servers_left(next), stages_left(next)
            )
        }),
{
}

proof fn turn_comes_out(
    network: Network,
    resource: ResourceModel,
    image: bool,
    fetch: FetchModel,
    n: int,
    last: Seq<char>,
)
    requires
        0 <= n <= fetch.order.len(),
    ensures
        outcome(network, resource, image, fetch.turn(resource.path, n, last)) is None <==> exists|
            k: int,
        |
            n <= k < fetch.order.len() && network.delivers(
                resource,
                image,
                #[trigger] fetch.order[k],
            ),
    decreases fetch.order.len() - n,
{
    let asking = fetch.turn(resource.path, n, last);
    if n < fetch.order.len() {
        let place = fetch.order[n];
        let second = asking.next(resource, image, network.event(asking));
        assert(outcome(network, resource, image, asking) == outcome(
            network,
            resource,
            image,
            second,
        ));
        if second.stage is Body {
            let third = second.next(resource, image, network.event(second));
            assert(outcome(network, resource, image, second) == outcome(
                network,
                resource,
                image,
                third,
            ));
            if third.stage is Store {
                let fourth = third.next(resource, image, network.event(third));
                assert(outcome(network, resource, image, third) == outcome(
                    network,
                    resource,
                    image,
                    fourth,
                ));
                if network.delivers(resource, image, place) {
                    assert(network.delivers(resource, image, fetch.order[n]));
                } else {
                    turn_comes_out(
                        network,
                        resource,
                        image,
                        third,
                        n + 1,
                        (network.write)(place)->0.text(),
                    );
                }
            } else {
                let text = match (network.body)(place) {
                    Err(error) => error.text(),
                    Ok(bytes) => bytes_fault(resource, image, bytes)->0.text(),
                };
                turn_comes_out(network, resource, image, second, n + 1, text);
            }
        } else {
            let text = match (network.answer)(place) {
                Err(text) => text,
                Ok(_) => "主题资源大小不匹配："@ + resource.path,
            };
            turn_comes_out(network, resource, image, asking, n + 1, text);
        }
        assert(!network.delivers(resource, image, place) ==> ((exists|k: int|
            n <= k < fetch.order.len() && network.delivers(
                resource,
                image,
                #[trigger] fetch.order[k],
            )) <==> (exists|k: int|
            n + 1 <= k < fetch.order.len() && network.delivers(
                resource,
                image,
                #[trigger] fetch.order[k],
            ))));
    }
}

/// A file is fetched exactly when the cache holds it, or one of the servers that are tried
/// delivers it: one server that fails does not keep the next one from being tried.
pub proof fn files_are_fetched(
    network: Network,
    resource: ResourceModel,
    image: bool,
    order: Seq<int>,
)
    ensures
        ({
            let start = FetchModel { stage: TransferModel::Cache, order, at: 0 };
            outcome(network, resource, image, start) is None <==> network.holds(resource, image) || (
            exists|k: int|
                0 <= k < order.len() && network.delivers(resource, image, #[trigger] order[k]))
        }),
{
    let start = FetchModel { stage: TransferModel::Cache, order, at: 0 };
    let next = start.next(resource, image, network.event(start));
    assert(outcome(network, resource, image, start) == outcome(network, resource, image, next));
    if !network.holds(resource, image) {
        turn_comes_out(network, resource, image, start, 0, Seq::empty());
    }
}

/// How the search for the catalog comes out, from a place in the order on, where `answers` is
/// what the server at each place gives.
pub open spec fn searched(
    sources: Seq<(Seq<char>, Seq<char>)>,
    order: Seq<int>,
    at: int,
    answers: spec_fn(int) -> Result<nat, ErrorModel>,
) -> SyncModel
    decreases order.len() - at,
{
    match sync_step(sources, order, at, answers(order[at])) {
        SyncModel::Try(_) => searched(sources, order, at + 1, answers),
        step => step,
    }
}

/// Whether the server at a place gives the catalog.
pub open spec fn gives(answers: spec_fn(int) -> Result<nat, ErrorModel>, place: int) -> bool {
    answers(place) is Ok
}

proof fn search_settles(
    sources: Seq<(Seq<char>, Seq<char>)>,
    order: Seq<int>,
    at: int,
    answers: spec_fn(int) -> Result<nat, ErrorModel>,
)
    requires
        0 <= at < order.len(),
    ensures
        searched(sources, order, at, answers) is Chosen || searched(
            sources,
            order,
            at,
            answers,
        ) is Failed,
        searched(sources, order, at, answers) is Chosen <==> exists|k: int|
            at <= k < order.len() && gives(answers, #[trigger] order[k]),
    decreases order.len() - at,
{
    if answers(order[at]) is Err && at + 1 < order.len() {
        search_settles(sources, order, at + 1, answers);
        assert((exists|k: int| at <= k < order.len() && gives(answers, #[trigger] order[k])) <==> (
        exists|k: int| at + 1 <= k < order.len() && gives(answers, #[trigger] order[k])));
    }
}

/// The search for the catalog finds it exactly when one of the servers gives it, whichever is
/// preferred, as long as servers with the same identifier give the same.
pub proof fn catalog_is_found(
    ids: Seq<Seq<char>>,
    sources: Seq<(Seq<char>, Seq<char>)>,
    preferred: Seq<char>,
    answers: spec_fn(int) -> Result<nat, ErrorModel>,
)
    requires
        ids.len() > 0,
        forall|i: int, j: int|
            0 <= i < ids.len() && 0 <= j < ids.len() && #[trigger] ids[i] == #[trigger] ids[j]
                ==> gives(answers, i) == gives(answers, j),
    ensures
        searched(sources, feed_order(ids, preferred), 0, answers) is Chosen <==> exists|i: int|
            0 <= i < ids.len() && #[trigger] gives(answers, i),
        !(searched(sources, feed_order(ids, preferred), 0, answers) is Chosen) ==> searched(
            sources,
            feed_order(ids, preferred),
            0,
            answers,
        ) is Failed,
{
    feed_order_is_complete(ids, preferred);
    feed_order_is_within(ids, preferred);
    let order = feed_order(ids, preferred);
    search_settles(sources, order, 0, answers);
    if exists|i: int| 0 <= i < ids.len() && #[trigger] gives(answers, i) {
        let i = choose|i: int| 0 <= i < ids.len() && #[trigger] gives(answers, i);
        assert(chosen(ids, order, ids[i]));
        let k = choose|k: int| 0 <= k < order.len() && ids[#[trigger] order[k]] == ids[i];
        assert(gives(answers, order[k]));
    }
}

/// The tag of a catalog is sent to no server but the one that gave it.
pub proof fn tags_go_home(source_id: Seq<char>, state: SyncState)
    ensures
        tag_for(source_id, state) is Some ==> source_id == state.source_id@,
        tag_for(state.source_id@, state) == maybe(state.etag),
{
}

/// A server with another identifier is sent no tag; and a catalog may have five megabytes.
pub proof fn tags_stay_home(source_id: Seq<char>, state: SyncState)
    requires
        source_id != state.source_id@,
    ensures
        tag_for(source_id, state) is None,
        MAX_FEED == 5 * 1024 * 1024,
{
}

/// What is said of the bytes of a file: that they are not the file's, where the size or the digest
/// is another one, whatever else they are; that they are no image, with the reason, where the file
/// has to be one; and else nothing.
pub proof fn contents_are_checked(
    resource: ResourceModel,
    length: nat,
    digest: Seq<u8>,
    image: Option<Result<(u32, u32), Seq<char>>>,
    size: (u32, u32),
    text: Seq<char>,
)
    ensures
        length != resource.size || hex_text(digest) != resource.sha256 ==> content_fault(
            resource,
            length,
            digest,
            image,
        ) == Some(ErrorModel::Message("主题资源完整性校验失败："@ + resource.path)),
        length == resource.size && hex_text(digest) == resource.sha256 ==> {
            &&& content_fault(resource, length, digest, None) is None
            &&& content_fault(resource, length, digest, Some(Ok(size))) is None
            &&& content_fault(resource, length, digest, Some(Err(text))) == Some(
                ErrorModel::Message("主题图片无法解码："@ + resource.path + "："@ + text),
            )
        },
{
}

/// The bytes of a file are held against their own length and digest, and, where the file has to be
/// an image, against what they are as one.
pub proof fn bytes_are_checked(resource: ResourceModel, bytes: Seq<u8>)
    ensures
        bytes_fault(resource, true, bytes) == content_fault(
            resource,
            bytes.len(),
            sha256(bytes),
            Some(image_read(bytes)),
        ),
        bytes_fault(resource, false, bytes) == content_fault(
            resource,
            bytes.len(),
            sha256(bytes),
            None,
        ),
{
}

/// Whether a fetching stands at that server of its order, at that stage.
pub open spec fn stands_at(
    fetch: FetchModel,
    stage: TransferModel,
    order: Seq<int>,
    at: int,
) -> bool {
    fetch.stage == stage && fetch.order == order && fetch.at == at
}

/// Whether a fetching has turned from the server at hand to the next one; or, where there is none,
/// has ended with that text as the last reason.
pub open spec fn gave_up(
    next: FetchModel,
    order: Seq<int>,
    at: int,
    path: Seq<char>,
    text: Seq<char>,
) -> bool {
    if at + 1 < order.len() {
        stands_at(next, TransferModel::Request, order, at + 1)
    } else {
        stands_at(
            next,
            TransferModel::Done(
                Some(
                    ErrorModel::Message("所有线路均无法下载主题资源 "@ + path + "："@ + text),
                ),
            ),
            order,
            at,
        )
    }
}

/// A file that lies in the cache is not fetched. One that does not, or is broken, is asked for at
/// the first server.
pub proof fn fetches_begin(
    resource: ResourceModel,
    image: bool,
    order: Seq<int>,
    at: int,
    bytes: Seq<u8>,
)
    ensures
        ({
            let fetch = FetchModel { stage: TransferModel::Cache, order, at };
            let held = fetch.next(resource, image, EventModel::Cached(Some(bytes)));
            let missing = fetch.next(resource, image, EventModel::Cached(None));
            let asked = if order.len() > 0 {
                stands_at(missing, TransferModel::Request, order, 0)
            } else {
                stands_at(
                    missing,
                    TransferModel::Done(
                        Some(
                            ErrorModel::Message(
                                "所有线路均无法下载主题资源 "@ + resource.path + "："@,
                            ),
                        ),
                    ),
                    order,
                    at,
                )
            };
            &&& asked
            &&& bytes_fault(resource, image, bytes) is None ==> stands_at(
                held,
                TransferModel::Done(None),
                order,
                at,
            )
            &&& bytes_fault(resource, image, bytes) is Some ==> held == missing
        }),
{
    assert("所有线路均无法下载主题资源 "@ + resource.path + "："@ + Seq::<char>::empty()
        =~= "所有线路均无法下载主题资源 "@ + resource.path + "："@);
}

/// A server that tells no length, or the right one, is read; what it sends is stored if it is the
/// file; and once that is written the file is there. Whatever goes wrong at a server, the next one
/// is asked.
pub proof fn fetches_go_on(
    resource: ResourceModel,
    image: bool,
    order: Seq<int>,
    at: int,
    length: u64,
    bytes: Seq<u8>,
    error: ErrorModel,
    text: Seq<char>,
)
    ensures
        ({
            let fetch = FetchModel { stage: TransferModel::Request, order, at };
            let answered = fetch.next(resource, image, EventModel::Answered(Ok(Some(length))));
            let untold = fetch.next(resource, image, EventModel::Answered(Ok(None)));
            let failed = fetch.next(resource, image, EventModel::Answered(Err(text)));
            &&& stands_at(untold, TransferModel::Body, order, at)
            &&& length == resource.size ==> stands_at(answered, TransferModel::Body, order, at)
            &&& length != resource.size ==> gave_up(
                answered,
                order,
                at,
                resource.path,
                "主题资源大小不匹配："@ + resource.path,
            )
            &&& gave_up(failed, order, at, resource.path, text)
        }),
        ({
            let fetch = FetchModel { stage: TransferModel::Body, order, at };
            let came = fetch.next(resource, image, EventModel::Received(Ok(bytes)));
            let failed = fetch.next(resource, image, EventModel::Received(Err(error)));
            &&& bytes_fault(resource, image, bytes) is None ==> stands_at(
                came,
                TransferModel::Store(bytes),
                order,
                at,
            )
            &&& bytes_fault(resource, image, bytes) is Some ==> gave_up(
                came,
                order,
                at,
                resource.path,
                bytes_fault(resource, image, bytes)->0.text(),
            )
            &&& gave_up(failed, order, at, resource.path, error.text())
        }),
        ({
            let fetch = FetchModel { stage: TransferModel::Store(bytes), order, at };
            let written = fetch.next(resource, image, EventModel::Stored(None));
            let failed = fetch.next(resource, image, EventModel::Stored(Some(error)));
            &&& stands_at(written, TransferModel::Done(None), order, at)
            &&& gave_up(failed, order, at, resource.path, error.text())
        }),
{
}

/// What a fetching did not ask for changes nothing, and one that has ended stays so.
pub proof fn fetches_wait(fetch: FetchModel, resource: ResourceModel, image: bool, event: EventModel)
    requires
        !(fetch.stage is Cache && event is Cached),
        !(fetch.stage is Request && event is Answered),
        !(fetch.stage is Body && event is Received),
        !(fetch.stage is Store && event is Stored),
    ensures
        fetch.next(resource, image, event) == fetch,
{
}

/// The catalog is the one of the first server in the order that gives it, under that server's
/// identifier and name; where none gives it, the reason of the last one is told.
pub proof fn the_first_server_is_chosen(
    sources: Seq<(Seq<char>, Seq<char>)>,
    order: Seq<int>,
    at: int,
    answers: spec_fn(int) -> Result<nat, ErrorModel>,
    k: int,
)
    requires
        0 <= at <= k < order.len(),
        forall|j: int| at <= j < k ==> answers(#[trigger] order[j]) is Err,
    ensures
        answers(order[k]) is Ok ==> searched(sources, order, at, answers) == SyncModel::Chosen(
            answers(order[k])->Ok_0,
            sources[order[k]].0,
            sources[order[k]].1,
        ),
        answers(order[k]) is Err && k == order.len() - 1 ==> searched(sources, order, at, answers)
            == SyncModel::Failed(
            ErrorModel::Message(
                "所有主题同步线路均失败："@ + answers(order[k])->Err_0.text(),
            ),
        ),
    decreases k - at,
{
    if at < k {
        assert(answers(order[at]) is Err);
        the_first_server_is_chosen(sources, order, at + 1, answers, k);
    }
}

/// After a server that failed the next one of the order is tried.
pub proof fn the_next_server_is_tried(
    sources: Seq<(Seq<char>, Seq<char>)>,
    order: Seq<int>,
    at: int,
    error: ErrorModel,
)
    requires
        0 <= at < order.len() - 1,
    ensures
        sync_step(sources, order, at, Err(error)) == SyncModel::Try(order[at + 1]),
{
}

/// The settings name the server and hold nothing else.
pub proof fn settings_name_the_server(source_id: Seq<char>)
    ensures
        settings_model(source_id) is Object,
        settings_model(source_id)->Object_0.len() == 1,
        settings_model(source_id)->Object_0[0].0 == "sourceId"@,
        settings_model(source_id)->Object_0[0].1 == JsonModel::Text(source_id),
{
}

/// What is known of a search and of a fetching is what they hold.
pub proof fn transfers_are_what_they_hold(
    sources: Seq<Source>,
    i: int,
    sync: CatalogSync,
    transfer: Transfer,
    limit: u64,
    place: usize,
    found: SyncResult,
    error: AppError,
    count: usize,
    bytes: Vec<u8>,
    length: Option<u64>,
    text: String,
    size: (u32, u32),
)
    ensures
        titles(sources).len() == sources.len(),
        0 <= i < sources.len() ==> titles(sources)[i] == (sources[i].id@, sources[i].name@),
        sync.at < sync.order@.len() ==> sync.place() == sync.order@[sync.at as int],
        transfer@.stage == transfer.stage@,
        transfer@.order.len() == transfer.order@.len(),
        0 <= i < transfer.order@.len() ==> transfer@.order[i] == transfer.order@[i],
        transfer@.at == transfer.at,
        attempted(Ok(count)) == Ok::<nat, ErrorModel>(count as nat),
        attempted(Err(error)) == Err::<nat, ErrorModel>(error@),
        FeedAction::UseCache@ == FeedModel::UseCache,
        FeedAction::Receive(limit)@ == FeedModel::Receive(limit),
        FeedAction::Fail(error)@ == FeedModel::Fail(error@),
        SyncStep::Try(place)@ == SyncModel::Try(place as int),
        SyncStep::Chosen(found)@ == SyncModel::Chosen(
            found.theme_count as nat,
            found.source_id@,
            found.source_name@,
        ),
        SyncStep::Failed(error)@ == SyncModel::Failed(error@),
        TransferStage::Cache@ == TransferModel::Cache,
        TransferStage::Request@ == TransferModel::Request,
        TransferStage::Body@ == TransferModel::Body,
        TransferStage::Store(bytes)@ == TransferModel::Store(bytes@),
        TransferStage::Done(Ok(()))@ == TransferModel::Done(None),
        TransferStage::Done(Err(error))@ == TransferModel::Done(Some(error@)),
        TransferEvent::Cached(Some(bytes))@ == EventModel::Cached(Some(bytes@)),
        TransferEvent::Cached(None)@ == EventModel::Cached(None),
        TransferEvent::Answered(Ok(length))@ == EventModel::Answered(Ok(length)),
        TransferEvent::Answered(Err(text))@ == EventModel::Answered(Err(text@)),
        TransferEvent::Received(Ok(bytes))@ == EventModel::Received(Ok(bytes@)),
        TransferEvent::Received(Err(error))@ == EventModel::Received(Err(error@)),
        TransferEvent::Stored(Ok(()))@ == EventModel::Stored(None),
        TransferEvent::Stored(Err(error))@ == EventModel::Stored(Some(error@)),
        maybe_decoded(None) is None,
        maybe_decoded(Some(Ok(size))) == Some(Ok::<(u32, u32), Seq<char>>(size)),
        maybe_decoded(Some(Err(text))) == Some(Err::<(u32, u32), Seq<char>>(text@)),
{
    assert(sync.place() == places(sync.order@)[sync.at as int]);
}

} // verus!
