//! What is asked of the service: pages, assets, runs, streams and log entries, and what its replies
//! amount to.
use crate::config::Preset;
use crate::nominal::{
    build_stream, check_stream, is_bearer_token, is_locator, is_lower, is_part, is_rid, is_url,
    judge_env, rid_text, url_or_default, EnvConfig, NominalApi, StreamOptions,
};
use crate::provision::{
    absorbed, begun, concluded, known_rids, missing_places, optional_text, replied, reply_of,
    AssetSearch, CREATE_CONCURRENCY, ProvisionOutcome, ProvisionProgress, ProvisionState,
    Provisioning, Reply,
};
use crate::provision_laws::{each_missing_asset_is_created_once, only_what_is_missing_is_created};
use crate::requests::{
    log_refusal, names_of, AssetRequest, EndRequest, LogRequest, LogWriter, RunRequest,
    SearchRequest,
};
use crate::samples::tag_texts;
use crate::satgen::{category_name, SatelliteConfig};
use crate::schedule::Timestamp;
use crate::text::{decimal, texts};
use crate::tui::RunInfo;
use vstd::prelude::*;
use vstd::string::*;

verus! {

/// The assets of a batch are searched by the property `batch`, five hundred at a time and oldest
/// first, from the page that the last reply named.
pub proof fn searches_go_by_the_batch(
    api: NominalApi,
    batch: &str,
    token: Option<String>,
    request: SearchRequest,
)
    requires
        call_ensures(NominalApi::search_batch_assets, (&api, batch, token), request),
    ensures
        request.property@ == "batch"@,
        request.value@ == batch@,
        !request.descending,
        request.page_size == 500,
        request.page_token == token,
{
}

/// The asset of a satellite bears its name, its number and category as properties beside the batch,
/// both labels, and shows the points of the dataset that are tagged with its name.
pub proof fn satellite_assets_show_their_points(
    api: NominalApi,
    batch: &str,
    batch_label: &str,
    common_label: &str,
    sat: SatelliteConfig,
    request: AssetRequest,
)
    requires
        call_ensures(
            NominalApi::create_asset,
            (&api, batch, batch_label, common_label, &sat),
            request,
        ),
    ensures
        ({
            let properties = tag_texts(request.properties@);
            let labels = texts(request.labels@);
            let tags = tag_texts(request.series_tags@);
            &&& request.title@ == sat.name@
            &&& properties.len() == 3
            &&& properties[0] == ("batch"@, batch@)
            &&& properties[1] == ("norad_id"@, decimal(sat.norad_id as nat))
            &&& properties[2] == ("category"@, category_name(sat.category))
            &&& labels.len() == 2
            &&& labels[0] == common_label@
            &&& labels[1] == batch_label@
            &&& request.scope_name@ == "telemetry"@
            &&& request.dataset@ == api.dataset_rid@
            &&& tags.len() == 1
            &&& tags[0] == ("satellite"@, sat.name@)
        }),
{
    assert(request@.properties == tag_texts(request.properties@));
}

/// The logs asset of a batch is marked by its role, bears both labels, and shows the whole dataset.
pub proof fn logs_assets_show_everything(
    api: NominalApi,
    batch: &str,
    batch_label: &str,
    common_label: &str,
    title: &str,
    request: AssetRequest,
)
    requires
        call_ensures(
            NominalApi::create_logs_asset,
            (&api, batch, batch_label, common_label, title),
            request,
        ),
    ensures
        ({
            let properties = tag_texts(request.properties@);
            let labels = texts(request.labels@);
            &&& request.title@ == title@
            &&& properties.len() == 2
            &&& properties[0] == ("batch"@, batch@)
            &&& properties[1] == ("role"@, "logs"@)
            &&& labels.len() == 2
            &&& labels[0] == common_label@
            &&& labels[1] == batch_label@
            &&& request.scope_name@ == "logs"@
            &&& request.dataset@ == api.dataset_rid@
            &&& tag_texts(request.series_tags@).len() == 0
        }),
{
    assert(request@.properties == tag_texts(request.properties@));
}

/// A run is asked for over the assets given, from the time given, with the batch, its size, its
/// rate and its debug mark as properties. A debug run shows in its title, too. A time of 2^53
/// seconds or more from 1970 cannot be sent.
pub proof fn runs_describe_their_session(
    api: NominalApi,
    preset: Preset,
    common_label: &str,
    assets: Vec<String>,
    start: i64,
    debug: bool,
    local_time: &str,
    request: Option<RunRequest>,
)
    requires
        call_ensures(
            NominalApi::create_run,
            (&api, &preset, common_label, assets, start, debug, local_time),
            request,
        ),
    ensures
        request is Some <==> -0x20_0000_0000_0000 < start < 0x20_0000_0000_0000,
        request matches Some(run) ==> {
            let properties = tag_texts(run.properties@);
            let labels = texts(run.labels@);
            let count = decimal(preset.count as nat);
            let rate = preset.rate_hz.text@;
            &&& debug ==> run.title@ == preset.name@ + " [debug]"@ + " @ "@ + local_time@
            &&& !debug ==> run.title@ == preset.name@ + " @ "@ + local_time@
            &&& run.description@ == "sat-fleet streaming session: "@ + count + " satellites @ "@
                + rate + " Hz"@
            &&& run.start_unix == start
            &&& properties.len() == 4
            &&& properties[0] == ("batch"@, preset.name@)
            &&& properties[1] == ("satellites"@, count)
            &&& properties[2] == ("rate_hz"@, rate)
            &&& debug ==> properties[3] == ("debug"@, "true"@)
            &&& !debug ==> properties[3] == ("debug"@, "false"@)
            &&& labels.len() == 2
            &&& labels[0] == common_label@
            &&& labels[1] == preset.label@
            &&& texts(run.assets@) == texts(assets@)
        },
{
    if request is Some {
        let run = request->0;
        assert(run@.properties == tag_texts(run.properties@));
        assert(preset.name@ + Seq::<char>::empty() =~= preset.name@);
    }
}

/// A created run keeps the title and the time that it was asked for with.
pub proof fn created_runs_keep_their_title(request: RunRequest, rid: String, run: RunInfo)
    requires
        call_ensures(RunRequest::opened, (&request, rid), run),
    ensures
        run.rid@ == rid@,
        run.title@ == request.title@,
        run.start_unix == request.start_unix,
{
}

/// A run is ended by its identifier at the time given, where that can be sent.
pub proof fn runs_end_at_their_time(
    api: NominalApi,
    rid: &str,
    end: i64,
    request: Option<EndRequest>,
)
    requires
        call_ensures(NominalApi::end_run, (&api, rid, end), request),
    ensures
        request is Some <==> -0x20_0000_0000_0000 < end < 0x20_0000_0000_0000,
        request matches Some(r) ==> r.rid@ == rid@ && r.end_unix == end,
{
}

/// Log entries go to the log address of the dataset, under the token, on the channel `log.system`.
pub proof fn log_entries_go_to_the_dataset(
    env: EnvConfig,
    writer: LogWriter,
    message: String,
    args: Vec<(String, String)>,
    timestamp: Timestamp,
    request: LogRequest,
)
    requires
        call_ensures(LogWriter::new, (&env,), writer),
        call_ensures(LogWriter::write, (&writer, message, args, timestamp), request),
    ensures
        writer.url@ == env.base_url@ + "/storage/writer/v1/logs/"@ + env.dataset@,
        writer.authorization@ == "Bearer "@ + env.token@,
        request.channel@ == "log.system"@,
        request.timestamp == timestamp,
        request.message@ == message@,
        request.args == args,
{
}

/// A refused log entry is reported with the status and the answer.
pub proof fn refused_log_entries_are_reported(status: &str, answer: &str, error: String)
    requires
        call_ensures(log_refusal, (status, answer), error),
    ensures
        error@ == "log write failed ("@ + status@ + "): "@ + answer@,
{
}

/// Settings are taken from the environment as they are. The first of token, dataset and address
/// that is missing is the error.
pub proof fn settings_come_from_the_environment(
    token: Option<String>,
    dataset: Option<String>,
    url: Option<String>,
    env: Result<EnvConfig, String>,
)
    requires
        call_ensures(EnvConfig::from_env, (token, dataset, url), env),
    ensures
        env is Ok <==> token is Some && dataset is Some && url is Some,
        env matches Ok(e) ==> token == Some(e.token) && dataset == Some(e.dataset) && url == Some(
            e.base_url,
        ),
        env matches Err(text) ==> text@ == "missing env var "@ + (if token is None {
            "NOMINAL_TOKEN"@
        } else if dataset is None {
            "NOMINAL_DATASET"@
        } else {
            "NOMINAL_URL"@
        }) + " (set it in .env)"@,
{
}

/// Settings can be used exactly if token, dataset and address are valid. The first of them that is
/// not is the error, and a dataset is named in it.
pub proof fn settings_are_judged_in_order(
    token: bool,
    rid: bool,
    url: bool,
    dataset: &str,
    checked: Result<(), String>,
)
    requires
        call_ensures(judge_env, (token, rid, url, dataset), checked),
    ensures
        checked is Ok <==> token && rid && url,
        !token ==> checked is Err && checked->Err_0@ == "invalid NOMINAL_TOKEN"@,
        token && !rid ==> checked is Err && checked->Err_0@
            == "NOMINAL_DATASET is not a valid rid: "@ + dataset@,
        token && rid && !url ==> checked is Err && checked->Err_0@ == "invalid NOMINAL_URL"@,
{
}

/// The service is used exactly if token, dataset and address of the settings are valid, and then
/// with these.
pub proof fn valid_settings_are_used(env: EnvConfig, api: Result<NominalApi, String>)
    requires
        call_ensures(NominalApi::new, (&env,), api),
    ensures
        api is Ok <==> is_bearer_token(env.token@) && is_rid(env.dataset@) && is_url(env.base_url@),
        api matches Ok(a) ==> a.token@ == env.token@ && a.dataset_rid@ == env.dataset@
            && a.base_url@ == env.base_url@,
{
}

/// A plain stream is opened exactly if token and dataset are valid; the token is looked at first.
pub proof fn plain_streams_are_checked(token: &str, dataset: &str, checked: Result<(), String>)
    requires
        call_ensures(check_stream, (token, dataset), checked),
    ensures
        checked is Ok <==> is_bearer_token(token@) && is_rid(dataset@),
        !is_bearer_token(token@) ==> checked is Err && checked->Err_0@ == "invalid token"@,
        is_bearer_token(token@) && !is_rid(dataset@) ==> checked is Err && checked->Err_0@
            == "invalid dataset RID"@,
{
}

/// The stream of a fleet is opened exactly if token and dataset are valid. It gathers points for a
/// quarter of a second, and sixteen requests may wait.
pub proof fn fleet_streams_are_set_up(env: EnvConfig, options: Result<StreamOptions, String>)
    requires
        call_ensures(build_stream, (&env,), options),
    ensures
        options is Ok <==> is_bearer_token(env.token@) && is_rid(env.dataset@),
        options matches Ok(o) ==> {
            &&& o.base_api_url == Some(env.base_url)
            &&& o.max_request_delay_ms == Some(250u64)
            &&& o.max_buffered_requests == Some(16usize)
            &&& o.request_dispatcher_tasks is None
            &&& o.file_fallback is None
        },
        !is_bearer_token(env.token@) ==> options is Err && options->Err_0@
            == "invalid NOMINAL_TOKEN"@,
        is_bearer_token(env.token@) && !is_rid(env.dataset@) ==> options is Err && options->Err_0@
            == "NOMINAL_DATASET is not a valid rid"@,
{
}

/// A stream that keeps its order sends one request at a time; a plain one keeps the client's
/// defaults but for its address and its file. Without an address the service's own is used.
pub proof fn other_streams_are_set_up(
    url: Option<String>,
    file: Option<String>,
    plain: StreamOptions,
    ordered: StreamOptions,
    base: String,
)
    requires
        call_ensures(StreamOptions::plain, (url, file), plain),
        call_ensures(StreamOptions::in_order, (url,), ordered),
        call_ensures(url_or_default, (url,), base),
    ensures
        plain.base_api_url == url,
        plain.file_fallback == file,
        plain.max_request_delay_ms is None,
        plain.max_buffered_requests is None,
        plain.request_dispatcher_tasks is None,
        ordered.base_api_url == url,
        ordered.file_fallback is None,
        ordered.max_request_delay_ms is None,
        ordered.max_buffered_requests == Some(1usize),
        ordered.request_dispatcher_tasks == Some(1usize),
        url matches Some(given) ==> base@ == given@,
        url is None ==> base@ == "https://api.gov.nominal.io/api"@,
{
}

/// A page adds its assets under their titles, the last where a title comes twice, and leaves the
/// rest of what is known alone.
pub proof fn pages_add_their_assets(
    known: Map<Seq<char>, Seq<char>>,
    page: Seq<(Seq<char>, Seq<char>)>,
    title: Seq<char>,
    rid: Seq<char>,
)
    ensures
        absorbed(known, Seq::empty()) == known,
        absorbed(known, page.push((title, rid))) == absorbed(known, page).insert(title, rid),
{
    assert(page.push((title, rid)).drop_last() =~= page);
}

/// Provisioning begins with what the search has found: so many assets exist, all others are to be
/// created, and nothing has failed.
pub proof fn provisioning_begins_with_what_was_found(
    names: Seq<Seq<char>>,
    prefix: Seq<char>,
    found: Map<Seq<char>, Seq<char>>,
)
    ensures
        ({
            let s = begun(names, prefix, found);
            &&& s.names == names
            &&& s.known == found
            &&& s.logs_title == prefix + " logs"@
            &&& s.existing == known_rids(names, found).len()
            &&& s.unanswered == missing_places(names, found, names.len()).len()
            &&& s.existing + s.unanswered == names.len()
            &&& s.created == 0
            &&& s.failed == 0
            &&& s.first_error is None
        }),
{
    lemma_known_and_missing(names, found);
}

proof fn lemma_known_and_missing(names: Seq<Seq<char>>, known: Map<Seq<char>, Seq<char>>)
    ensures
        known_rids(names, known).len() + missing_places(names, known, names.len()).len()
            == names.len(),
    decreases names.len(),
{
    if names.len() > 0 {
        let fewer = names.drop_last();
        lemma_known_and_missing(fewer, known);
        lemma_missing_of_prefix(fewer, names.last(), known, fewer.len());
        assert(fewer.push(names.last()) =~= names);
    }
}

proof fn lemma_missing_of_prefix(
    names: Seq<Seq<char>>,
    name: Seq<char>,
    known: Map<Seq<char>, Seq<char>>,
    n: nat,
)
    requires
        n <= names.len(),
    ensures
        missing_places(names.push(name), known, n) == missing_places(names, known, n),
    decreases n,
{
    if n > 0 {
        lemma_missing_of_prefix(names, name, known, (n - 1) as nat);
        assert(names.push(name)[n - 1] == names[n - 1]);
    }
}

/// A created asset is known under the satellite's name and counted; a refused one is counted, and
/// is the first error with the satellite's name in front unless there was one before.
pub proof fn replies_are_counted(s: ProvisionState, place: int, rid: Seq<char>, error: Seq<char>)
    requires
        s.unanswered > 0,
    ensures
        ({
            let created = replied(s, place, Reply::Created(rid));
            let refused = replied(s, place, Reply::Refused(error));
            &&& created == (ProvisionState {
                known: s.known.insert(s.names[place], rid),
                created: s.created + 1,
                unanswered: (s.unanswered - 1) as nat,
                ..s
            })
            &&& refused.known == s.known
            &&& refused.failed == s.failed + 1
            &&& refused.created == s.created
            &&& refused.existing == s.existing
            &&& refused.unanswered == s.unanswered - 1
            &&& s.first_error is None ==> refused.first_error == Some(
                s.names[place] + ": "@ + error,
            )
            &&& s.first_error is Some ==> refused.first_error == s.first_error
        }),
{
}

/// The outcome lists the assets that are known, in the order of the satellites, and the logs asset
/// last: the one that was found, or the one that was created for it. A refused logs asset is a
/// failure under its title.
pub proof fn outcomes_list_the_assets(s: ProvisionState, rid: Seq<char>, error: Seq<char>)
    ensures
        ({
            let known = concluded(s, None);
            let created = concluded(s, Some(Reply::Created(rid)));
            let refused = concluded(s, Some(Reply::Refused(error)));
            let rids = known_rids(s.names, s.known);
            &&& known.existing == s.existing && created.existing == s.existing && refused.existing
                == s.existing
            &&& s.known.dom().contains(s.logs_title) ==> {
                &&& known.asset_rids == rids.push(s.known[s.logs_title])
                &&& known.created == s.created
                &&& known.failed == s.failed
                &&& known.first_error == s.first_error
            }
            &&& !s.known.dom().contains(s.logs_title) ==> {
                &&& created.asset_rids == rids.push(rid)
                &&& created.created == s.created + 1
                &&& created.failed == s.failed
                &&& created.first_error == s.first_error
                &&& refused.asset_rids == rids
                &&& refused.created == s.created
                &&& refused.failed == s.failed + 1
                &&& s.first_error is None ==> refused.first_error == Some(
                    s.logs_title + ": "@ + error,
                )
                &&& s.first_error is Some ==> refused.first_error == s.first_error
            }
        }),
{
}

/// The list of known assets follows the satellites one by one.
pub proof fn known_assets_follow_the_satellites(
    names: Seq<Seq<char>>,
    name: Seq<char>,
    known: Map<Seq<char>, Seq<char>>,
)
    ensures
        known_rids(Seq::empty(), known).len() == 0,
        known.dom().contains(name) ==> known_rids(names.push(name), known) == known_rids(
            names,
            known,
        ).push(known[name]),
        !known.dom().contains(name) ==> known_rids(names.push(name), known) == known_rids(
            names,
            known,
        ),
{
    assert(names.push(name).drop_last() =~= names);
}

/// Twenty-four assets are created at a time.
pub proof fn assets_are_created_in_parallel()
    ensures
        CREATE_CONCURRENCY == 24,
{
}

/// A search begins with the first page, which has no token, and takes in each page until one names
/// no further.
pub proof fn searches_go_page_by_page(
    begin: AssetSearch,
    search: &mut AssetSearch,
    page: Vec<(String, String)>,
    next: Option<String>,
    done: bool,
    token: Option<String>,
)
    requires
        call_ensures(AssetSearch::new, (), begin),
        call_ensures(AssetSearch::absorb, (search, &page, next), ()),
        call_ensures(AssetSearch::done, (final(search),), done),
        call_ensures(AssetSearch::page_token, (final(search),), token),
    ensures
        begin.found().dom().is_empty() && !begin.is_done() && begin.next_token() is None,
        final(search).found() == absorbed(old(search).found(), tag_texts(page@)),
        done <==> next is None,
        token == next,
{
}

/// Progress and outcome tell what the replies came to, and the logs asset is asked for under its
/// title exactly if it is not known.
pub proof fn progress_follows_the_replies(
    provisioning: &mut Provisioning,
    place: usize,
    reply: Result<String, String>,
    progress: ProvisionProgress,
    title: Option<String>,
)
    requires
        call_ensures(Provisioning::on_reply, (provisioning, place, reply), ()),
        call_ensures(Provisioning::progress, (final(provisioning),), progress),
        call_ensures(Provisioning::missing_logs, (final(provisioning),), title),
    ensures
        final(provisioning)@ == replied(old(provisioning)@, place as int, reply_of(reply)),
        progress.total == old(provisioning)@.names.len(),
        progress.existing == old(provisioning)@.existing,
        reply is Ok ==> progress.created == old(provisioning)@.created + 1 && progress.failed
            == old(provisioning)@.failed,
        reply is Err ==> progress.created == old(provisioning)@.created && progress.failed
            == old(provisioning)@.failed + 1,
        title is Some <==> !final(provisioning)@.known.dom().contains(
            old(provisioning)@.logs_title,
        ),
        title matches Some(t) ==> t@ == old(provisioning)@.logs_title,
{
    assert(optional_text(title) is Some == title is Some);
}

/// The outcome is what the replies for the satellites and for the logs asset came to.
pub proof fn outcomes_follow_the_replies(
    provisioning: Provisioning,
    logs: Option<Result<String, String>>,
    outcome: ProvisionOutcome,
)
    requires
        call_ensures(Provisioning::finish, (provisioning, logs), outcome),
    ensures
        logs is None ==> outcome@ == concluded(provisioning@, None),
        logs matches Some(Ok(rid)) ==> outcome@ == concluded(
            provisioning@,
            Some(Reply::Created(rid@)),
        ),
        logs matches Some(Err(error)) ==> outcome@ == concluded(
            provisioning@,
            Some(Reply::Refused(error@)),
        ),
{
}

/// Provisioning begins with the satellites' names in order, and asks for the assets of those that
/// the search has not found.
pub proof fn missing_satellites_are_asked_for(
    api: NominalApi,
    preset: Preset,
    sats: Vec<SatelliteConfig>,
    search: AssetSearch,
    begun_with: (Provisioning, Vec<usize>),
    place: usize,
)
    requires
        call_ensures(NominalApi::provision_assets, (&api, &preset, &sats, search), begun_with),
        sats@.len() < usize::MAX,
    ensures
        begun_with.0@ == begun(names_of(sats@), preset.sat_prefix@, search.found()),
        begun_with.0@.names.len() == sats@.len(),
        place < sats@.len() ==> begun_with.0@.names[place as int] == sats@[place as int].name@,
        begun_with.1@.contains(place) <==> place < sats@.len() && !search.found().dom().contains(
            sats@[place as int].name@,
        ),
        begun_with.1@.no_duplicates(),
{
    let names = names_of(sats@);
    only_what_is_missing_is_created(names, search.found(), names.len(), place);
    each_missing_asset_is_created_once(names, search.found(), names.len());
    if place < sats@.len() {
        assert(names[place as int] == sats@[place as int].name@);
    }
}

/// A bearer token is not empty, and no sign of it stands behind an equals sign but another one.
/// Letters and digits make one.
pub proof fn tokens_are_words(token: Seq<char>, i: int, j: int)
    ensures
        !is_bearer_token(Seq::empty()),
        is_bearer_token(token) ==> token[0] != '=',
        is_bearer_token(token) && 0 <= i < token.len() ==> token[i] != ' ' && token[i] != ':'
            && token[i] != '@' && token[i] != '"',
        is_bearer_token(token) && 0 <= i < j < token.len() && token[i] == '=' ==> token[j] == '=',
        token.len() > 0 && (forall|k: int|
            0 <= k < token.len() ==> 'a' <= #[trigger] token[k] <= 'z' || 'A' <= token[k] <= 'Z'
                || '0' <= token[k] <= '9') ==> is_bearer_token(token),
{
    assert(token.take(token.len() as int) =~= token);
}

/// A resource identifier begins with `ri.`, and lowercase words in its first parts and letters in
/// its last make one. The instance may be empty.
pub proof fn identifiers_have_four_parts(
    text: Seq<char>,
    service: Seq<char>,
    instance: Seq<char>,
    kind: Seq<char>,
    locator: Seq<char>,
)
    ensures
        is_rid(text) ==> text.len() >= 8 && text[0] == 'r' && text[1] == 'i' && text[2] == '.',
        service.len() > 0 && kind.len() > 0 && locator.len() > 0 && (forall|i: int|
            0 <= i < service.len() ==> 'a' <= #[trigger] service[i] <= 'z') && (forall|i: int|
            0 <= i < instance.len() ==> 'a' <= #[trigger] instance[i] <= 'z') && (forall|i: int|
            0 <= i < kind.len() ==> 'a' <= #[trigger] kind[i] <= 'z') && (forall|i: int|
            0 <= i < locator.len() ==> 'a' <= #[trigger] locator[i] <= 'z') ==> is_rid(
            "ri."@ + service + "."@ + instance + "."@ + kind + "."@ + locator,
        ),
{
    reveal_strlit("ri.");
    reveal_strlit(".");
    if is_rid(text) {
        let (a, b, c, d) = choose|a: Seq<char>, b: Seq<char>, c: Seq<char>, d: Seq<char>|
            text == #[trigger] rid_text(a, b, c, d) && is_part(a)
                && is_part(b) && is_part(c)
                && is_locator(d) && a.len() > 0 && is_lower(a[0])
                && c.len() > 0 && is_lower(c[0]) && (b.len() > 0 ==> b[0] != '-');
        assert(text == rid_text(a, b, c, d));
        assert(text[0] == "ri."@[0] && text[1] == "ri."@[1] && text[2] == "ri."@[2]);
    }
    if service.len() > 0 && kind.len() > 0 && locator.len() > 0 && (forall|i: int|
        0 <= i < service.len() ==> 'a' <= #[trigger] service[i] <= 'z') && (forall|i: int|
        0 <= i < instance.len() ==> 'a' <= #[trigger] instance[i] <= 'z') && (forall|i: int|
        0 <= i < kind.len() ==> 'a' <= #[trigger] kind[i] <= 'z') && (forall|i: int|
        0 <= i < locator.len() ==> 'a' <= #[trigger] locator[i] <= 'z') {
        let made = rid_text(service, instance, kind, locator);
        assert(is_part(service));
        assert(is_part(instance));
        assert(is_part(kind));
        assert(is_locator(locator));
        assert(is_rid(made));
    }
}

} // verus!
