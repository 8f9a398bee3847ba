//! The requests that are made of the Nominal service, as plain values.
use crate::config::Preset;
use crate::nominal::{EnvConfig, NominalApi};
use crate::pipeline::push_pair;
use crate::provision::{begun, missing_places, AssetSearch, Provisioning};
use crate::samples::tag_texts;
use crate::satgen::{category_name, SatelliteConfig};
use crate::schedule::Timestamp;
use crate::text::{decimal, decimal_text, texts};
use crate::tui::RunInfo;
use vstd::prelude::*;
use vstd::string::*;

verus! {

/// How many assets a page of search results holds.
pub const SEARCH_PAGE_SIZE: i32 = 500;

/// Asks for the assets of a batch: those with the property `batch`, oldest first.
#[derive(Debug)]
pub struct SearchRequest {
    pub property: String,
    pub value: String,
    pub descending: bool,
    pub page_size: i32,
    pub page_token: Option<String>,
}

/// Asks for a new asset whose data scope is a dataset, filtered by tags.
#[derive(Debug)]
pub struct AssetRequest {
    pub title: String,
    pub properties: Vec<(String, String)>,
    pub labels: Vec<String>,
    pub scope_name: String,
    pub dataset: String,
    pub series_tags: Vec<(String, String)>,
}

/// A request for an asset, with texts as characters.
pub struct AssetTree {
    pub title: Seq<char>,
    pub properties: Seq<(Seq<char>, Seq<char>)>,
    pub labels: Seq<Seq<char>>,
    pub scope_name: Seq<char>,
    pub dataset: Seq<char>,
    pub series_tags: Seq<(Seq<char>, Seq<char>)>,
}

impl View for AssetRequest {
    type V = AssetTree;

    open spec fn view(&self) -> AssetTree {
        AssetTree {
            title: self.title@,
            properties: tag_texts(self.properties@),
            labels: texts(self.labels@),
            scope_name: self.scope_name@,
            dataset: self.dataset@,
            series_tags: tag_texts(self.series_tags@),
        }
    }
}

/// The asset of a satellite: its data scope holds the points tagged with its name.
pub open spec fn satellite_asset(
    dataset: Seq<char>,
    batch: Seq<char>,
    batch_label: Seq<char>,
    common_label: Seq<char>,
    sat: SatelliteConfig,
) -> AssetTree {
    AssetTree {
        title: sat.name@,
        properties: seq![
            ("batch"@, batch),
            ("norad_id"@, decimal(sat.norad_id as nat)),
            ("category"@, category_name(sat.category)),
        ],
        labels: seq![common_label, batch_label],
        scope_name: "telemetry"@,
        dataset,
        series_tags: seq![("satellite"@, sat.name@)],
    }
}

/// The logs asset of a batch: its data scope is the whole dataset, because log entries carry no
/// tags.
pub open spec fn logs_asset(
    dataset: Seq<char>,
    batch: Seq<char>,
    batch_label: Seq<char>,
    common_label: Seq<char>,
    title: Seq<char>,
) -> AssetTree {
    AssetTree {
        title,
        properties: seq![("batch"@, batch), ("role"@, "logs"@)],
        labels: seq![common_label, batch_label],
        scope_name: "logs"@,
        dataset,
        series_tags: Seq::empty(),
    }
}

fn labels(common_label: &str, batch_label: &str) -> (list: Vec<String>)
    ensures
        texts(list@) == seq![common_label@, batch_label@],
{
    let mut list: Vec<String> = Vec::new();
    list.push(common_label.to_owned());
    list.push(batch_label.to_owned());
    assert(texts(list@) =~= seq![common_label@, batch_label@]);
    list
}

/// The list without pairs.
fn no_pairs() -> (pairs: Vec<(String, String)>)
    ensures
        tag_texts(pairs@) == Seq::<(Seq<char>, Seq<char>)>::empty(),
{
    let pairs: Vec<(String, String)> = Vec::new();
    assert(tag_texts(pairs@) =~= Seq::<(Seq<char>, Seq<char>)>::empty());
    pairs
}

/// Asks for a new run over assets.
#[derive(Debug)]
pub struct RunRequest {
    pub title: String,
    pub description: String,
    pub start_unix: i64,
    pub properties: Vec<(String, String)>,
    pub labels: Vec<String>,
    pub assets: Vec<String>,
}

/// A request for a run, with texts as characters.
pub struct RunTree {
    pub title: Seq<char>,
    pub description: Seq<char>,
    pub start_unix: i64,
    pub properties: Seq<(Seq<char>, Seq<char>)>,
    pub labels: Seq<Seq<char>>,
    pub assets: Seq<Seq<char>>,
}

impl View for RunRequest {
    type V = RunTree;

    open spec fn view(&self) -> RunTree {
        RunTree {
            title: self.title@,
            description: self.description@,
            start_unix: self.start_unix,
            properties: tag_texts(self.properties@),
            labels: texts(self.labels@),
            assets: texts(self.assets@),
        }
    }
}

impl RunRequest {
    /// The run that the service has created under an identifier.
    pub fn opened(&self, rid: String) -> (run: RunInfo)
        ensures
            run.rid@ == rid@,
            run.title@ == self.title@,
            run.start_unix == self.start_unix,
    {
        RunInfo { rid, title: self.title.clone(), start_unix: self.start_unix }
    }
}

/// The title of a run: the batch, a mark for debug runs, and the local time at which it began.
pub open spec fn run_title(name: Seq<char>, debug: bool, local_time: Seq<char>) -> Seq<char> {
    name + (if debug {
        " [debug]"@
    } else {
        Seq::empty()
    }) + " @ "@ + local_time
}

/// Whether a time can be sent: a double can represent it and its neighbours.
pub open spec fn is_safe_time(unix: i64) -> bool {
    -0x20_0000_0000_0000 < unix < 0x20_0000_0000_0000
}

/// The run of a streaming session.
pub open spec fn session_run(
    preset: Preset,
    common_label: Seq<char>,
    assets: Seq<Seq<char>>,
    start_unix: i64,
    debug: bool,
    local_time: Seq<char>,
) -> RunTree {
    RunTree {
        title: run_title(preset.name@, debug, local_time),
        description: "sat-fleet streaming session: "@ + decimal(preset.count as nat)
            + " satellites @ "@ + preset.rate_hz.text@ + " Hz"@,
        start_unix,
        properties: seq![
            ("batch"@, preset.name@),
            ("satellites"@, decimal(preset.count as nat)),
            ("rate_hz"@, preset.rate_hz.text@),
            ("debug"@, if debug {
                "true"@
            } else {
                "false"@
            }),
        ],
        labels: seq![common_label, preset.label@],
        assets,
    }
}

/// `conjure_object::SafeLong::new` accepts a number exactly if it lies strictly between -2^53 and
/// 2^53.
#[verifier::external_body]
fn safe_long(value: i64) -> (accepted: bool)
    ensures
        accepted == is_safe_time(value),
{
    conjure_object::SafeLong::new(value).is_ok()
}

/// Ends a run.
#[derive(Debug)]
pub struct EndRequest {
    pub rid: String,
    pub end_unix: i64,
}

/// The names of satellites.
pub open spec fn names_of(sats: Seq<SatelliteConfig>) -> Seq<Seq<char>> {
    sats.map_values(|s: SatelliteConfig| s.name@)
}

impl NominalApi {
    /// The request for a page of the assets of a batch.
    pub fn search_batch_assets(&self, batch: &str, page_token: Option<String>) -> (request:
        SearchRequest)
        ensures
            request.property@ == "batch"@,
            request.value@ == batch@,
            !request.descending,
            request.page_size == SEARCH_PAGE_SIZE,
            request.page_token == page_token,
    {
        SearchRequest {
            property: "batch".to_owned(),
            value: batch.to_owned(),
            descending: false,
            page_size: SEARCH_PAGE_SIZE,
            page_token,
        }
    }

    /// The request for the asset of a satellite.
    pub fn create_asset(
        &self,
        batch: &str,
        batch_label: &str,
        common_label: &str,
        sat: &SatelliteConfig,
    ) -> (request: AssetRequest)
        ensures
            request@ == satellite_asset(
                self.dataset_rid@,
                batch@,
                batch_label@,
                common_label@,
                *sat,
            ),
    {
        let mut properties = no_pairs();
        push_pair(&mut properties, "batch", batch.to_owned());
        push_pair(&mut properties, "norad_id", decimal_text(sat.norad_id as u64));
        push_pair(&mut properties, "category", sat.category.as_str().to_owned());
        let mut series_tags = no_pairs();
        push_pair(&mut series_tags, "satellite", sat.name.clone());
        let request = AssetRequest {
            title: sat.name.clone(),
            properties,
            labels: labels(common_label, batch_label),
            scope_name: "telemetry".to_owned(),
            dataset: self.dataset_rid.clone(),
            series_tags,
        };
        let ghost goal = satellite_asset(
            self.dataset_rid@,
            batch@,
            batch_label@,
            common_label@,
            *sat,
        );
        assert(request@.properties =~= goal.properties);
        assert(request@.series_tags =~= goal.series_tags);
        request
    }

    /// The request for the logs asset of a batch.
    pub fn create_logs_asset(
        &self,
        batch: &str,
        batch_label: &str,
        common_label: &str,
        title: &str,
    ) -> (request: AssetRequest)
        ensures
            request@ == logs_asset(self.dataset_rid@, batch@, batch_label@, common_label@, title@),
    {
        let mut properties = no_pairs();
        push_pair(&mut properties, "batch", batch.to_owned());
        push_pair(&mut properties, "role", "logs".to_owned());
        let request = AssetRequest {
            title: title.to_owned(),
            properties,
            labels: labels(common_label, batch_label),
            scope_name: "logs".to_owned(),
            dataset: self.dataset_rid.clone(),
            series_tags: no_pairs(),
        };
        let ghost goal = logs_asset(self.dataset_rid@, batch@, batch_label@, common_label@, title@);
        assert(request@.properties =~= goal.properties);
        request
    }

    /// Begins to provision the assets of a batch, once the search has seen all pages: which
    /// satellites' assets it has not found. Never touches assets of other batches.
    pub fn provision_assets(
        &self,
        preset: &Preset,
        sats: &Vec<SatelliteConfig>,
        search: AssetSearch,
    ) -> (begun_with: (Provisioning, Vec<usize>))
        requires
            sats@.len() < usize::MAX,
            search.is_done(),
        ensures
            begun_with.0.well_formed(),
            begun_with.0@ == begun(names_of(sats@), preset.sat_prefix@, search.found()),
            begun_with.1@ == missing_places(names_of(sats@), search.found(), sats@.len()),
    {
        let mut names: Vec<String> = Vec::new();
        for i in 0..sats.len()
            invariant
                names@.len() == i,
                forall|k: int| 0 <= k < i ==> (#[trigger] names@[k])@ == sats@[k].name@,
        {
            names.push(sats[i].name.clone());
        }
        assert(texts(names@) =~= names_of(sats@));
        Provisioning::new(names, preset.sat_prefix.as_str(), search)
    }

    /// The request for the run of a streaming session, or nothing where its start cannot be sent.
    pub fn create_run(
        &self,
        preset: &Preset,
        common_label: &str,
        assets: Vec<String>,
        start_unix: i64,
        debug: bool,
        local_time: &str,
    ) -> (request: Option<RunRequest>)
        ensures
            match request {
                Some(r) => is_safe_time(start_unix) && r@ == session_run(
                    *preset,
                    common_label@,
                    texts(assets@),
                    start_unix,
                    debug,
                    local_time@,
                ),
                None => !is_safe_time(start_unix),
            },
    {
        if !safe_long(start_unix) {
            return None;
        }
        let ghost goal = session_run(
            *preset,
            common_label@,
            texts(assets@),
            start_unix,
            debug,
            local_time@,
        );
        let mut title = preset.name.clone();
        if debug {
            title.append(" [debug]");
        }
        title.append(" @ ");
        title.append(local_time);
        assert(title@ =~= goal.title);
        let count = decimal_text(preset.count as u64);
        let mut description = "sat-fleet streaming session: ".to_owned();
        description.append(count.as_str());
        description.append(" satellites @ ");
        description.append(preset.rate_hz.text.as_str());
        description.append(" Hz");
        let mut properties = no_pairs();
        push_pair(&mut properties, "batch", preset.name.clone());
        push_pair(&mut properties, "satellites", count);
        push_pair(&mut properties, "rate_hz", preset.rate_hz.text.clone());
        let flag: &str = if debug {
            "true"
        } else {
            "false"
        };
        push_pair(&mut properties, "debug", flag.to_owned());
        assert(tag_texts(properties@) =~= goal.properties);
        Some(
            RunRequest {
                title,
                description,
                start_unix,
                properties,
                labels: labels(common_label, preset.label.as_str()),
                assets,
            },
        )
    }

    /// The request that ends a run, or nothing where the end cannot be sent.
    pub fn end_run(&self, rid: &str, end_unix: i64) -> (request: Option<EndRequest>)
        ensures
            match request {
                Some(r) => is_safe_time(end_unix) && r.rid@ == rid@ && r.end_unix == end_unix,
                None => !is_safe_time(end_unix),
            },
    {
        if safe_long(end_unix) {
            Some(EndRequest { rid: rid.to_owned(), end_unix })
        } else {
            None
        }
    }
}

/// Writes entries to the log channel of a dataset.
#[derive(Debug)]
pub struct LogWriter {
    pub url: String,
    pub authorization: String,
}

/// One log entry as it is sent. The log channel is `log.system`.
#[derive(Debug)]
pub struct LogRequest {
    pub channel: String,
    pub timestamp: Timestamp,
    pub message: String,
    pub args: Vec<(String, String)>,
}

impl LogWriter {
    /// The writer for the dataset of the settings.
    pub fn new(env: &EnvConfig) -> (writer: LogWriter)
        ensures
            writer.url@ == env.base_url@ + "/storage/writer/v1/logs/"@ + env.dataset@,
            writer.authorization@ == "Bearer "@ + env.token@,
    {
        let mut url = env.base_url.clone();
        url.append("/storage/writer/v1/logs/");
        url.append(env.dataset.as_str());
        let mut authorization = "Bearer ".to_owned();
        authorization.append(env.token.as_str());
        LogWriter { url, authorization }
    }

    /// The request that writes a message with its details.
    pub fn write(
        &self,
        message: String,
        args: Vec<(String, String)>,
        timestamp: Timestamp,
    ) -> (request: LogRequest)
        ensures
            request.channel@ == "log.system"@,
            request.timestamp == timestamp,
            request.message@ == message@,
            request.args == args,
    {
        LogRequest { channel: "log.system".to_owned(), timestamp, message, args }
    }
}

/// The error for a log entry that was refused.
pub fn log_refusal(status: &str, text: &str) -> (error: String)
    ensures
        error@ == "log write failed ("@ + status@ + "): "@ + text@,
{
    let mut error = "log write failed (".to_owned();
    error.append(status);
    error.append("): ");
    error.append(text);
    error
}

/// The data scope of a satellite's asset never shows another satellite's points: it is filtered
/// by the satellite's own name.
pub proof fn scopes_are_told_apart(
    dataset: Seq<char>,
    batch: Seq<char>,
    batch_label: Seq<char>,
    common_label: Seq<char>,
    a: SatelliteConfig,
    b: SatelliteConfig,
)
    requires
        a.name@ != b.name@,
    ensures
        satellite_asset(dataset, batch, batch_label, common_label, a).series_tags != satellite_asset(
            dataset,
            batch,
            batch_label,
            common_label,
            b,
        ).series_tags,
{
    let left = satellite_asset(dataset, batch, batch_label, common_label, a).series_tags;
    let right = satellite_asset(dataset, batch, batch_label, common_label, b).series_tags;
    assert(left[0] != right[0]);
}

/// Every asset of a batch carries the batch as a property, so that a search for the batch finds it.
pub proof fn assets_are_found_by_their_batch(
    dataset: Seq<char>,
    batch: Seq<char>,
    batch_label: Seq<char>,
    common_label: Seq<char>,
    sat: SatelliteConfig,
    title: Seq<char>,
)
    ensures
        satellite_asset(dataset, batch, batch_label, common_label, sat).properties.contains(
            ("batch"@, batch),
        ),
        logs_asset(dataset, batch, batch_label, common_label, title).properties.contains(
            ("batch"@, batch),
        ),
{
    let satellite = satellite_asset(dataset, batch, batch_label, common_label, sat);
    let logs = logs_asset(dataset, batch, batch_label, common_label, title);
    assert(satellite.properties[0] == ("batch"@, batch));
    assert(logs.properties[0] == ("batch"@, batch));
}

} // verus!
