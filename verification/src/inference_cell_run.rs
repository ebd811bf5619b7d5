//! Models that an inference cell fetches.

use crate::client_config::servers;
use crate::client_config::types::{ClientConfig, LlmServerEntry, ServerV};
use crate::json;
use crate::json::{Json, JsonV};
use crate::llm_backend;
use crate::shared;
use crate::shared::{LocalModelRunState, RunV};
use crate::text;
use vstd::prelude::*;

verus! {

/// The ids of runs.
pub open spec fn job_ids(v: Seq<RunV>) -> Seq<Seq<char>> {
    v.map_values(|r: RunV| r.job_id)
}

/// How far a run is.
pub struct Progress {
    pub status: Seq<char>,
    pub progress_pct: Option<u8>,
    pub message: Option<Seq<char>>,
}

/// The runs `v` after the run `job` came as far as `p` at `now`. A run that is not
/// there is a new one, for the model `model`.
pub open spec fn with_run(
    v: Seq<RunV>,
    job: Seq<char>,
    model: Seq<char>,
    p: Progress,
    now: u64,
) -> Seq<RunV> {
    match text::position(job_ids(v), job) {
        Some(i) => v.update(
            i,
            RunV {
                status: p.status,
                progress_pct: p.progress_pct,
                message: p.message,
                updated_at_unix: now,
                ..v[i]
            },
        ),
        None => v.push(
            RunV {
                job_id: job,
                model,
                status: p.status,
                progress_pct: p.progress_pct,
                message: p.message,
                updated_at_unix: now,
            },
        ),
    }
}

fn run_index(v: &Vec<LocalModelRunState>, job: &str) -> (r: Option<usize>)
    ensures
        match r {
            Some(i) => text::position(job_ids(shared::runs_view(v@)), job@) == Some(i as int) && i
                < v@.len(),
            None => text::position(job_ids(shared::runs_view(v@)), job@) is None,
        },
{
    let ghost ids = job_ids(shared::runs_view(v@));
    proof {
        text::lemma_position(ids, job@);
    }
    for i in 0..v.len()
        invariant
            ids == job_ids(shared::runs_view(v@)),
            forall|j: int| 0 <= j < i ==> #[trigger] ids[j] != job@,
            match text::position(ids, job@) {
                Some(i) => 0 <= i < ids.len() && ids[i] == job@ && forall|j: int|
                    0 <= j < i ==> #[trigger] ids[j] != job@,
                None => forall|j: int| 0 <= j < ids.len() ==> #[trigger] ids[j] != job@,
            },
    {
        assert(ids[i as int] == v@[i as int].job_id@);
        if text::str_eq(&v[i].job_id, job) {
            return Some(i);
        }
    }
    None
}

/// Takes in how far the run `job_id` came, at `now`.
pub fn upsert_local_run(
    runs: &mut Vec<LocalModelRunState>,
    job_id: &str,
    model: &str,
    status: &str,
    progress_pct: Option<u8>,
    message: Option<String>,
    now: u64,
)
    ensures
        shared::runs_view(final(runs)@) == with_run(
            shared::runs_view(old(runs)@),
            job_id@,
            model@,
            Progress { status: status@, progress_pct, message: text::opt_view(message) },
            now,
        ),
{
    let ghost before = runs@;
    let ghost p = Progress { status: status@, progress_pct, message: text::opt_view(message) };
    match run_index(runs, job_id) {
        Some(i) => {
            runs[i].status = text::copy(status);
            runs[i].progress_pct = progress_pct;
            runs[i].message = message;
            runs[i].updated_at_unix = now;
        },
        None => {
            runs.push(
                LocalModelRunState {
                    job_id: text::copy(job_id),
                    model: text::copy(model),
                    status: text::copy(status),
                    progress_pct,
                    message,
                    updated_at_unix: now,
                },
            );
        },
    }
    assert(shared::runs_view(runs@) =~= with_run(
        shared::runs_view(before),
        job_id@,
        model@,
        p,
        now,
    ));
}

/// A run keeps its place and its model however often it is heard of.
pub proof fn law_run_keeps_its_model(
    v: Seq<RunV>,
    job: Seq<char>,
    model: Seq<char>,
    p: Progress,
    now: u64,
    other: Seq<char>,
    q: Progress,
    later: u64,
)
    ensures
        ({
            let once = with_run(v, job, model, p, now);
            let twice = with_run(once, job, other, q, later);
            twice.len() == once.len() && forall|i: int|
                0 <= i < once.len() ==> (#[trigger] twice[i]).model == once[i].model
                    && twice[i].job_id == once[i].job_id
        }),
{
    let once = with_run(v, job, model, p, now);
    text::lemma_position(job_ids(v), job);
    text::lemma_position(job_ids(once), job);
    match text::position(job_ids(v), job) {
        Some(i) => {
            assert(job_ids(once)[i] == job);
        },
        None => {
            assert(job_ids(once)[v.len() as int] == job);
        },
    }
}

/// Where the server `id` stands.
pub open spec fn server_at(v: Seq<ServerV>, id: Seq<char>) -> Option<int> {
    text::position(v.map_values(|s: ServerV| s.id), id)
}

/// Why the server `id` cannot fetch models; nothing, where it can.
pub open spec fn cell_fault(v: Seq<ServerV>, id: Seq<char>) -> Option<Seq<char>> {
    match server_at(v, id) {
        None => Some("server not found"@),
        Some(i) => if !v[i].attached {
            Some("server is not attached"@)
        } else if !servers::is_cell(v[i].kind) {
            Some("server is not an inference-cell backend"@)
        } else {
            None
        },
    }
}

/// The server `id` of the configuration.
pub fn find_server<'a>(config: &'a ClientConfig, id: &str) -> (r: Option<&'a LlmServerEntry>)
    ensures
        match server_at(config@.llm_servers, id@) {
            Some(i) => r matches Some(s) && *s == config.llm_servers@[i] && 0 <= i
                < config.llm_servers@.len(),
            None => r is None,
        },
{
    let ghost ids = config@.llm_servers.map_values(|s: ServerV| s.id);
    proof {
        text::lemma_position(ids, id@);
    }
    for i in 0..config.llm_servers.len()
        invariant
            ids == config@.llm_servers.map_values(|s: ServerV| s.id),
            forall|j: int| 0 <= j < i ==> #[trigger] ids[j] != id@,
            match text::position(ids, id@) {
                Some(i) => 0 <= i < ids.len() && ids[i] == id@ && forall|j: int|
                    0 <= j < i ==> #[trigger] ids[j] != id@,
                None => forall|j: int| 0 <= j < ids.len() ==> #[trigger] ids[j] != id@,
            },
    {
        assert(ids[i as int] == config.llm_servers@[i as int].id@);
        if text::str_eq(&config.llm_servers[i].id, id) {
            return Some(&config.llm_servers[i]);
        }
    }
    None
}

/// Whether the server `server_id` can fetch models: it is there, it is attached,
/// and it is an inference cell.
pub fn find_inference_cell_server(config: &ClientConfig, server_id: &str) -> (r: Result<(), String>)
    ensures
        match r {
            Ok(_) => cell_fault(config@.llm_servers, server_id@) is None,
            Err(m) => cell_fault(config@.llm_servers, server_id@) == Some(m@),
        },
{
    match find_server(config, server_id) {
        None => Err(text::copy("server not found")),
        Some(s) => if !s.attached {
            Err(text::copy("server is not attached"))
        } else if !servers::is_inference_cell_kind(&s.kind) {
            Err(text::copy("server is not an inference-cell backend"))
        } else {
            Ok(())
        },
    }
}

/// The address of the inference cell `server_id`.
pub fn resolve_inference_cell_server(config: &ClientConfig, server_id: &str) -> (r: Result<
    String,
    String,
>)
    ensures
        match r {
            Ok(url) => cell_fault(config@.llm_servers, server_id@) is None && url@
                == text::strip_trailing(
                config@.llm_servers[server_at(config@.llm_servers, server_id@)->0].url,
                '/',
            ),
            Err(m) => cell_fault(config@.llm_servers, server_id@) == Some(m@),
        },
{
    if let Err(m) = find_inference_cell_server(config, server_id) {
        return Err(m);
    }
    match find_server(config, server_id) {
        Some(s) => Ok(text::trim_end_char(&s.url, '/')),
        None => Err(text::copy("server not found")),
    }
}

/// Where the inference cell at `base_url` is asked to fetch a model.
pub fn pull_url(base_url: &str) -> (r: String)
    ensures
        r@ == base_url@ + "/mtrxai/v1/models/pull"@,
{
    text::concat2(base_url, "/mtrxai/v1/models/pull")
}

/// Where the inference cell at `base_url` tells how far it is with `job`.
pub fn pull_status_url(base_url: &str, job: &str) -> (r: String)
    ensures
        r@ == base_url@ + "/mtrxai/v1/models/pull/"@ + job@,
{
    text::concat3(base_url, "/mtrxai/v1/models/pull/", job)
}

/// What asks an inference cell for the form `quant` of the model `repo`.
pub fn pull_body(repo: &str, quant: &str) -> (r: Json)
    ensures
        r@ == JsonV::Obj(
            Map::<Seq<char>, JsonV>::empty().insert("repo"@, JsonV::Str(repo@)).insert(
                "quant"@,
                JsonV::Str(quant@),
            ),
        ),
{
    json::object().with("repo", json::string(repo)).with("quant", json::string(quant))
}

/// What is told while the model `repo` in the form `quant` is asked for.
pub fn pull_message(repo: &str, quant: &str) -> (r: String)
    ensures
        r@ == "Pulling "@ + repo@ + " ("@ + quant@ + ")"@,
{
    let front = text::concat3("Pulling ", repo, " (");
    let r = text::concat3(&front, quant, ")");
    assert(r@ =~= "Pulling "@ + repo@ + " ("@ + quant@ + ")"@);
    r
}

/// Whether a status is one of success.
pub open spec fn succeeded(status: u16) -> bool {
    200 <= status < 300
}

/// What came of asking an inference cell for a model: the id of its job, where it
/// answered with success and with `job_id`.
pub fn pull_reply(status: u16, body: &str, job_id: Option<String>) -> (r: Result<String, String>)
    ensures
        match r {
            Ok(id) => succeeded(status) && job_id == Some(id),
            Err(m) => m@ == if status == 401 {
                "inference-cell rejected pull: admin token required (set Admin token in server settings)"@
            } else if !succeeded(status) {
                "inference-cell pull failed: "@ + body@
            } else {
                "parse pull response"@
            } && (succeeded(status) ==> job_id is None),
        },
{
    if status == 401 {
        return Err(
            text::copy(
                "inference-cell rejected pull: admin token required (set Admin token in server settings)",
            ),
        );
    }
    if !(status >= 200 && status < 300) {
        return Err(text::concat2("inference-cell pull failed: ", body));
    }
    match job_id {
        Some(id) => Ok(id),
        None => Err(text::copy("parse pull response")),
    }
}

/// How far an inference cell says it is.
#[derive(Debug, PartialEq)]
pub struct PullJobStatus {
    pub status: String,
    pub error: Option<String>,
}

/// What follows from what an inference cell says.
#[derive(Debug, PartialEq)]
pub enum PullStep {
    Report { status: String, progress_pct: u8, message: String },
    Done,
    Fail(String),
}

/// What a [`PullStep`] says.
pub enum PullStepV {
    Report { status: Seq<char>, progress_pct: u8, message: Seq<char> },
    Done,
    Fail(Seq<char>),
}

impl View for PullStep {
    type V = PullStepV;

    open spec fn view(&self) -> PullStepV {
        match self {
            PullStep::Report { status, progress_pct, message } => PullStepV::Report {
                status: status@,
                progress_pct: *progress_pct,
                message: message@,
            },
            PullStep::Done => PullStepV::Done,
            PullStep::Fail(m) => PullStepV::Fail(m@),
        }
    }
}

/// What follows from the job of an inference cell being as far as `s`.
pub open spec fn job_step(s: Seq<char>, error: Option<Seq<char>>) -> PullStepV {
    if s == "queued"@ {
        PullStepV::Report {
            status: "downloading"@,
            progress_pct: 20,
            message: "Queued on inference cell"@,
        }
    } else if s == "running"@ {
        PullStepV::Report {
            status: "downloading"@,
            progress_pct: 60,
            message: "Downloading from Hugging Face"@,
        }
    } else if s == "importing"@ {
        PullStepV::Report {
            status: "importing"@,
            progress_pct: 80,
            message: "Importing model into Ollama"@,
        }
    } else if s == "ok"@ {
        PullStepV::Done
    } else if s == "failed"@ {
        PullStepV::Fail(
            match error {
                Some(e) => e,
                None => "inference-cell pull failed"@,
            },
        )
    } else {
        PullStepV::Fail("unexpected inference-cell pull status: "@ + s)
    }
}

/// What follows from the answer of an inference cell that was asked how far it
/// is.
pub open spec fn poll_step(status: u16, body: Seq<char>, job: Option<PullJobStatus>) -> PullStepV {
    if status == 401 {
        PullStepV::Fail("inference-cell rejected pull status: admin token required"@)
    } else if !succeeded(status) {
        PullStepV::Fail("inference-cell pull status failed: "@ + body)
    } else {
        match job {
            Some(j) => job_step(j.status@, text::opt_view(j.error)),
            None => PullStepV::Fail("parse pull job status"@),
        }
    }
}

fn report(status: &str, progress_pct: u8, message: &str) -> (r: PullStep)
    ensures
        r@ == (PullStepV::Report { status: status@, progress_pct, message: message@ }),
{
    PullStep::Report { status: text::copy(status), progress_pct, message: text::copy(message) }
}

/// What follows from the answer of an inference cell that was asked how far it
/// is. `job` is what the answer says, where it says anything.
pub fn poll_pull_job(status: u16, body: &str, job: Option<PullJobStatus>) -> (r: PullStep)
    ensures
        r@ == poll_step(status, body@, job),
{
    if status == 401 {
        return PullStep::Fail(
            text::copy("inference-cell rejected pull status: admin token required"),
        );
    }
    if !(status >= 200 && status < 300) {
        return PullStep::Fail(text::concat2("inference-cell pull status failed: ", body));
    }
    let job = match job {
        Some(j) => j,
        None => {
            return PullStep::Fail(text::copy("parse pull job status"));
        },
    };
    let s = &job.status;
    if text::str_eq(s, "queued") {
        report("downloading", 20, "Queued on inference cell")
    } else if text::str_eq(s, "running") {
        report("downloading", 60, "Downloading from Hugging Face")
    } else if text::str_eq(s, "importing") {
        report("importing", 80, "Importing model into Ollama")
    } else if text::str_eq(s, "ok") {
        PullStep::Done
    } else if text::str_eq(s, "failed") {
        match job.error {
            Some(e) => PullStep::Fail(e),
            None => PullStep::Fail(text::copy("inference-cell pull failed")),
        }
    } else {
        PullStep::Fail(text::concat2("unexpected inference-cell pull status: ", s))
    }
}

/// What shows an inference cell that it may be asked, with the token `token`.
pub fn admin_authorization(token: Option<&str>) -> (r: Option<String>)
    ensures
        text::opt_view(r) == llm_backend::bearer(json::opt_str(token)),
{
    llm_backend::authorization(token)
}

/// What has happened to a run of a model on an inference cell.
#[derive(Debug)]
pub enum CellEvent {
    /// It was asked for.
    Asked,
    /// The cell was looked up: its address, or why it cannot be used.
    Resolved(Result<String, String>),
    /// The cell was asked to fetch the model: the id of its job, or why there is
    /// none.
    PullStarted(Result<String, String>),
    /// The cell was asked how far its job `job` is.
    Polled { job: String, step: PullStep },
    /// A request to the cell got no answer.
    Unanswered(String),
    /// The models of the cell were read again.
    Reloaded,
}

/// What is to be done next for a run.
#[derive(Debug, PartialEq)]
pub enum CellAction {
    /// Look up the cell.
    Resolve,
    /// Ask the cell at this address to fetch the model.
    StartPull(String),
    /// Ask the cell how far this job is.
    Poll(String),
    /// Read the models of the cell again.
    Reload,
    /// Nothing: the run is over.
    End,
}

/// How far a run came, as it is shown, and what is to be done next.
#[derive(Debug)]
pub struct CellMove {
    pub report: Option<CellReport>,
    pub action: CellAction,
}

/// How far a run came, as it is shown.
#[derive(Debug)]
pub struct CellReport {
    pub status: String,
    pub progress_pct: Option<u8>,
    pub message: String,
}

/// What a [`CellAction`] says.
pub enum CellActionV {
    Resolve,
    StartPull(Seq<char>),
    Poll(Seq<char>),
    Reload,
    End,
}

impl View for CellAction {
    type V = CellActionV;

    open spec fn view(&self) -> CellActionV {
        match self {
            CellAction::Resolve => CellActionV::Resolve,
            CellAction::StartPull(url) => CellActionV::StartPull(url@),
            CellAction::Poll(job) => CellActionV::Poll(job@),
            CellAction::Reload => CellActionV::Reload,
            CellAction::End => CellActionV::End,
        }
    }
}

impl View for CellReport {
    type V = Progress;

    open spec fn view(&self) -> Progress {
        Progress {
            status: self.status@,
            progress_pct: self.progress_pct,
            message: Some(self.message@),
        }
    }
}

/// What a [`CellMove`] says.
pub open spec fn move_view(m: CellMove) -> (Option<Progress>, CellActionV) {
    (
        match m.report {
            Some(r) => Some(r@),
            None => None,
        },
        m.action@,
    )
}

/// A run that is `status`.
pub open spec fn stage(status: Seq<char>, progress_pct: Option<u8>, message: Seq<char>) -> Option<
    Progress,
> {
    Some(Progress { status, progress_pct, message: Some(message) })
}

/// What follows for a run of the model `quant` of `repo` from what happened.
pub open spec fn cell_move(event: CellEvent, repo: Seq<char>, quant: Seq<char>) -> (
    Option<Progress>,
    CellActionV,
) {
    match event {
        CellEvent::Asked => (
            stage("queued"@, Some(0), "Starting Hugging Face download"@),
            CellActionV::Resolve,
        ),
        CellEvent::Resolved(Ok(url)) => (
            stage("downloading"@, Some(10), "Pulling "@ + repo + " ("@ + quant + ")"@),
            CellActionV::StartPull(url@),
        ),
        CellEvent::PullStarted(Ok(job)) => (None, CellActionV::Poll(job@)),
        CellEvent::Polled { job, step } => match step@ {
            PullStepV::Report { status, progress_pct, message } => (
                stage(status, Some(progress_pct), message),
                CellActionV::Poll(job@),
            ),
            PullStepV::Done => (
                stage("loading"@, Some(95), "Loading model into inference cell"@),
                CellActionV::Reload,
            ),
            PullStepV::Fail(m) => (stage("failed"@, None, m), CellActionV::End),
        },
        CellEvent::Reloaded => (
            stage("ready"@, Some(100), "Model is ready on inference cell"@),
            CellActionV::End,
        ),
        CellEvent::Resolved(Err(m)) => (stage("failed"@, None, m@), CellActionV::End),
        CellEvent::PullStarted(Err(m)) => (stage("failed"@, None, m@), CellActionV::End),
        CellEvent::Unanswered(m) => (stage("failed"@, None, m@), CellActionV::End),
    }
}

fn moved(status: &str, progress_pct: Option<u8>, message: String, action: CellAction) -> (r: CellMove)
    ensures
        move_view(r) == (stage(status@, progress_pct, message@), action@),
{
    CellMove {
        report: Some(CellReport { status: text::copy(status), progress_pct, message }),
        action,
    }
}

/// What follows for a run of the model `quant` of `repo` from what happened.
pub fn run_inference_cell_task(event: CellEvent, repo: &str, quant: &str) -> (r: CellMove)
    ensures
        move_view(r) == cell_move(event, repo@, quant@),
{
    match event {
        CellEvent::Asked => moved(
            "queued",
            Some(0),
            text::copy("Starting Hugging Face download"),
            CellAction::Resolve,
        ),
        CellEvent::Resolved(Ok(url)) => moved(
            "downloading",
            Some(10),
            pull_message(repo, quant),
            CellAction::StartPull(url),
        ),
        CellEvent::PullStarted(Ok(job)) => CellMove { report: None, action: CellAction::Poll(job) },
        CellEvent::Polled { job, step } => match step {
            PullStep::Report { status, progress_pct, message } => moved(
                &status,
                Some(progress_pct),
                message,
                CellAction::Poll(job),
            ),
            PullStep::Done => moved(
                "loading",
                Some(95),
                text::copy("Loading model into inference cell"),
                CellAction::Reload,
            ),
            PullStep::Fail(m) => moved("failed", None, m, CellAction::End),
        },
        CellEvent::Reloaded => moved(
            "ready",
            Some(100),
            text::copy("Model is ready on inference cell"),
            CellAction::End,
        ),
        CellEvent::Resolved(Err(m)) => moved("failed", None, m, CellAction::End),
        CellEvent::PullStarted(Err(m)) => moved("failed", None, m, CellAction::End),
        CellEvent::Unanswered(m) => moved("failed", None, m, CellAction::End),
    }
}

/// A run that is over is shown as ready, with everything done, or as failed, with
/// the reason.
pub proof fn law_run_ends_ready_or_failed(event: CellEvent, repo: Seq<char>, quant: Seq<char>)
    requires
        cell_move(event, repo, quant).1 is End,
    ensures
        cell_move(event, repo, quant).0 matches Some(p) && p.message is Some && ({
            ||| p.status == "ready"@ && p.progress_pct == Some(100u8)
            ||| p.status == "failed"@ && p.progress_pct is None
        }),
{
}

/// What is reported of a run is shown for that run and for no other: a run that is known
/// shows the new status, progress, message and time, and a new one is added with its
/// model.
pub proof fn law_report_is_shown(
    v: Seq<RunV>,
    job: Seq<char>,
    model: Seq<char>,
    p: Progress,
    now: u64,
)
    ensures
        ({
            let after = with_run(v, job, model, p, now);
            &&& exists|i: int|
                0 <= i < after.len() && (#[trigger] after[i]).job_id == job && after[i].status
                    == p.status && after[i].progress_pct == p.progress_pct && after[i].message
                    == p.message && after[i].updated_at_unix == now
            &&& forall|i: int|
                0 <= i < v.len() && (#[trigger] v[i]).job_id != job ==> after[i] == v[i]
            &&& (forall|i: int| 0 <= i < v.len() ==> (#[trigger] v[i]).job_id != job) ==> after.len()
                == v.len() + 1 && after.last().model == model
        }),
{
    let ids = job_ids(v);
    text::lemma_position(ids, job);
    let after = with_run(v, job, model, p, now);
    match text::position(ids, job) {
        Some(i) => {
            assert(v[i].job_id == job);
            assert(after[i].job_id == job);
        },
        None => {
            assert(after[v.len() as int].job_id == job);
            assert forall|i: int| 0 <= i < v.len() implies (#[trigger] v[i]).job_id != job by {
                assert(ids[i] != job);
            }
        },
    }
}

/// A model can run on a server exactly where that server is an inference cell and
/// attached.
pub proof fn law_cell_runs_models(v: Seq<ServerV>, id: Seq<char>, i: int)
    requires
        0 <= i < v.len(),
        v[i].id == id,
        forall|j: int| 0 <= j < i ==> (#[trigger] v[j]).id != id,
    ensures
        server_at(v, id) == Some(i),
        cell_fault(v, id) is None <==> v[i].attached && servers::is_cell(v[i].kind),
{
    let ids = v.map_values(|s: ServerV| s.id);
    text::lemma_position(ids, id);
    let at = server_at(v, id);
    assert(ids[i] == id);
    if let Some(k) = at {
        if k < i {
            assert(v[k].id == ids[k]);
        }
        if i < k {
            assert(ids[i] != id);
        }
    }
}

/// A run goes on until it is done: it looks for the file, pulls it, asks after the pull
/// until that is done, loads the model, and is then ready. A pull that is done leads to
/// loading, and one that fails ends the run with the reason.
pub proof fn law_run_goes_on(
    url: String,
    job: String,
    step: PullStep,
    repo: Seq<char>,
    quant: Seq<char>,
)
    ensures
        cell_move(CellEvent::Asked, repo, quant).1 == CellActionV::Resolve,
        cell_move(CellEvent::Resolved(Ok(url)), repo, quant).1 == CellActionV::StartPull(url@),
        cell_move(CellEvent::PullStarted(Ok(job)), repo, quant).1 == CellActionV::Poll(job@),
        step@ is Report ==> cell_move(CellEvent::Polled { job, step }, repo, quant).1
            == CellActionV::Poll(job@),
        step@ is Done ==> cell_move(CellEvent::Polled { job, step }, repo, quant).1
            == CellActionV::Reload,
        step@ matches PullStepV::Fail(m) ==> (cell_move(
            CellEvent::Polled { job, step },
            repo,
            quant,
        ).1 is End && (cell_move(CellEvent::Polled { job, step }, repo, quant).0 matches Some(p)
            && p.message == Some(m) && p.status == "failed"@)),
        cell_move(CellEvent::Reloaded, repo, quant).1 is End,
        cell_move(CellEvent::Reloaded, repo, quant).0 matches Some(p) && p.status == "ready"@,
        cell_move(CellEvent::Unanswered(url), repo, quant).0 matches Some(p) && p.status
            == "failed"@ && p.message == Some(url@),
{
}

/// A pull is done where the cell says so, and has failed where the cell says that, with
/// what it says, or where it gives no answer.
pub proof fn law_pull_is_followed(status: u16, body: Seq<char>, job: PullJobStatus)
    ensures
        200 <= status < 300 && job.status@ == "ok"@ ==> poll_step(status, body, Some(job))
            == PullStepV::Done,
        200 <= status < 300 && job.status@ == "failed"@ && job.error is Some ==> poll_step(
            status,
            body,
            Some(job),
        ) == PullStepV::Fail(job.error->0@),
        200 <= status < 300 && (job.status@ == "queued"@ || job.status@ == "running"@ || job.status@
            == "importing"@) ==> poll_step(status, body, Some(job)) is Report,
        !(200 <= status < 300) ==> poll_step(status, body, Some(job)) is Fail,
        poll_step(status, body, None) is Fail,
{
    reveal_strlit("ok");
    reveal_strlit("failed");
    reveal_strlit("queued");
    reveal_strlit("running");
    reveal_strlit("importing");
    assert("ok"@.len() == 2 && "failed"@.len() == 6 && "queued"@.len() == 6 && "running"@.len() == 7
        && "importing"@.len() == 9);
    assert("failed"@[0] == 'f' && "queued"@[0] == 'q');
}

} // verus!
