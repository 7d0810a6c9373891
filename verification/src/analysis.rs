//! The analyses: which process runs each, what its output means, and what
//! is copied into the result store afterwards.
//!
//! Nothing here starts a process. A [`Command`] says what is to be run; a
//! [`ProcessOutput`] says how a run ended.

use crate::error::{Error, ErrorView, UploadPart};
use crate::job::{Job, JobView};
use crate::job_type::JobType;
use crate::text::{lossy, lossy_text, replace, replaced, trim, trimmed, utf8};
use vstd::prelude::*;
use vstd::string::StringExecFns;
use vstd::utf8::{decode_utf8, valid_utf8};

verus! {

/// A process to run: a program and its arguments.
#[derive(Debug)]
pub struct Command {
    pub program: String,
    pub args: Vec<String>,
}

/// What a [`Command`] holds.
pub struct CommandView {
    pub program: Seq<char>,
    pub args: Seq<Seq<char>>,
}

impl View for Command {
    type V = CommandView;

    open spec fn view(&self) -> CommandView {
        CommandView { program: self.program@, args: self.args.deep_view() }
    }
}

impl DeepView for Command {
    type V = CommandView;

    open spec fn deep_view(&self) -> CommandView {
        self@
    }
}

/// How a process ended: whether it reported success, and what it wrote.
#[derive(Debug)]
pub struct ProcessOutput {
    pub success: bool,
    pub stdout: Vec<u8>,
    pub stderr: Vec<u8>,
}

/// What a [`ProcessOutput`] holds.
pub struct ProcessOutputView {
    pub success: bool,
    pub stdout: Seq<u8>,
    pub stderr: Seq<u8>,
}

impl View for ProcessOutput {
    type V = ProcessOutputView;

    open spec fn view(&self) -> ProcessOutputView {
        ProcessOutputView { success: self.success, stdout: self.stdout@, stderr: self.stderr@ }
    }
}

/// The name by which a kind of analysis is shown.
pub open spec fn display_name_of(kind: JobType) -> Seq<char> {
    match kind {
        JobType::Eda => "EdaJob"@,
        JobType::Corr => "Correlation Job"@,
        JobType::SimulatedJob => "Simulated Job"@,
        JobType::SimulatedError => "Simulated Error"@,
        JobType::Nothing => "NONE"@,
    }
}

/// The script that carries out a kind of analysis.
pub open spec fn script_of(kind: JobType) -> Seq<char> {
    match kind {
        JobType::Eda => "python_jobs/eda_analysis.py"@,
        JobType::Corr => "python_jobs/correlation_analysis.py"@,
        JobType::SimulatedJob => "python_jobs/simulated_analysis.py"@,
        JobType::SimulatedError => "python_jobs/simulated_error.py"@,
        JobType::Nothing => Seq::empty(),
    }
}

/// The process that carries out an analysis of the given kind for `job`:
/// the script, handed where the job's data lie and which request it
/// belongs to.
pub open spec fn analysis_command(kind: JobType, job: JobView) -> CommandView {
    CommandView { program: "python"@, args: seq![script_of(kind), job.s3_path, job.request_id] }
}

/// The process that copies `source` to `target` in the result store.
pub open spec fn copy_command(source: Seq<char>, target: Seq<char>) -> CommandView {
    CommandView { program: "awslocal"@, args: seq!["s3"@, "cp"@, source, target] }
}

/// Where the report of the job called `job_id` goes.
pub open spec fn report_target(job_id: Seq<char>) -> Seq<char> {
    "s3://metadata/"@ + job_id + "/"@ + job_id + "-eda.html"@
}

/// Where the data of the job called `job_id` go.
pub open spec fn data_target(job_id: Seq<char>) -> Seq<char> {
    "s3://metadata/"@ + job_id + "/"@ + job_id + "-data.parquet"@
}

/// Where the data lie that the report at `report` was drawn from.
pub open spec fn data_source(report: Seq<char>) -> Seq<char> {
    replaced(report, "-eda.html"@, "-data.parquet"@)
}

/// The copies that follow an exploratory analysis: first the report, from
/// `report`, then the data, from `data`.
pub open spec fn exploratory_copies(job_id: Seq<char>, report: Seq<char>, data: Seq<char>) -> Seq<
    CommandView,
> {
    seq![copy_command(report, report_target(job_id)), copy_command(data, data_target(job_id))]
}

/// The copies that follow an analysis of the given kind which left its
/// result at `artifact`: two after an exploratory analysis, none after any
/// other.
pub open spec fn uploads_of(kind: JobType, job_id: Seq<char>, artifact: Seq<char>) -> Seq<
    CommandView,
> {
    if kind == JobType::Eda {
        exploratory_copies(job_id, artifact, data_source(artifact))
    } else {
        Seq::empty()
    }
}

/// Which file the copy at place `index` among the copies carries.
pub open spec fn part_at(index: int) -> UploadPart {
    if index == 0 {
        UploadPart::Report
    } else {
        UploadPart::Data
    }
}

/// What an analysis process that ended with `success` means, where
/// `written` is the text of its standard output, if that is text, and
/// `complaint` the text of its standard error.
pub open spec fn verdict(success: bool, written: Option<Seq<char>>, complaint: Seq<char>) -> Result<
    Seq<char>,
    ErrorView,
> {
    if !success {
        Err(ErrorView::Execution { stderr: complaint })
    } else {
        match written {
            Some(text) => Ok(text),
            None => Err(ErrorView::Output),
        }
    }
}

/// The text of the standard output of a process, its ends trimmed, where
/// that output is UTF-8.
pub open spec fn written_by(output: ProcessOutputView) -> Option<Seq<char>> {
    if valid_utf8(output.stdout) {
        Some(trimmed(decode_utf8(output.stdout)))
    } else {
        None
    }
}

/// What an analysis process that ended as `output` says leaves behind: the
/// place of its result, which is the one line it wrote, or the error.
pub open spec fn artifact_result(output: ProcessOutputView) -> Result<Seq<char>, ErrorView> {
    verdict(output.success, written_by(output), lossy_text(output.stderr))
}

/// What a copy of `part` that ended with `success` means, where
/// `complaint` is the text of its standard error.
pub open spec fn copy_verdict(part: UploadPart, success: bool, complaint: Seq<char>) -> Result<
    (),
    ErrorView,
> {
    if success {
        Ok(())
    } else {
        Err(ErrorView::Upload { part, stderr: complaint })
    }
}

/// What a copy of `part` that ended as `output` says means.
pub open spec fn upload_result(part: UploadPart, output: ProcessOutputView) -> Result<
    (),
    ErrorView,
> {
    copy_verdict(part, output.success, lossy_text(output.stderr))
}

/// Whether `result` stands for `model`.
pub open spec fn artifact_matches(
    result: Result<String, Error>,
    model: Result<Seq<char>, ErrorView>,
) -> bool {
    match result {
        Ok(text) => model == Ok::<Seq<char>, ErrorView>(text@),
        Err(e) => model == Err::<Seq<char>, ErrorView>(e@),
    }
}

/// Whether `result` stands for `model`.
pub open spec fn done_matches(result: Result<(), Error>, model: Result<(), ErrorView>) -> bool {
    match result {
        Ok(()) => model == Ok::<(), ErrorView>(()),
        Err(e) => model == Err::<(), ErrorView>(e@),
    }
}

/// One kind of analysis: what it is called, which script carries it out,
/// and what is to be copied once the script has done its work.
pub trait AnalysisJob {
    /// The kind of analysis.
    spec fn kind(&self) -> JobType;

    /// The kind of analysis.
    fn job_type(&self) -> (kind: JobType)
        ensures
            kind == self.kind(),
            kind != JobType::Nothing,
    ;

    /// The name by which the analysis is shown.
    fn display_name(&self) -> (name: &'static str)
        ensures
            name@ == display_name_of(self.kind()),
    ;

    /// The script that carries out the analysis.
    fn script_path(&self) -> (path: &'static str)
        ensures
            path@ == script_of(self.kind()),
    ;

    /// The process that carries out the analysis for `job`.
    fn command(&self, job: &Job) -> (command: Command)
        ensures
            command@ == analysis_command(self.kind(), job@),
    {
        let mut args: Vec<String> = Vec::new();
        args.push(self.script_path().to_owned());
        args.push(job.s3_path.clone());
        args.push(job.request_id.clone());
        let command = Command { program: "python".to_owned(), args };
        assert(command@.args =~= analysis_command(self.kind(), job@).args);
        command
    }

    /// The copies into the result store that follow the analysis of the
    /// job called `job_id`, which left its result at `temp_path`.
    fn handle_result(&self, job_id: &str, temp_path: &str) -> (uploads: Vec<Command>)
        ensures
            uploads.deep_view() == uploads_of(self.kind(), job_id@, temp_path@),
    ;
}

/// The process that copies `source` to `target` in the result store.
pub fn copy(source: &str, target: String) -> (command: Command)
    ensures
        command@ == copy_command(source@, target@),
{
    let mut args: Vec<String> = Vec::new();
    args.push("s3".to_owned());
    args.push("cp".to_owned());
    args.push(source.to_owned());
    args.push(target);
    let command = Command { program: "awslocal".to_owned(), args };
    assert(command@.args =~= copy_command(source@, target@).args);
    command
}

/// The place in the result store of the file of the job called `job_id`
/// whose name ends in `ending`.
fn target(job_id: &str, ending: &str) -> (place: String)
    ensures
        place@ == "s3://metadata/"@ + job_id@ + "/"@ + job_id@ + ending@,
{
    let mut place = "s3://metadata/".to_owned();
    place.append(job_id);
    place.append("/");
    place.append(job_id);
    place.append(ending);
    place
}

/// The two copies that follow an exploratory analysis of the job called
/// `job_id`: first the report, from `report`, then the data, from `data`.
pub fn exploratory_uploads(job_id: &str, report: &str, data: &str) -> (uploads: Vec<Command>)
    ensures
        uploads.deep_view() == exploratory_copies(job_id@, report@, data@),
{
    let mut uploads: Vec<Command> = Vec::new();
    uploads.push(copy(report, target(job_id, "-eda.html")));
    uploads.push(copy(data, target(job_id, "-data.parquet")));
    assert(uploads.deep_view() =~= exploratory_copies(job_id@, report@, data@));
    uploads
}

/// The correlation analysis.
#[derive(Clone, Copy, Debug)]
pub struct CorrelationJob;

/// The exploratory data analysis.
#[derive(Clone, Copy, Debug)]
pub struct EdaJob;

/// An analysis that only pretends, and ends well.
#[derive(Clone, Copy, Debug)]
pub struct SimulatedJob;

/// An analysis that only pretends, and ends in failure.
#[derive(Clone, Copy, Debug)]
pub struct SimulatedError;

impl AnalysisJob for EdaJob {
    open spec fn kind(&self) -> JobType {
        JobType::Eda
    }

    fn job_type(&self) -> (kind: JobType) {
        JobType::Eda
    }

    fn display_name(&self) -> (name: &'static str) {
        "EdaJob"
    }

    fn script_path(&self) -> (path: &'static str) {
        "python_jobs/eda_analysis.py"
    }

    fn handle_result(&self, job_id: &str, temp_path: &str) -> (uploads: Vec<Command>) {
        let data = replace(temp_path, "-eda.html", "-data.parquet");
        exploratory_uploads(job_id, temp_path, data.as_str())
    }
}

impl AnalysisJob for CorrelationJob {
    open spec fn kind(&self) -> JobType {
        JobType::Corr
    }

    fn job_type(&self) -> (kind: JobType) {
        JobType::Corr
    }

    fn display_name(&self) -> (name: &'static str) {
        "Correlation Job"
    }

    fn script_path(&self) -> (path: &'static str) {
        "python_jobs/correlation_analysis.py"
    }

    fn handle_result(&self, job_id: &str, temp_path: &str) -> (uploads: Vec<Command>) {
        let uploads: Vec<Command> = Vec::new();
        assert(uploads.deep_view() =~= Seq::<CommandView>::empty());
        uploads
    }
}

impl AnalysisJob for SimulatedJob {
    open spec fn kind(&self) -> JobType {
        JobType::SimulatedJob
    }

    fn job_type(&self) -> (kind: JobType) {
        JobType::SimulatedJob
    }

    fn display_name(&self) -> (name: &'static str) {
        "Simulated Job"
    }

    fn script_path(&self) -> (path: &'static str) {
        "python_jobs/simulated_analysis.py"
    }

    fn handle_result(&self, job_id: &str, temp_path: &str) -> (uploads: Vec<Command>) {
        let uploads: Vec<Command> = Vec::new();
        assert(uploads.deep_view() =~= Seq::<CommandView>::empty());
        uploads
    }
}

impl AnalysisJob for SimulatedError {
    open spec fn kind(&self) -> JobType {
        JobType::SimulatedError
    }

    fn job_type(&self) -> (kind: JobType) {
        JobType::SimulatedError
    }

    fn display_name(&self) -> (name: &'static str) {
        "Simulated Error"
    }

    fn script_path(&self) -> (path: &'static str) {
        "python_jobs/simulated_error.py"
    }

    fn handle_result(&self, job_id: &str, temp_path: &str) -> (uploads: Vec<Command>) {
        let uploads: Vec<Command> = Vec::new();
        assert(uploads.deep_view() =~= Seq::<CommandView>::empty());
        uploads
    }
}

/// Any one of the analyses.
#[derive(Clone, Copy, Debug)]
pub enum JobInstance {
    Correlation(CorrelationJob),
    Eda(EdaJob),
    SimulatedJob(SimulatedJob),
    SimulatedError(SimulatedError),
}

impl AnalysisJob for JobInstance {
    open spec fn kind(&self) -> JobType {
        match self {
            JobInstance::Correlation(job) => job.kind(),
            JobInstance::Eda(job) => job.kind(),
            JobInstance::SimulatedJob(job) => job.kind(),
            JobInstance::SimulatedError(job) => job.kind(),
        }
    }

    fn job_type(&self) -> (kind: JobType) {
        match self {
            JobInstance::Correlation(job) => job.job_type(),
            JobInstance::Eda(job) => job.job_type(),
            JobInstance::SimulatedJob(job) => job.job_type(),
            JobInstance::SimulatedError(job) => job.job_type(),
        }
    }

    fn display_name(&self) -> (name: &'static str) {
        match self {
            JobInstance::Correlation(job) => job.display_name(),
            JobInstance::Eda(job) => job.display_name(),
            JobInstance::SimulatedJob(job) => job.display_name(),
            JobInstance::SimulatedError(job) => job.display_name(),
        }
    }

    fn script_path(&self) -> (path: &'static str) {
        match self {
            JobInstance::Correlation(job) => job.script_path(),
            JobInstance::Eda(job) => job.script_path(),
            JobInstance::SimulatedJob(job) => job.script_path(),
            JobInstance::SimulatedError(job) => job.script_path(),
        }
    }

    fn handle_result(&self, job_id: &str, temp_path: &str) -> (uploads: Vec<Command>) {
        match self {
            JobInstance::Correlation(job) => job.handle_result(job_id, temp_path),
            JobInstance::Eda(job) => job.handle_result(job_id, temp_path),
            JobInstance::SimulatedJob(job) => job.handle_result(job_id, temp_path),
            JobInstance::SimulatedError(job) => job.handle_result(job_id, temp_path),
        }
    }
}

/// The analysis of the given kind. There is none of the kind `Nothing`.
pub fn create_job_instance(job_type: JobType) -> (job_impl: JobInstance)
    requires
        job_type != JobType::Nothing,
    ensures
        job_impl.kind() == job_type,
{
    match job_type {
        JobType::Corr => JobInstance::Correlation(CorrelationJob),
        JobType::Eda => JobInstance::Eda(EdaJob),
        JobType::SimulatedJob => JobInstance::SimulatedJob(SimulatedJob),
        JobType::SimulatedError => JobInstance::SimulatedError(SimulatedError),
        JobType::Nothing => vstd::pervasive::unreached(),
    }
}

/// What an analysis process that ended with `success` means, where
/// `written` is the text of its standard output, if that is text, and
/// `complaint` the text of its standard error.
pub fn judge(success: bool, written: Option<String>, complaint: String) -> (result: Result<
    String,
    Error,
>)
    ensures
        artifact_matches(
            result,
            verdict(
                success,
                match written {
                    Some(text) => Some(text@),
                    None => None,
                },
                complaint@,
            ),
        ),
{
    if !success {
        Err(Error::Execution { stderr: complaint })
    } else {
        match written {
            Some(text) => Ok(text),
            None => Err(Error::Output),
        }
    }
}

/// What a copy of `part` that ended with `success` means, where
/// `complaint` is the text of its standard error.
pub fn judge_copy(part: UploadPart, success: bool, complaint: String) -> (result: Result<(), Error>)
    ensures
        done_matches(result, copy_verdict(part, success, complaint@)),
{
    if success {
        Ok(())
    } else {
        Err(Error::Upload { part, stderr: complaint })
    }
}

impl ProcessOutput {
    /// The place of the result that an analysis process which ended as
    /// `self` says left behind: the one line it wrote to its standard
    /// output. A process that reports failure gives the error that holds
    /// what it wrote to its standard error.
    pub fn artifact(&self) -> (result: Result<String, Error>)
        ensures
            artifact_matches(result, artifact_result(self@)),
    {
        let written = match utf8(self.stdout.as_slice()) {
            Some(text) => Some(trim(text).to_owned()),
            None => None,
        };
        judge(self.success, written, lossy(self.stderr.as_slice()))
    }

    /// Whether a copy of `part` which ended as `self` says went well.
    pub fn uploaded(&self, part: UploadPart) -> (result: Result<(), Error>)
        ensures
            done_matches(result, upload_result(part, self@)),
    {
        judge_copy(part, self.success, lossy(self.stderr.as_slice()))
    }
}

} // verus!
