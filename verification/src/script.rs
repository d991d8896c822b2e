//! The pipeline that turns a job into a workspace, builds it and runs it:
//! what is written where, which programs run, and what each outcome means.

use vstd::prelude::*;
use vstd::utf8::{decode_utf8, valid_utf8};
use crate::call::Call;
use crate::manifest::{
    merge_message, merge_tables, merged, parse_table, print_table, table_entries, toml_document,
    toml_text, Node,
};
use crate::text::{
    chars_of, decimal, lemma_decimal_is_injective, lemma_occurs_in_suffix, occurs_at, push_all,
    push_decimal, starts_at, string_of, utf8_text,
};

verus! {

/// `s` with every occurrence of `from` replaced by `to`. Occurrences are
/// found from the left and do not overlap. An empty `from` occurs before
/// every character and once more at the end.
pub open spec fn replaced(s: Seq<char>, from: Seq<char>, to: Seq<char>) -> Seq<char>
    decreases s.len(),
{
    if s.len() == 0 {
        if from.len() == 0 {
            to
        } else {
            s
        }
    } else if from.len() == 0 {
        to + seq![s[0]] + replaced(s.skip(1), from, to)
    } else if occurs_at(s, 0, from) {
        to + replaced(s.skip(from.len() as int), from, to)
    } else {
        seq![s[0]] + replaced(s.skip(1), from, to)
    }
}

/// A text in which the placeholder does not occur is left as it is.
pub proof fn lemma_nothing_to_replace(s: Seq<char>, from: Seq<char>, to: Seq<char>)
    requires
        from.len() > 0,
        forall|at: int| 0 <= at <= s.len() ==> !occurs_at(s, at, from),
    ensures
        replaced(s, from, to) == s,
    decreases s.len(),
{
    if s.len() > 0 {
        assert forall|at: int| 0 <= at <= s.skip(1).len() implies !occurs_at(
            s.skip(1),
            at,
            from,
        ) by {
            lemma_occurs_in_suffix(s, 1, from);
            assert(!occurs_at(s, at + 1, from));
            if at + from.len() <= s.skip(1).len() {
                assert(s.skip(1).subrange(at, at + from.len()) =~= s.subrange(
                    at + 1,
                    at + 1 + from.len(),
                ));
            }
        }
        lemma_nothing_to_replace(s.skip(1), from, to);
        assert(seq![s[0]] + s.skip(1) =~= s);
    }
}

/// Replaces every occurrence of the placeholder `pair[0]` in `src` with
/// `pair[1]`.
pub fn expand(src: &str, pair: [&str; 2]) -> (out: String)
    ensures
        out@ == replaced(src@, pair[0]@, pair[1]@),
{
    let s = chars_of(src);
    let from = chars_of(pair[0]);
    let to = chars_of(pair[1]);
    let mut out: Vec<char> = Vec::new();
    let mut i: usize = 0;
    assert(s@.skip(0) =~= s@);
    while i < s.len()
        invariant
            i <= s.len(),
            out@ + replaced(s@.skip(i as int), from@, to@) =~= replaced(s@, from@, to@),
        decreases s.len() - i,
    {
        let ghost rest = s@.skip(i as int);
        assert(rest.len() > 0);
        assert(rest[0] == s@[i as int]);
        if from.len() == 0 {
            push_all(&mut out, &to);
            out.push(s[i]);
            assert(rest.skip(1) =~= s@.skip(i + 1));
            i += 1;
        } else if starts_at(&s, i, &from) {
            push_all(&mut out, &to);
            proof {
                lemma_occurs_in_suffix(s@, i as int, from@);
            }
            assert(rest.skip(from@.len() as int) =~= s@.skip(i + from@.len()));
            i += from.len();
        } else {
            out.push(s[i]);
            proof {
                lemma_occurs_in_suffix(s@, i as int, from@);
            }
            assert(rest.skip(1) =~= s@.skip(i + 1));
            i += 1;
        }
    }
    if from.len() == 0 {
        push_all(&mut out, &to);
    }
    string_of(&out)
}

/// Why a job yielded no output.
#[derive(Debug)]
pub enum Error {
    /// A fault of the host. Its text is for the log, never for the caller.
    Internal(String),
    /// The submission failed to build or to run. The text says why.
    Compiler(String),
}

/// An `Error` by the text it holds.
pub enum Failure {
    Internal(Seq<char>),
    Compiler(Seq<char>),
}

impl View for Error {
    type V = Failure;

    open spec fn view(&self) -> Failure {
        match self {
            Error::Internal(m) => Failure::Internal(m@),
            Error::Compiler(m) => Failure::Compiler(m@),
        }
    }
}

impl Failure {
    /// The text that the failure holds.
    pub open spec fn text(self) -> Seq<char> {
        match self {
            Failure::Internal(m) => m,
            Failure::Compiler(m) => m,
        }
    }
}

/// The status that answers a host fault.
pub const INTERNAL_STATUS: u16 = 500;

/// The status that answers a failed submission.
pub const REJECTED_STATUS: u16 = 422;

impl Error {
    /// The text that the error holds.
    pub fn message(&self) -> (m: String)
        ensures
            m@ == self@.text(),
    {
        match self {
            Error::Internal(m) => m.clone(),
            Error::Compiler(m) => m.clone(),
        }
    }

    /// The response that the error becomes: a host fault answers with
    /// status 500 and no detail, a failed submission with status 422 and its
    /// text.
    pub fn respond_to(self) -> (r: (u16, Option<String>))
        ensures
            match self@ {
                Failure::Internal(_) => r.0 == INTERNAL_STATUS && r.1 is None,
                Failure::Compiler(m) => r.1 matches Some(body) && body@ == m && r.0
                    == REJECTED_STATUS,
            },
    {
        match self {
            Error::Internal(_) => (INTERNAL_STATUS, None),
            Error::Compiler(m) => (REJECTED_STATUS, Some(m)),
        }
    }
}

impl From<String> for Error {
    /// Any fault that is not the submission's own is a host fault.
    fn from(error: String) -> (e: Error) {
        Error::Internal(error)
    }
}

impl vstd::std_specs::convert::FromSpecImpl<String> for Error {
    open spec fn obeys_from_spec() -> bool {
        true
    }

    open spec fn from_spec(error: String) -> Error {
        Error::Internal(error)
    }
}

/// A result by the text it holds.
pub open spec fn outcome(r: Result<String, Error>) -> Result<Seq<char>, Failure> {
    match r {
        Ok(s) => Ok(s@),
        Err(e) => Err(e@),
    }
}

/// The manifest text of a merge that succeeded, once the table printer
/// has answered `printed` for the merged table. A table that cannot be
/// written is the host's fault.
pub open spec fn written(printed: Result<Seq<char>, Seq<char>>) -> Result<Seq<char>, Failure> {
    match printed {
        Ok(text) => Ok(text),
        Err(e) => Err(Failure::Internal(e)),
    }
}

/// The manifest text for the base entries with the override laid on top. A
/// merge that fails is the submission's failure.
pub open spec fn merged_manifest(
    base: Map<Seq<char>, Node>,
    over: Map<Seq<char>, Node>,
) -> Result<Seq<char>, Failure> {
    match merged(base, over) {
        None => Err(Failure::Compiler(merge_message())),
        Some(m) => written(toml_text(m)),
    }
}

/// What the table printer answered, by what it holds.
pub open spec fn printed_text(printed: Result<String, String>) -> Result<Seq<char>, Seq<char>> {
    match printed {
        Ok(text) => Ok(text@),
        Err(e) => Err(e@),
    }
}

/// The manifest text of a merge that succeeded, from the table printer's
/// answer for the merged table.
pub fn write_manifest(printed: Result<String, String>) -> (r: Result<String, Error>)
    ensures
        outcome(r) == written(printed_text(printed)),
{
    match printed {
        Ok(text) => Ok(text),
        Err(e) => Err(Error::Internal(e)),
    }
}

/// Merges the manifest `from` into the base manifest `into` and writes the
/// result as TOML.
pub fn merge_manifest(into: toml::Table, from: toml::Table) -> (r: Result<String, Error>)
    ensures
        outcome(r) == merged_manifest(table_entries(into), table_entries(from)),
{
    match merge_tables(into, from) {
        Err(e) => Err(Error::Compiler(e.message())),
        Ok(table) => write_manifest(print_table(&table)),
    }
}

/// The templates that a workspace is filled from.
pub struct Templates {
    /// The module that loads the built artifact; `#{name}` stands for the
    /// workspace's name.
    pub module: String,
    /// The base manifest; `#{name}` stands for the package's name.
    pub manifest: String,
    /// The library source; `#{main}` stands for the submitted body.
    pub library: String,
}

/// The name of the template tree, and of the directory that a copy of it
/// makes in a job's directory.
pub const TEMPLATE_DIRECTORY: &'static str = "template";

/// Where the module lies in a workspace.
pub const MODULE_FILE: &'static str = "mod.mjs";

/// Where the library source lies in a workspace.
pub const LIBRARY_FILE: &'static str = "src/lib.rs";

/// Where the manifest lies in a workspace.
pub const MANIFEST_FILE: &'static str = "Cargo.toml";

/// The files of one workspace, each as its whole content.
pub struct Files {
    /// The workspace's name, which is also its directory's.
    pub name: String,
    /// The content of the file at `MODULE_FILE`.
    pub module: String,
    /// The content of the file at `LIBRARY_FILE`.
    pub library: String,
    /// The content of the file at `MANIFEST_FILE`.
    pub manifest: String,
}

/// The name of the workspace of the job identity `id`.
pub open spec fn workspace_name(id: nat) -> Seq<char> {
    seq!['_'] + decimal(id)
}

/// Jobs of different identities work in different workspaces, below
/// whatever root.
pub proof fn lemma_workspaces_differ(root: Seq<char>, a: nat, b: nat)
    requires
        a != b,
    ensures
        workspace_name(a) != workspace_name(b),
        job_directory(root, a) != job_directory(root, b),
        job_workspace(root, a) != job_workspace(root, b),
{
    if workspace_name(a) == workspace_name(b) {
        assert(workspace_name(a).skip(1) =~= decimal(a));
        assert(workspace_name(b).skip(1) =~= decimal(b));
        lemma_decimal_is_injective(a, b);
    }
    let head = root + seq!['/'];
    if job_directory(root, a) == job_directory(root, b) {
        assert(job_directory(root, a).skip(head.len() as int) =~= workspace_name(a));
        assert(job_directory(root, b).skip(head.len() as int) =~= workspace_name(b));
    }
    if job_workspace(root, a) == job_workspace(root, b) {
        let tail = "/"@ + TEMPLATE_DIRECTORY@;
        let da = job_directory(root, a);
        let db = job_directory(root, b);
        assert(job_workspace(root, a) =~= da + tail);
        assert(job_workspace(root, b) =~= db + tail);
        assert((da + tail).len() == (db + tail).len());
        assert((da + tail).take(da.len() as int) =~= da);
        assert((db + tail).take(db.len() as int) =~= db);
    }
}

/// `name` between double quotes.
pub open spec fn quoted(name: Seq<char>) -> Seq<char> {
    seq!['"'] + name + seq!['"']
}

/// The manifest of a workspace: the template with the package's name filled
/// in, and the submission's manifest, if it has one, merged into it. A
/// template that is no TOML document is the host's fault.
pub open spec fn workspace_manifest(
    template: Seq<char>,
    name: Seq<char>,
    over: Option<Map<Seq<char>, Node>>,
) -> Result<Seq<char>, Failure> {
    let cargo = replaced(template, "#{name}"@, quoted(name));
    match over {
        None => Ok(cargo),
        Some(o) => match toml_document(cargo) {
            Err(e) => Err(Failure::Internal(e)),
            Ok(base) => merged_manifest(base, o),
        },
    }
}

/// The entries of an optional table.
pub open spec fn entries_of(manifest: Option<toml::Table>) -> Option<Map<Seq<char>, Node>> {
    match manifest {
        Some(t) => Some(table_entries(t)),
        None => None,
    }
}

/// The name of the workspace of the job identity `id`.
pub fn name_of(id: usize) -> (name: String)
    ensures
        name@ == workspace_name(id as nat),
{
    let mut out: Vec<char> = Vec::new();
    out.push('_');
    push_decimal(&mut out, id);
    assert(out@ =~= workspace_name(id as nat));
    string_of(&out)
}

/// Computes the files of the workspace of job `id` for a submission with
/// the given manifest and body.
pub fn workspace_files(
    id: usize,
    manifest: Option<toml::Table>,
    body: &str,
    templates: &Templates,
) -> (r: Result<Files, Error>)
    ensures
        match workspace_manifest(
            templates.manifest@,
            workspace_name(id as nat),
            entries_of(manifest),
        ) {
            Ok(text) => r matches Ok(files) && files.name@ == workspace_name(id as nat)
                && files.module@ == replaced(templates.module@, "#{name}"@, files.name@)
                && files.library@ == replaced(templates.library@, "#{main}"@, body@)
                && files.manifest@ == text,
            Err(failure) => r matches Err(e) && e@ == failure,
        },
{
    let name = name_of(id);
    let mut package: Vec<char> = Vec::new();
    package.push('"');
    let letters = chars_of(name.as_str());
    push_all(&mut package, &letters);
    package.push('"');
    assert(package@ =~= quoted(name@));
    let package = string_of(&package);
    let cargo = expand(templates.manifest.as_str(), ["#{name}", package.as_str()]);
    let manifest_text = match manifest {
        None => cargo,
        Some(over) => match parse_table(cargo.as_str()) {
            Err(e) => {
                return Err(Error::Internal(e));
            },
            Ok(base) => match merge_manifest(base, over) {
                Err(e) => {
                    return Err(e);
                },
                Ok(text) => text,
            },
        },
    };
    let module = expand(templates.module.as_str(), ["#{name}", name.as_str()]);
    let library = expand(templates.library.as_str(), ["#{main}", body]);
    Ok(Files { name, module, library, manifest: manifest_text })
}

/// A program to run, with its arguments.
pub struct Command {
    pub program: String,
    pub args: Vec<String>,
}

/// Whether `command` runs `program` with exactly the arguments `args`.
pub open spec fn runs(command: Command, program: Seq<char>, args: Seq<Seq<char>>) -> bool {
    &&& command.program@ == program
    &&& command.args@.len() == args.len()
    &&& forall|i: int| 0 <= i < args.len() ==> (#[trigger] command.args@[i])@ == args[i]
}

/// The command that builds the workspace in the directory `dir`.
pub fn build_command(dir: &str) -> (command: Command)
    ensures
        runs(command, "wasm-pack"@, seq!["build"@, "--target"@, "nodejs"@, dir@]),
{
    let mut args: Vec<String> = Vec::new();
    args.push(String::from_str("build"));
    args.push(String::from_str("--target"));
    args.push(String::from_str("nodejs"));
    args.push(String::from_str(dir));
    Command { program: String::from_str("wasm-pack"), args }
}

/// The credential as the built program gets it: empty where there is none.
pub open spec fn credential_text(jwt: Option<&str>) -> Seq<char> {
    match jwt {
        Some(token) => token@,
        None => Seq::empty(),
    }
}

/// The command that runs what was built in the directory `dir` on the
/// payload `data`, with the credential `jwt`.
pub fn run_command(dir: &str, data: &str, jwt: Option<&str>) -> (command: Command)
    ensures
        runs(command, "node"@, seq![dir@ + "/"@ + MODULE_FILE@, data@, credential_text(jwt)]),
{
    let mut module = String::from_str(dir);
    module.append("/");
    module.append(MODULE_FILE);
    let token = match jwt {
        Some(token) => String::from_str(token),
        None => String::new(),
    };
    let mut args: Vec<String> = Vec::new();
    args.push(module);
    args.push(String::from_str(data));
    args.push(token);
    Command { program: String::from_str("node"), args }
}

/// What a process left behind when it ended.
pub struct Output {
    /// Whether it exited with status zero.
    pub success: bool,
    pub stdout: Vec<u8>,
    pub stderr: Vec<u8>,
}

/// What a failed phase reports where its error output is no text.
pub open spec fn unreadable_message() -> Seq<char> {
    "the process left output that is not valid UTF-8"@
}

/// The failure of a phase that exited with a status other than zero: its
/// error output is the submission's diagnostic.
pub open spec fn phase_failure(stderr: Seq<u8>) -> Failure {
    if valid_utf8(stderr) {
        Failure::Compiler(decode_utf8(stderr))
    } else {
        Failure::Internal(unreadable_message())
    }
}

/// The error of a phase that exited with a status other than zero.
pub fn failed_phase(stderr: Vec<u8>) -> (e: Error)
    ensures
        e@ == phase_failure(stderr@),
{
    match utf8_text(stderr) {
        Some(text) => Error::Compiler(text),
        None => Error::Internal(
            String::from_str("the process left output that is not valid UTF-8"),
        ),
    }
}

/// Judges the build phase. A build that succeeded adds all it printed to
/// the diagnostics; one that failed ends the job with its error output and
/// leaves the diagnostics as they were.
pub fn build_finished(out: Output, diagnostics: &mut Vec<u8>) -> (r: Result<(), Error>)
    ensures
        out.success ==> r is Ok && final(diagnostics)@ == old(diagnostics)@ + out.stdout@
            + out.stderr@,
        !out.success ==> (r matches Err(e) && e@ == phase_failure(out.stderr@)),
        !out.success ==> final(diagnostics)@ == old(diagnostics)@,
{
    let Output { success, stdout, stderr } = out;
    if success {
        let mut stdout = stdout;
        let mut stderr = stderr;
        diagnostics.append(&mut stdout);
        diagnostics.append(&mut stderr);
        Ok(())
    } else {
        Err(failed_phase(stderr))
    }
}

/// The result of a run phase that exited with status zero: what it printed
/// is the output.
pub open spec fn run_output(stdout: Seq<u8>) -> Result<Seq<char>, Failure> {
    if valid_utf8(stdout) {
        Ok(decode_utf8(stdout))
    } else {
        Err(Failure::Internal(unreadable_message()))
    }
}

/// Judges the run phase. A run that succeeded yields what it printed as the
/// output and adds only its error output to the diagnostics; one that
/// failed ends the job as a failed build does.
pub fn run_finished(out: Output, diagnostics: &mut Vec<u8>) -> (r: Result<String, Error>)
    ensures
        out.success ==> final(diagnostics)@ == old(diagnostics)@ + out.stderr@ && outcome(r)
            == run_output(out.stdout@),
        !out.success ==> (r matches Err(e) && e@ == phase_failure(out.stderr@)),
        !out.success ==> final(diagnostics)@ == old(diagnostics)@,
{
    let Output { success, stdout, stderr } = out;
    if success {
        let mut stderr = stderr;
        diagnostics.append(&mut stderr);
        match utf8_text(stdout) {
            Some(text) => Ok(text),
            None => Err(
                Error::Internal(
                    String::from_str("the process left output that is not valid UTF-8"),
                ),
            ),
        }
    } else {
        Err(failed_phase(stderr))
    }
}

/// Where a job stands while one of its processes runs.
pub enum Stage {
    /// The workspace is written and its build runs; `run` is the command
    /// that follows a build that succeeds.
    Building { run: Command },
    /// What was built runs.
    Running,
}

/// What is to be done when a process has ended.
pub enum Next {
    /// Run `command`; the job is then at `stage`.
    Spawn { command: Command, stage: Stage },
    /// The job is over, with this result.
    Finish { result: Result<String, Error> },
}

/// How a job starts: the files to write, the build to run once they are
/// written, and the stage the job is then at.
pub struct Start {
    /// The directory that the template tree is copied into, below the root.
    pub directory: String,
    /// The directory of the workspace itself, in which the files lie and
    /// the processes work.
    pub workspace: String,
    pub files: Files,
    pub build: Command,
    pub stage: Stage,
}

/// The directory below `root` that the template tree of job `id` is copied
/// into.
pub open spec fn job_directory(root: Seq<char>, id: nat) -> Seq<char> {
    root + seq!['/'] + workspace_name(id)
}

/// The directory of the workspace of job `id` below `root`.
pub open spec fn job_workspace(root: Seq<char>, id: nat) -> Seq<char> {
    job_directory(root, id) + "/"@ + TEMPLATE_DIRECTORY@
}

/// Whether `start` is how the job `id` starts for a submission with the
/// body `body`, the payload `data` and the credential `jwt`, once its
/// manifest has the text `manifest`.
pub open spec fn starts(
    start: Start,
    root: Seq<char>,
    id: nat,
    templates: Templates,
    manifest: Seq<char>,
    body: Seq<char>,
    data: Seq<char>,
    jwt: Option<String>,
) -> bool {
    &&& start.directory@ == job_directory(root, id)
    &&& start.workspace@ == job_workspace(root, id)
    &&& start.files.name@ == workspace_name(id)
    &&& start.files.module@ == replaced(templates.module@, "#{name}"@, workspace_name(id))
    &&& start.files.library@ == replaced(templates.library@, "#{main}"@, body)
    &&& start.files.manifest@ == manifest
    &&& runs(
        start.build,
        "wasm-pack"@,
        seq!["build"@, "--target"@, "nodejs"@, job_workspace(root, id)],
    )
    &&& start.stage matches Stage::Building { run }
    &&& runs(
        run,
        "node"@,
        seq![job_workspace(root, id) + "/"@ + MODULE_FILE@, data, credential_of(jwt)],
    )
}

/// Plans the job `id` for the request `call`, with workspaces below `root`:
/// the files to write, the build to start with and the run to follow it.
/// A job whose manifest cannot be made fails before anything is written.
pub fn plan(root: &str, id: usize, call: Call, templates: &Templates) -> (r: Result<Start, Error>)
    ensures
        match workspace_manifest(
            templates.manifest@,
            workspace_name(id as nat),
            entries_of(call.code.0),
        ) {
            Ok(text) => r matches Ok(start) && starts(
                start,
                root@,
                id as nat,
                *templates,
                text,
                call.code.1@,
                call.data@,
                call.jwt,
            ),
            Err(failure) => r matches Err(e) && e@ == failure,
        },
{
    let Call { jwt, code, data } = call;
    let (manifest, body) = code;
    let files = match workspace_files(id, manifest, body.as_str(), templates) {
        Ok(files) => files,
        Err(e) => {
            return Err(e);
        },
    };
    let mut directory = String::from_str(root);
    directory.append("/");
    directory.append(files.name.as_str());
    let mut workspace = directory.clone();
    workspace.append("/");
    workspace.append(TEMPLATE_DIRECTORY);
    let build = build_command(workspace.as_str());
    let run = match &jwt {
        Some(token) => run_command(workspace.as_str(), data.as_str(), Some(token.as_str())),
        None => run_command(workspace.as_str(), data.as_str(), None),
    };
    proof {
        reveal_strlit("/");
        assert(directory@ =~= job_directory(root@, id as nat));
    }
    Ok(Start { directory, workspace, files, build, stage: Stage::Building { run } })
}

/// The credential of a request as the built program gets it.
pub open spec fn credential_of(jwt: Option<String>) -> Seq<char> {
    match jwt {
        Some(token) => token@,
        None => Seq::empty(),
    }
}

/// The diagnostics of a job after the process of the stage `stage` has
/// ended with `out`: a phase that failed adds nothing, a build that
/// succeeded adds all it printed, a run that succeeded adds its error
/// output.
pub open spec fn diagnostics_after(stage: Stage, out: Output, diagnostics: Seq<u8>) -> Seq<u8> {
    if !out.success {
        diagnostics
    } else {
        match stage {
            Stage::Building { .. } => diagnostics + out.stdout@ + out.stderr@,
            Stage::Running => diagnostics + out.stderr@,
        }
    }
}

/// What a build printed stays in the diagnostics when the run that follows
/// it fails.
pub proof fn lemma_build_output_survives(
    run: Command,
    build: Output,
    ran: Output,
    diagnostics: Seq<u8>,
)
    requires
        build.success,
        !ran.success,
    ensures
        diagnostics_after(
            Stage::Running,
            ran,
            diagnostics_after(Stage::Building { run }, build, diagnostics),
        ) == diagnostics + build.stdout@ + build.stderr@,
{
}

/// Decides what follows when the process of the stage `stage` has ended
/// with `out`.
///
/// A build that succeeded is followed by the run; a run that succeeded
/// ends the job with what it printed. Either phase, when it fails, ends the
/// job with its error output as the submission's failure. What the
/// processes printed beside the output is appended to `stderr`.
pub fn execute_in(stage: Stage, out: Output, stderr: &mut Vec<u8>) -> (next: Next)
    ensures
        final(stderr)@ == diagnostics_after(stage, out, old(stderr)@),
        !out.success ==> (next matches Next::Finish { result } && result matches Err(e) && e@
            == phase_failure(out.stderr@)),
        out.success ==> match stage {
            Stage::Building { run } => next == (Next::Spawn { command: run, stage: Stage::Running }),
            Stage::Running => next matches Next::Finish { result } && outcome(result) == run_output(
                out.stdout@,
            ),
        },
{
    match stage {
        Stage::Building { run } => match build_finished(out, stderr) {
            Ok(()) => Next::Spawn { command: run, stage: Stage::Running },
            Err(e) => Next::Finish { result: Err(e) },
        },
        Stage::Running => Next::Finish { result: run_finished(out, stderr) },
    }
}

} // verus!
