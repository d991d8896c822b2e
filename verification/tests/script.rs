use snippet_runner::script::{
    build_command, build_finished, execute_in, expand, failed_phase, name_of, plan, run_command,
    run_finished, workspace_files, Error, Next, Output, Stage, Templates, INTERNAL_STATUS,
    REJECTED_STATUS,
};
use snippet_runner::text::{chars_of, push_all, push_decimal, starts_at};
use snippet_runner::Call;
use toml::{Table, Value};

fn templates() -> Templates {
    Templates {
        module: "import { main } from './pkg/#{name}.js'; // #{name}".to_string(),
        manifest: "[package]\nname = #{name}\nversion = \"0.1.0\"\n\n[dependencies]\nwasm-bindgen = \"0.2\"\n"
            .to_string(),
        library: "pub async fn main() { (#{main})().await }".to_string(),
    }
}

fn call(manifest: Option<Table>, body: &str, data: &str, jwt: Option<&str>) -> Call {
    Call { jwt: jwt.map(str::to_string), code: (manifest, body.to_string()), data: data.to_string() }
}

fn output(success: bool, stdout: &[u8], stderr: &[u8]) -> Output {
    Output { success, stdout: stdout.to_vec(), stderr: stderr.to_vec() }
}

#[test]
fn expand_replaces_every_occurrence() {
    assert_eq!(expand("a#{x}b#{x}", ["#{x}", "Q"]), "aQbQ");
    assert_eq!(expand("#{name}", ["#{name}", "_7"]), "_7");
    assert_eq!(expand("no placeholder", ["#{name}", "_7"]), "no placeholder");
    assert_eq!(expand("", ["#{name}", "_7"]), "");
    assert_eq!(expand("#{main}", ["#{main}", ""]), "");
    assert_eq!(expand("x#{nam", ["#{name}", "_7"]), "x#{nam");
}

#[test]
fn expand_finds_occurrences_from_the_left_without_overlap() {
    assert_eq!(expand("aaaa", ["aa", "b"]), "bb");
    assert_eq!(expand("aaa", ["aa", "b"]), "ba");
    assert_eq!(expand("ababa", ["aba", "X"]), "Xba");
    assert_eq!(expand("abc", ["b", "bb"]), "abbc");
}

#[test]
fn expand_with_an_empty_placeholder() {
    assert_eq!(expand("abc", ["", "-"]), "-a-b-c-");
    assert_eq!(expand("", ["", "-"]), "-");
}

#[test]
fn expand_agrees_with_str_replace() {
    let texts = ["", "a", "#{name} and #{name}", "ééé€", "aXbXc", "XX", "好#{main}好"];
    let patterns = ["", "X", "#{name}", "é", "#{main}", "好"];
    let replacements = ["", "Y", "€€", "#{name}"];
    for text in texts {
        for from in patterns {
            for to in replacements {
                assert_eq!(expand(text, [from, to]), text.replace(from, to));
            }
        }
    }
}

#[test]
fn text_helpers() {
    assert_eq!(chars_of("aé€"), vec!['a', 'é', '€']);
    assert_eq!(chars_of(""), Vec::<char>::new());
    let mut out = vec!['x'];
    push_all(&mut out, &vec!['y', 'z']);
    assert_eq!(out, vec!['x', 'y', 'z']);
    let s = chars_of("hello");
    assert!(starts_at(&s, 2, &chars_of("llo")));
    assert!(!starts_at(&s, 3, &chars_of("llo")));
    assert!(!starts_at(&s, 2, &chars_of("lloo")));
    assert!(starts_at(&s, 5, &chars_of("")));
    assert!(!starts_at(&s, 6, &chars_of("")));
}

#[test]
fn decimal_numerals() {
    for n in [0usize, 1, 9, 10, 11, 99, 100, 101, 12345, 1000000, usize::MAX] {
        let mut out = Vec::new();
        push_decimal(&mut out, n);
        assert_eq!(out.iter().collect::<String>(), n.to_string());
        assert_eq!(name_of(n), format!("_{n}"));
    }
    assert_eq!(name_of(0), "_0");
    assert_eq!(name_of(8096), "_8096");
}

#[test]
fn workspace_files_without_manifest() {
    let files = workspace_files(42, None, "async |x| x", &templates()).unwrap();
    assert_eq!(files.name, "_42");
    assert_eq!(files.module, "import { main } from './pkg/_42.js'; // _42");
    assert_eq!(files.library, "pub async fn main() { (async |x| x)().await }");
    assert_eq!(
        files.manifest,
        "[package]\nname = \"_42\"\nversion = \"0.1.0\"\n\n[dependencies]\nwasm-bindgen = \"0.2\"\n"
    );
}

#[test]
fn workspace_files_with_manifest() {
    let mut dependencies = Table::new();
    dependencies.insert("serde".to_string(), Value::String("1".to_string()));
    let mut manifest = Table::new();
    manifest.insert("dependencies".to_string(), Value::Table(dependencies));
    let files = workspace_files(3, Some(manifest), "body", &templates()).unwrap();
    let written: Table = files.manifest.parse().unwrap();
    let expected: Table =
        "[package]\nname = \"_3\"\nversion = \"0.1.0\"\n[dependencies]\nwasm-bindgen = \"0.2\"\nserde = \"1\"\n"
            .parse()
            .unwrap();
    assert_eq!(written, expected);
    assert_eq!(files.manifest, expected.to_string());
}

#[test]
fn workspace_files_fail_on_a_conflict_or_a_bad_template() {
    let mut package = Table::new();
    package.insert("name".to_string(), Value::Table(Table::new()));
    let mut manifest = Table::new();
    manifest.insert("package".to_string(), Value::Table(package));
    match workspace_files(3, Some(manifest), "body", &templates()) {
        Err(Error::Compiler(message)) => assert_eq!(
            message,
            "cannot merge manifests: cannot merge table and non-table values"
        ),
        _ => panic!("a table over a value must fail"),
    }
    let broken = Templates { manifest: "name = #{nam}".to_string(), ..templates() };
    match workspace_files(3, Some(Table::new()), "body", &broken) {
        Err(Error::Internal(message)) => {
            assert_eq!(message, "name = #{nam}".parse::<Table>().unwrap_err().to_string())
        }
        _ => panic!("a template that is no TOML must fail"),
    }
    assert_eq!(workspace_files(3, None, "body", &broken).unwrap().manifest, "name = #{nam}");
}

#[test]
fn commands() {
    let build = build_command("crates/_1/template");
    assert_eq!(build.program, "wasm-pack");
    assert_eq!(build.args, ["build", "--target", "nodejs", "crates/_1/template"]);
    let run = run_command("crates/_1/template", "{\"a\":1}", Some("token"));
    assert_eq!(run.program, "node");
    assert_eq!(run.args, ["crates/_1/template/mod.mjs", "{\"a\":1}", "token"]);
    let run = run_command("w", "null", None);
    assert_eq!(run.args, ["w/mod.mjs", "null", ""]);
}

#[test]
fn plan_lays_out_the_job() {
    let start = plan("/srv/crates", 7, call(None, "async |x| x", "\"Hi\"", None), &templates())
        .unwrap();
    assert_eq!(start.directory, "/srv/crates/_7");
    assert_eq!(start.workspace, "/srv/crates/_7/template");
    assert_eq!(start.files.name, "_7");
    assert_eq!(start.files.library, "pub async fn main() { (async |x| x)().await }");
    assert_eq!(start.build.program, "wasm-pack");
    assert_eq!(start.build.args, ["build", "--target", "nodejs", "/srv/crates/_7/template"]);
    match start.stage {
        Stage::Building { run } => {
            assert_eq!(run.program, "node");
            assert_eq!(run.args, ["/srv/crates/_7/template/mod.mjs", "\"Hi\"", ""]);
        }
        Stage::Running => panic!("a job starts with its build"),
    }
    let mut package = Table::new();
    package.insert("name".to_string(), Value::Table(Table::new()));
    let mut manifest = Table::new();
    manifest.insert("package".to_string(), Value::Table(package));
    assert!(matches!(
        plan("r", 7, call(Some(manifest), "b", "null", Some("t")), &templates()),
        Err(Error::Compiler(_))
    ));
}

#[test]
fn build_phase() {
    let mut diagnostics = b"old".to_vec();
    assert!(build_finished(output(true, b"out", b"warn"), &mut diagnostics).is_ok());
    assert_eq!(diagnostics, b"oldoutwarn");
    let mut diagnostics = b"old".to_vec();
    match build_finished(output(false, b"out", b"error[E0425]: no"), &mut diagnostics) {
        Err(Error::Compiler(text)) => assert_eq!(text, "error[E0425]: no"),
        _ => panic!("a failed build is the submission's failure"),
    }
    assert_eq!(diagnostics, b"old");
}

#[test]
fn run_phase() {
    let mut diagnostics = b"old".to_vec();
    assert_eq!(
        run_finished(output(true, "Hi world".as_bytes(), b"log"), &mut diagnostics).unwrap(),
        "Hi world"
    );
    assert_eq!(diagnostics, b"oldlog");
    let mut diagnostics = Vec::new();
    match run_finished(
        output(false, b"ignored", b"print to `std{err, out}` forbidden"),
        &mut diagnostics,
    ) {
        Err(Error::Compiler(text)) => assert_eq!(text, "print to `std{err, out}` forbidden"),
        _ => panic!("a failed run is the submission's failure"),
    }
    assert!(diagnostics.is_empty());
}

#[test]
fn output_that_is_no_text_is_a_host_fault() {
    let mut diagnostics = Vec::new();
    match run_finished(output(true, &[0xff, 0xfe], b"e"), &mut diagnostics) {
        Err(Error::Internal(text)) => {
            assert_eq!(text, "the process left output that is not valid UTF-8")
        }
        _ => panic!("output that is no text is a host fault"),
    }
    assert_eq!(diagnostics, b"e");
    assert!(matches!(failed_phase(vec![0xc0, 0x80]), Error::Internal(_)));
    assert!(matches!(failed_phase(vec![0xed, 0xa0, 0x80]), Error::Internal(_)));
    match failed_phase("é€😀".as_bytes().to_vec()) {
        Error::Compiler(text) => assert_eq!(text, "é€😀"),
        _ => panic!("valid text is the submission's failure"),
    }
}

#[test]
fn execute_in_follows_the_stages() {
    let run = run_command("w", "null", None);
    let mut stderr = Vec::new();
    let next = execute_in(Stage::Building { run }, output(true, b"o", b"e"), &mut stderr);
    assert_eq!(stderr, b"oe");
    let stage = match next {
        Next::Spawn { command, stage } => {
            assert_eq!(command.program, "node");
            assert_eq!(command.args, ["w/mod.mjs", "null", ""]);
            stage
        }
        Next::Finish { .. } => panic!("a build that succeeded is followed by the run"),
    };
    assert!(matches!(stage, Stage::Running));
    match execute_in(stage, output(true, b"7", b"!"), &mut stderr) {
        Next::Finish { result } => assert_eq!(result.unwrap(), "7"),
        Next::Spawn { .. } => panic!("the run ends the job"),
    }
    assert_eq!(stderr, b"oe!");
}

#[test]
fn execute_in_ends_the_job_when_a_phase_fails() {
    let run = run_command("w", "null", None);
    let mut stderr = b"kept".to_vec();
    match execute_in(Stage::Building { run }, output(false, b"o", b"broken"), &mut stderr) {
        Next::Finish { result: Err(Error::Compiler(text)) } => assert_eq!(text, "broken"),
        _ => panic!("a failed build ends the job"),
    }
    match execute_in(Stage::Running, output(false, b"o", b"panicked"), &mut stderr) {
        Next::Finish { result: Err(Error::Compiler(text)) } => assert_eq!(text, "panicked"),
        _ => panic!("a failed run ends the job"),
    }
    assert_eq!(stderr, b"kept");
}

#[test]
fn errors_become_responses() {
    assert_eq!(Error::Internal("disk".to_string()).respond_to(), (500, None));
    assert_eq!(
        Error::Compiler("E0425".to_string()).respond_to(),
        (422, Some("E0425".to_string()))
    );
    assert_eq!((INTERNAL_STATUS, REJECTED_STATUS), (500, 422));
    assert_eq!(Error::Internal("disk".to_string()).message(), "disk");
    assert_eq!(Error::Compiler("E0425".to_string()).message(), "E0425");
    assert!(matches!(Error::from("io".to_string()), Error::Internal(text) if text == "io"));
}
