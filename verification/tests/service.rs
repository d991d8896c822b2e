use snippet_runner::api_handlers::CodeExecutionRequest;
use snippet_runner::cache::{FingerprintCache, CACHE_CAPACITY};
use snippet_runner::call::{respond, OK_STATUS};
use snippet_runner::script::Error;
use snippet_runner::stream::{stream, Event, Step, STREAM_CAPACITY};
use snippet_runner::worker::{Job, Worker, QUEUE_CAPACITY};
use snippet_runner::Call;

fn job(identity: usize, reply: u32) -> Job<u32> {
    Job {
        identity,
        call: Call { jwt: None, code: (None, format!("body {identity}")), data: "null".to_string() },
        reply,
    }
}

#[test]
fn identical_bodies_share_an_identity() {
    let mut cache = FingerprintCache::new(CACHE_CAPACITY);
    let first = cache.get_or_create("fn main() {}").unwrap();
    assert_eq!(cache.get_or_create("fn main() {}"), Some(first));
    assert_eq!(cache.get_or_create(&String::from("fn main() {}")), Some(first));
}

#[test]
fn differing_bodies_never_share_an_identity() {
    let mut cache = FingerprintCache::new(CACHE_CAPACITY);
    let a = cache.get_or_create("fn main() {}").unwrap();
    let b = cache.get_or_create("fn main() {} ").unwrap();
    let c = cache.get_or_create("fn main()  {}").unwrap();
    let d = cache.get_or_create("").unwrap();
    assert_eq!((a, b, c, d), (0, 1, 2, 3));
    assert_eq!(cache.get_or_create("fn main() {} "), Some(b));
    assert_eq!(cache.get_or_create("fn main() {}"), Some(a));
}

#[test]
fn identities_are_never_made_twice() {
    let mut cache = FingerprintCache::new(2);
    let mut seen = Vec::new();
    for round in 0..3 {
        for n in 0..50 {
            let id = cache.get_or_create(&format!("body {n}")).unwrap();
            if let Some((_, body)) = seen.iter().find(|(other, _)| *other == id) {
                assert_eq!(*body, n, "round {round}");
            }
            seen.push((id, n));
        }
    }
}

#[test]
fn the_count_goes_on_from_where_it_starts() {
    let mut cache = FingerprintCache::starting_at(CACHE_CAPACITY, 8096);
    assert_eq!(cache.get_or_create("a"), Some(8096));
    assert_eq!(cache.get_or_create("b"), Some(8097));
    assert_eq!(cache.get_or_create("a"), Some(8096));
}

#[test]
fn no_identity_is_made_when_the_count_has_ended() {
    let mut cache = FingerprintCache::starting_at(CACHE_CAPACITY, usize::MAX - 1);
    assert_eq!(cache.get_or_create("last"), Some(usize::MAX - 1));
    assert_eq!(cache.get_or_create("one too many"), None);
    assert_eq!(cache.get_or_create("last"), Some(usize::MAX - 1));
    assert_eq!(cache.get_or_create("one too many"), None);
}

#[test]
fn responses() {
    assert_eq!(respond(Ok("Hi world".to_string())), (200, "Hi world".to_string()));
    assert_eq!(OK_STATUS, 200);
    assert_eq!(
        respond(Err(Error::Compiler("print to `std{err, out}` forbidden".to_string()))),
        (422, "{\"rejected\": \"print to `std{err, out}` forbidden\"}".to_string())
    );
    assert_eq!(respond(Err(Error::Internal("secret path".to_string()))), (500, String::new()));
}

#[test]
fn rejections_are_json() {
    let (_, body) = respond(Err(Error::Compiler(
        "say \"hi\"\\\n\ttab\r\u{8}\u{c}\u{0}\u{1f}\u{7f} é€/".to_string(),
    )));
    assert_eq!(
        body,
        "{\"rejected\": \"say \\\"hi\\\"\\\\\\n\\ttab\\r\\b\\f\\u0000\\u001f\u{7f} é€/\"}"
    );
    let parsed: serde_json::Value = serde_json::from_str(&body).unwrap();
    assert_eq!(parsed["rejected"], "say \"hi\"\\\n\ttab\r\u{8}\u{c}\u{0}\u{1f}\u{7f} é€/");
    let (_, body) = respond(Err(Error::Compiler(String::new())));
    assert_eq!(body, "{\"rejected\": \"\"}");
}

#[test]
fn the_worker_serves_jobs_in_the_order_of_submission() {
    let mut worker: Worker<u32> = Worker::new(QUEUE_CAPACITY);
    assert!(worker.start().is_none());
    assert!(worker.submit(job(10, 1)).is_ok());
    assert!(worker.submit(job(11, 2)).is_ok());
    assert!(worker.submit(job(12, 3)).is_ok());
    let (identity, call) = worker.start().unwrap();
    assert_eq!((identity, call.code.1.as_str()), (10, "body 10"));
    assert!(worker.start().is_none());
    assert!(worker.deliver().is_none());
    assert!(worker.finish(Ok("a".to_string()), b"da".to_vec()));
    assert!(!worker.finish(Ok("again".to_string()), Vec::new()));
    assert!(worker.start().is_none());
    let delivery = worker.deliver().unwrap();
    assert_eq!(delivery.reply, 1);
    assert_eq!(delivery.outcome.unwrap(), "a");
    assert_eq!(delivery.diagnostics, b"da");
    assert!(worker.deliver().is_none());
    assert_eq!(worker.start().unwrap().0, 11);
    assert!(worker.finish(Err(Error::Compiler("no".to_string())), Vec::new()));
    let delivery = worker.deliver().unwrap();
    assert_eq!(delivery.reply, 2);
    assert!(matches!(delivery.outcome, Err(Error::Compiler(text)) if text == "no"));
    assert_eq!(worker.start().unwrap().0, 12);
    assert!(worker.finish(Ok(String::new()), Vec::new()));
    assert_eq!(worker.deliver().unwrap().reply, 3);
    assert!(worker.start().is_none());
    assert!(!worker.finish(Ok(String::new()), Vec::new()));
}

#[test]
fn a_full_queue_gives_the_job_back() {
    let mut worker: Worker<u32> = Worker::new(2);
    assert!(worker.submit(job(0, 0)).is_ok());
    assert!(worker.submit(job(1, 1)).is_ok());
    let back = worker.submit(job(2, 2)).unwrap_err();
    assert_eq!((back.identity, back.reply), (2, 2));
    assert_eq!(worker.start().unwrap().0, 0);
    assert!(worker.submit(back).is_ok());
    assert!(worker.submit(job(3, 3)).is_err());
    assert!(worker.finish(Ok(String::new()), Vec::new()));
    assert_eq!(worker.deliver().unwrap().reply, 0);
    assert_eq!(worker.start().unwrap().0, 1);
    assert!(worker.finish(Ok(String::new()), Vec::new()));
    assert_eq!(worker.deliver().unwrap().reply, 1);
    assert_eq!(worker.start().unwrap().0, 2);
    let mut none: Worker<u32> = Worker::new(0);
    assert!(none.submit(job(0, 0)).is_err());
    assert_eq!(QUEUE_CAPACITY, 32);
}

#[test]
fn a_subscriber_that_lagged_goes_on() {
    assert!(matches!(stream(Event::Message(b"Hi world".to_vec())), Step::Emit(bytes) if bytes == b"Hi world"));
    assert!(matches!(stream(Event::Lagged(1)), Step::Skip));
    assert!(matches!(stream(Event::Lagged(u64::MAX)), Step::Skip));
    assert!(matches!(stream(Event::Closed), Step::End));
    assert!(matches!(stream(Event::Shutdown), Step::End));
    assert_eq!(STREAM_CAPACITY, 1024);
    let events = vec![
        Event::Message(b"a".to_vec()),
        Event::Lagged(2000),
        Event::Message(b"b".to_vec()),
        Event::Closed,
        Event::Message(b"c".to_vec()),
    ];
    let mut handed = Vec::new();
    for event in events {
        match stream(event) {
            Step::Emit(bytes) => handed.push(bytes),
            Step::Skip => {}
            Step::End => break,
        }
    }
    assert_eq!(handed, vec![b"a".to_vec(), b"b".to_vec()]);
}

#[test]
fn a_request_holds_its_code_and_arguments() {
    let request =
        CodeExecutionRequest::new("fn main() {}".to_string(), vec!["1".to_string(), "two".to_string()]);
    assert_eq!(request.code(), "fn main() {}");
    assert_eq!(request.args(), &["1", "two"]);
}
