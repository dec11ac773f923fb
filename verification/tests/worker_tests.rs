use songhunter::error::AppError;
use songhunter::models::{IdentifyRequest, SongMatch, TaskResult, TaskStatus};
use songhunter::routes::{check_identify_request, identify_response, task_or_not_found};
use songhunter::worker::{
    found_message_text, queued_record, Action, Event, Stage, TaskCommand, TaskRun,
    PROGRESS_CONVERTING_BITS, PROGRESS_DOWNLOADING_BITS, PROGRESS_FINISHED_BITS,
    PROGRESS_IDENTIFYING_BITS, PROGRESS_QUEUED_BITS,
};

fn song(title: &str, confidence: f32) -> SongMatch {
    SongMatch {
        rank: None,
        title: title.to_string(),
        artist: "A".to_string(),
        album: None,
        confidence_bits: confidence.to_bits(),
        provider: "x".to_string(),
        artwork_url: None,
        preview_url: None,
        isrc: None,
        duration_bits: None,
    }
}

fn saved(a: Action) -> TaskResult {
    match a {
        Action::SaveTask(r) => r,
        _ => panic!("expected a record to store"),
    }
}

#[test]
fn progress_constants_are_the_floats() {
    assert_eq!(f32::from_bits(PROGRESS_QUEUED_BITS), 0.0);
    assert_eq!(f32::from_bits(PROGRESS_DOWNLOADING_BITS), 0.1);
    assert_eq!(f32::from_bits(PROGRESS_CONVERTING_BITS), 0.3);
    assert_eq!(f32::from_bits(PROGRESS_IDENTIFYING_BITS), 0.6);
    assert_eq!(f32::from_bits(PROGRESS_FINISHED_BITS), 1.0);
}

#[test]
fn full_run_without_cache() {
    let (mut run, first) = TaskRun::start(TaskCommand { task_id: "t1".into(), url: "https://u".into() });
    let r = saved(first);
    assert_eq!(r.status, TaskStatus::Downloading);
    assert_eq!(r.message, "Baixando áudio do link...");
    match run.step(Event::Done) {
        Action::Download { url, task_id } => assert_eq!((url.as_str(), task_id.as_str()), ("https://u", "t1")),
        _ => panic!(),
    }
    let r = saved(run.step(Event::Path("./tmp/t1/a.wav".into())));
    assert_eq!((r.status, r.message.as_str()), (TaskStatus::Converting, "Convertendo áudio..."));
    match run.step(Event::Done) {
        Action::Normalize { input, .. } => assert_eq!(input, "./tmp/t1/a.wav"),
        _ => panic!(),
    }
    match run.step(Event::Path("./tmp/t1/normalized.wav".into())) {
        Action::HashAudio(p) => assert_eq!(p, "./tmp/t1/normalized.wav"),
        _ => panic!(),
    }
    match run.step(Event::Hash("h".into())) {
        Action::LookupCache(h) => assert_eq!(h, "h"),
        _ => panic!(),
    }
    let r = saved(run.step(Event::Cached(None)));
    assert_eq!((r.status, r.message.as_str()), (TaskStatus::Identifying, "Consultando provedores de música..."));
    match run.step(Event::Done) {
        Action::Identify(p) => assert_eq!(p, "./tmp/t1/normalized.wav"),
        _ => panic!(),
    }
    let answers = vec![("shazam".to_string(), vec![song("s1", 0.8)]), ("acoustid".to_string(), vec![song("s2", 0.9)])];
    match run.step(Event::Answers(answers)) {
        Action::SaveSongs { hash, songs } => {
            assert_eq!(hash, "h");
            assert_eq!(songs.len(), 2);
            assert_eq!(songs[0].title, "s2");
        }
        _ => panic!(),
    }
    let r = saved(run.step(Event::Done));
    assert_eq!(r.status, TaskStatus::Done);
    assert_eq!(r.message, "2 música(s) encontrada(s).");
    assert!(r.completed);
    assert_eq!(r.songs[1].rank, Some(2));
    match run.step(Event::Done) {
        Action::Cleanup(t) => assert_eq!(t, "t1"),
        _ => panic!(),
    }
    assert!(matches!(run.step(Event::Done), Action::Finish));
    assert!(matches!(run.stage, Stage::Finished));
}

#[test]
fn cache_hit_finishes_early() {
    let (mut run, _) = TaskRun::start(TaskCommand { task_id: "t".into(), url: "u".into() });
    run.step(Event::Done);
    run.step(Event::Path("raw".into()));
    run.step(Event::Done);
    run.step(Event::Path("wav".into()));
    run.step(Event::Hash("h".into()));
    let r = saved(run.step(Event::Cached(Some(vec![song("c", 0.5)]))));
    assert_eq!((r.status, r.message.as_str(), r.songs.len()), (TaskStatus::Done, "Resultado do cache", 1));
    assert!(matches!(run.step(Event::Done), Action::Cleanup(_)));
}

#[test]
fn failure_stores_an_error() {
    let (mut run, _) = TaskRun::start(TaskCommand { task_id: "t".into(), url: "u".into() });
    run.step(Event::Done);
    let r = saved(run.step(Event::Failed("download failed: boom".into())));
    assert_eq!(r.status, TaskStatus::Error);
    assert_eq!(r.message, "download failed: boom");
    assert_eq!(f32::from_bits(r.progress_bits), 1.0);
    assert!(r.completed);
    assert!(matches!(run.step(Event::Failed("db".into())), Action::Finish));
}

#[test]
fn nothing_found_message() {
    assert_eq!(found_message_text(0), "Nenhuma música identificada.");
    assert_eq!(found_message_text(4), "4 música(s) encontrada(s).");
}

#[test]
fn identify_endpoint_decisions() {
    match check_identify_request(&IdentifyRequest { url: String::new() }) {
        Err(e) => {
            assert_eq!(e.status_code(), 400);
            assert_eq!(e.message(), "invalid url: URL vazia");
        }
        Ok(()) => panic!(),
    }
    assert!(check_identify_request(&IdentifyRequest { url: "https://x".into() }).is_ok());
    let r = identify_response("id".into());
    assert_eq!((r.task_id.as_str(), r.status), ("id", TaskStatus::Queued));
    assert_eq!(r.status.wire_name(), "queued");
    let q = queued_record(&"id".to_string());
    assert_eq!((q.status, q.message.as_str(), q.completed), (TaskStatus::Queued, "Na fila...", false));
}

#[test]
fn result_endpoint_decisions() {
    assert_eq!(task_or_not_found("a".into(), Some(5)).ok(), Some(5));
    match task_or_not_found::<u8>("a".into(), None) {
        Err(e) => {
            assert_eq!(e.status_code(), 404);
            assert_eq!(e.message(), "task not found: a");
        }
        Ok(_) => panic!(),
    }
}

#[test]
fn error_texts_and_statuses() {
    let cases = vec![
        (AppError::Download("x".into()), "download failed: x", 500),
        (AppError::Conversion("x".into()), "audio conversion failed: x", 500),
        (AppError::Identification("x".into()), "identification failed: x", 500),
        (AppError::Internal("x".into()), "internal error: x", 500),
    ];
    for (e, text, code) in cases {
        assert_eq!(e.message(), text);
        assert_eq!(e.status_code(), code);
    }
    assert_eq!(TaskStatus::default(), TaskStatus::Queued);
    assert_eq!(TaskStatus::Identifying.wire_name(), "identifying");
}
