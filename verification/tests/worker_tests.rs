use rake::response::ResponseRecord;
use rake::worker::Command;
use rake::worker::Phase;
use rake::worker::RetryPolicy;
use rake::worker::Step;
use rake::worker::Worker;
use rake::worker::WorkerEvent;

fn chunk(words: &[&str]) -> Vec<String> {
    words.iter().map(|w| w.to_string()).collect()
}

fn answer(url: &str) -> WorkerEvent {
    WorkerEvent::Response(ResponseRecord::new(200, Some(1), 1, String::from(url), String::new()))
}

fn started(policy: RetryPolicy) -> Worker {
    let mut worker = Worker::new(String::from("http://t/{}"), policy);
    let step = worker.step(WorkerEvent::Start);
    assert!(matches!(step.command, Command::FetchChunk));
    worker
}

fn sent_url(step: &Step) -> String {
    match &step.command {
        Command::Send(url) => url.clone(),
        other => panic!("expected a send, got {:?}", other),
    }
}

#[test]
fn standard_policy_is_three_attempts_a_tenth_of_a_second_apart() {
    let policy = RetryPolicy::standard();
    assert_eq!(policy.max_attempts, 3);
    assert_eq!(policy.delay_ms, 100);
    assert_eq!(RetryPolicy::default(), policy);
}

#[test]
fn new_worker_is_idle() {
    let worker = Worker::new(String::from("http://t/{}"), RetryPolicy::standard());
    assert_eq!(worker.phase(), Phase::Idle);
    assert_eq!(worker.attempts(), 0);
    assert!(!worker.is_done());
}

#[test]
fn start_asks_for_a_chunk() {
    let mut worker = Worker::new(String::from("http://t/{}"), RetryPolicy::standard());
    let step = worker.step(WorkerEvent::Start);
    assert!(matches!(step.command, Command::FetchChunk));
    assert!(step.report.is_none());
    assert_eq!(step.progress, 0);
    assert_eq!(worker.phase(), Phase::AwaitingChunk);
}

#[test]
fn exhausted_wordlist_stops_the_worker() {
    let mut worker = started(RetryPolicy::standard());
    let step = worker.step(WorkerEvent::Exhausted);
    assert!(matches!(step.command, Command::Stop));
    assert_eq!(step.progress, 0);
    assert!(worker.is_done());
    assert_eq!(worker.phase(), Phase::Done);
    let step = worker.step(WorkerEvent::Start);
    assert!(matches!(step.command, Command::Wait));
    assert!(worker.is_done());
}

#[test]
fn chunk_starts_with_its_first_payload() {
    let mut worker = started(RetryPolicy::standard());
    let step = worker.step(WorkerEvent::Chunk(chunk(&["admin", "login"])));
    assert_eq!(sent_url(&step), "http://t/admin");
    assert_eq!(step.progress, 0);
    assert_eq!(worker.phase(), Phase::AwaitingResponse);
    assert_eq!(worker.attempts(), 1);
}

#[test]
fn empty_chunk_asks_again() {
    let mut worker = started(RetryPolicy::standard());
    let step = worker.step(WorkerEvent::Chunk(Vec::new()));
    assert!(matches!(step.command, Command::FetchChunk));
    assert_eq!(step.progress, 0);
    assert_eq!(worker.phase(), Phase::AwaitingChunk);
}

#[test]
fn payloads_are_processed_in_chunk_order() {
    let mut worker = started(RetryPolicy::standard());
    let step = worker.step(WorkerEvent::Chunk(chunk(&["a", "b", "c"])));
    assert_eq!(sent_url(&step), "http://t/a");
    let step = worker.step(answer("http://t/a"));
    assert_eq!(step.progress, 1);
    assert_eq!(step.report.as_ref().map(|r| r.url.clone()), Some(String::from("http://t/a")));
    assert_eq!(sent_url(&step), "http://t/b");
    let step = worker.step(answer("http://t/b"));
    assert_eq!(step.progress, 1);
    assert_eq!(sent_url(&step), "http://t/c");
    let step = worker.step(answer("http://t/c"));
    assert_eq!(step.progress, 1);
    assert!(matches!(step.command, Command::FetchChunk));
    assert_eq!(worker.phase(), Phase::AwaitingChunk);
    assert_eq!(worker.attempts(), 0);
}

#[test]
fn failing_transport_gets_three_sends_per_payload() {
    let mut worker = started(RetryPolicy::standard());
    let mut sends: Vec<String> = Vec::new();
    let mut sleeps: Vec<u64> = Vec::new();
    let mut progress = 0u64;
    let mut step = worker.step(WorkerEvent::Chunk(chunk(&["a", "b"])));
    loop {
        progress += step.progress;
        assert!(step.report.is_none());
        match step.command {
            Command::Send(url) => {
                sends.push(url);
                step = worker.step(WorkerEvent::TransportError);
            }
            Command::Sleep(ms) => {
                sleeps.push(ms);
                step = worker.step(WorkerEvent::DelayElapsed);
            }
            Command::FetchChunk => break,
            other => panic!("unexpected {:?}", other),
        }
    }
    assert_eq!(sends, vec!["http://t/a", "http://t/a", "http://t/a", "http://t/b", "http://t/b", "http://t/b"]);
    assert_eq!(sleeps, vec![100, 100, 100, 100, 100, 100]);
    assert_eq!(progress, 2);
}

#[test]
fn every_failure_is_followed_by_the_delay() {
    let mut worker = started(RetryPolicy::standard());
    let step = worker.step(WorkerEvent::Chunk(chunk(&["a"])));
    assert_eq!(sent_url(&step), "http://t/a");
    for attempt in 1..=3u32 {
        assert_eq!(worker.attempts(), attempt);
        let step = worker.step(WorkerEvent::TransportError);
        assert!(matches!(step.command, Command::Sleep(100)));
        assert_eq!(step.progress, 0);
        assert_eq!(worker.phase(), Phase::AwaitingDelay);
        let step = worker.step(WorkerEvent::DelayElapsed);
        if attempt < 3 {
            assert_eq!(sent_url(&step), "http://t/a");
            assert_eq!(step.progress, 0);
        } else {
            assert!(matches!(step.command, Command::FetchChunk));
            assert_eq!(step.progress, 1);
            assert!(step.report.is_none());
        }
    }
}

#[test]
fn success_after_a_failure_reports_and_moves_on() {
    let mut worker = started(RetryPolicy::standard());
    worker.step(WorkerEvent::Chunk(chunk(&["a", "b"])));
    worker.step(WorkerEvent::TransportError);
    let step = worker.step(WorkerEvent::DelayElapsed);
    assert_eq!(sent_url(&step), "http://t/a");
    assert_eq!(worker.attempts(), 2);
    let step = worker.step(answer("http://t/a"));
    assert_eq!(step.progress, 1);
    assert!(step.report.is_some());
    assert_eq!(sent_url(&step), "http://t/b");
    assert_eq!(worker.attempts(), 1);
}

#[test]
fn policy_sets_attempts_and_delay() {
    let mut worker = started(RetryPolicy { max_attempts: 5, delay_ms: 250 });
    let mut step = worker.step(WorkerEvent::Chunk(chunk(&["a"])));
    let mut sends = 0;
    loop {
        match step.command {
            Command::Send(_) => {
                sends += 1;
                step = worker.step(WorkerEvent::TransportError);
            }
            Command::Sleep(ms) => {
                assert_eq!(ms, 250);
                step = worker.step(WorkerEvent::DelayElapsed);
            }
            Command::FetchChunk => break,
            other => panic!("unexpected {:?}", other),
        }
    }
    assert_eq!(sends, 5);
}

#[test]
fn a_payload_is_sent_once_even_with_no_attempts_allowed() {
    let mut worker = started(RetryPolicy { max_attempts: 0, delay_ms: 1 });
    let step = worker.step(WorkerEvent::Chunk(chunk(&["a"])));
    assert_eq!(sent_url(&step), "http://t/a");
    let step = worker.step(WorkerEvent::TransportError);
    assert!(matches!(step.command, Command::Sleep(1)));
    let step = worker.step(WorkerEvent::DelayElapsed);
    assert!(matches!(step.command, Command::FetchChunk));
    assert_eq!(step.progress, 1);
}

#[test]
fn progress_per_chunk_is_its_length_whatever_happens() {
    let outcomes: Vec<Vec<bool>> = vec![
        vec![true, true, true, true],
        vec![false, false, false, false],
        vec![true, false, true, false],
        vec![false, true, true, false],
    ];
    for pattern in outcomes {
        let mut worker = started(RetryPolicy::standard());
        let mut step = worker.step(WorkerEvent::Chunk(chunk(&["a", "b", "c", "d"])));
        let mut progress = step.progress;
        let mut reports = 0;
        let mut payload = 0usize;
        loop {
            match step.command {
                Command::Send(url) => {
                    step = if pattern[payload] { worker.step(answer(&url)) } else { worker.step(WorkerEvent::TransportError) };
                }
                Command::Sleep(_) => step = worker.step(WorkerEvent::DelayElapsed),
                Command::FetchChunk => break,
                other => panic!("unexpected {:?}", other),
            }
            progress += step.progress;
            if step.progress == 1 {
                payload += 1;
            }
            if step.report.is_some() {
                reports += 1;
            }
        }
        assert_eq!(progress, 4);
        assert_eq!(reports, pattern.iter().filter(|ok| **ok).count());
    }
}

#[test]
fn unexpected_events_change_nothing() {
    let mut worker = started(RetryPolicy::standard());
    for event in [WorkerEvent::Start, WorkerEvent::TransportError, WorkerEvent::DelayElapsed, answer("u")] {
        let step = worker.step(event);
        assert!(matches!(step.command, Command::Wait));
        assert_eq!(step.progress, 0);
        assert!(step.report.is_none());
        assert_eq!(worker.phase(), Phase::AwaitingChunk);
    }
    worker.step(WorkerEvent::Chunk(chunk(&["a"])));
    for event in [WorkerEvent::Start, WorkerEvent::Exhausted, WorkerEvent::DelayElapsed, WorkerEvent::Chunk(chunk(&["z"]))] {
        let step = worker.step(event);
        assert!(matches!(step.command, Command::Wait));
        assert_eq!(step.progress, 0);
        assert_eq!(worker.phase(), Phase::AwaitingResponse);
        assert_eq!(worker.attempts(), 1);
    }
    worker.step(WorkerEvent::TransportError);
    for event in [WorkerEvent::TransportError, answer("u"), WorkerEvent::Exhausted] {
        let step = worker.step(event);
        assert!(matches!(step.command, Command::Wait));
        assert_eq!(worker.phase(), Phase::AwaitingDelay);
    }
}

#[test]
fn second_chunk_follows_the_first() {
    let mut worker = started(RetryPolicy::standard());
    worker.step(WorkerEvent::Chunk(chunk(&["a"])));
    let step = worker.step(answer("http://t/a"));
    assert!(matches!(step.command, Command::FetchChunk));
    let step = worker.step(WorkerEvent::Chunk(chunk(&["b"])));
    assert_eq!(sent_url(&step), "http://t/b");
    let step = worker.step(answer("http://t/b"));
    assert!(matches!(step.command, Command::FetchChunk));
    let step = worker.step(WorkerEvent::Exhausted);
    assert!(matches!(step.command, Command::Stop));
    assert!(worker.is_done());
}
