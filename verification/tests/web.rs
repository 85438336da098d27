use mdbook_linkcheck::classify::classify;
use mdbook_linkcheck::link::{ClassifiedLink, Link};
use mdbook_linkcheck::report::{Outcome, Reason};
use mdbook_linkcheck::web::{
    judge, Action, Response, Verdict, WebConfig, WebRun, MAX_REDIRECTS, TIMEOUT_SECS, WORKERS,
};

fn text(s: &str) -> String {
    s.to_string()
}

fn link(line: usize, target: &str) -> ClassifiedLink {
    classify(Link { chapter: text("a.md"), line, target: text(target), text: None })
}

fn status(code: u16) -> Response {
    Response::Status { code, location: None }
}

fn redirect(code: u16, to: &str) -> Response {
    Response::Status { code, location: Some(text(to)) }
}

fn config(workers: usize, max_redirects: u32) -> WebConfig {
    WebConfig { follow: true, max_redirects, workers, timeout_secs: 3 }
}

fn fetch(job: usize, url: &str, timeout_secs: u64) -> Action {
    Action::Fetch { job, url: text(url), timeout_secs }
}

#[test]
fn the_usual_configuration() {
    let on = WebConfig::new(true);
    assert_eq!(
        on,
        WebConfig { follow: true, max_redirects: 5, workers: 8, timeout_secs: 10 }
    );
    assert_eq!(MAX_REDIRECTS, 5);
    assert_eq!(WORKERS, 8);
    assert_eq!(TIMEOUT_SECS, 10);
    assert!(!WebConfig::new(false).follow);
    assert_eq!(on.worker_limit(), 8);
    assert_eq!(config(0, 1).worker_limit(), 1);
}

#[test]
fn success_statuses_are_valid() {
    for code in [200u16, 204, 299, 304, 399] {
        assert_eq!(judge(status(code), 0, 5), Verdict::Settled(Outcome::Valid));
    }
}

#[test]
fn error_statuses_are_http_errors() {
    for code in [400u16, 404, 500, 503, 199, 100, 0, 600] {
        assert_eq!(
            judge(status(code), 0, 5),
            Verdict::Settled(Outcome::Broken(Reason::HttpError { status: code }))
        );
    }
}

#[test]
fn a_failed_request_is_a_network_error() {
    assert_eq!(
        judge(Response::Failed { message: text("timed out") }, 2, 5),
        Verdict::Settled(Outcome::Broken(Reason::NetworkError { message: text("timed out") }))
    );
}

#[test]
fn redirects_are_followed_up_to_the_limit() {
    assert_eq!(judge(redirect(301, "https://b/"), 0, 5), Verdict::Follow(text("https://b/")));
    assert_eq!(judge(redirect(302, "https://b/"), 4, 5), Verdict::Follow(text("https://b/")));
    assert_eq!(
        judge(redirect(302, "https://b/"), 5, 5),
        Verdict::Settled(Outcome::Broken(Reason::TooManyRedirects))
    );
    assert_eq!(
        judge(redirect(307, "https://b/"), 0, 0),
        Verdict::Settled(Outcome::Broken(Reason::TooManyRedirects))
    );
}

#[test]
fn an_address_to_go_to_counts_only_with_a_redirect_status() {
    assert_eq!(judge(redirect(200, "https://b/"), 0, 5), Verdict::Settled(Outcome::Valid));
    assert_eq!(
        judge(redirect(404, "https://b/"), 0, 5),
        Verdict::Settled(Outcome::Broken(Reason::HttpError { status: 404 }))
    );
}

#[test]
fn each_address_is_asked_for_once_however_often_it_is_linked() {
    let links = vec![
        link(1, "https://a.example/"),
        link(2, "intro.md"),
        link(3, "https://b.example/"),
        link(4, "https://a.example/"),
        link(5, "mailto:x@example.com"),
        link(6, "https://a.example/"),
        link(7, "https://b.example/"),
    ];
    let mut run = WebRun::new(config(8, 5), &links);
    assert_eq!(run.len(), 2);
    assert_eq!(run.next_action(), fetch(0, "https://a.example/", 3));
    assert_eq!(run.next_action(), fetch(1, "https://b.example/", 3));
    assert_eq!(run.next_action(), Action::Wait);
    assert!(run.on_response(0, status(200)));
    assert!(run.on_response(1, status(404)));
    assert_eq!(run.next_action(), Action::Finished);
    assert_eq!(run.next_action(), Action::Finished);
    assert_eq!(run.fetches(0), 1);
    assert_eq!(run.fetches(1), 1);
    assert_eq!(run.fetches(2), 0);
    assert_eq!(run.outcome_of("https://a.example/"), Some(Outcome::Valid));
    assert_eq!(
        run.outcome_of("https://b.example/"),
        Some(Outcome::Broken(Reason::HttpError { status: 404 }))
    );
    assert_eq!(run.outcome_of("https://c.example/"), None);
}

#[test]
fn nothing_is_asked_for_with_web_checks_off() {
    let links = vec![link(1, "https://a.example/"), link(2, "https://b.example/")];
    let mut run = WebRun::new(WebConfig::new(false), &links);
    assert_eq!(run.len(), 0);
    assert!(run.is_finished());
    assert_eq!(run.next_action(), Action::Finished);
    assert_eq!(run.outcome_of("https://a.example/"), None);
}

#[test]
fn no_more_requests_are_under_way_than_there_are_workers() {
    let links = vec![
        link(1, "https://a.example/"),
        link(2, "https://b.example/"),
        link(3, "https://c.example/"),
    ];
    let mut run = WebRun::new(config(2, 5), &links);
    assert_eq!(run.active(), 0);
    assert_eq!(run.next_action(), fetch(0, "https://a.example/", 3));
    assert_eq!(run.next_action(), fetch(1, "https://b.example/", 3));
    assert_eq!(run.active(), 2);
    assert_eq!(run.next_action(), Action::Wait);
    assert_eq!(run.active(), 2);
    assert!(run.on_response(1, status(200)));
    assert_eq!(run.active(), 1);
    assert_eq!(run.next_action(), fetch(2, "https://c.example/", 3));
    assert_eq!(run.next_action(), Action::Wait);
    assert!(!run.is_finished());
    assert!(run.on_response(0, status(200)));
    assert!(run.on_response(2, status(200)));
    assert_eq!(run.active(), 0);
    assert!(run.is_finished());
    assert_eq!(run.next_action(), Action::Finished);
}

#[test]
fn zero_workers_count_as_one() {
    let links = vec![link(1, "https://a.example/"), link(2, "https://b.example/")];
    let mut run = WebRun::new(config(0, 5), &links);
    assert_eq!(run.next_action(), fetch(0, "https://a.example/", 3));
    assert_eq!(run.next_action(), Action::Wait);
    assert!(run.on_response(0, status(200)));
    assert_eq!(run.next_action(), fetch(1, "https://b.example/", 3));
}

#[test]
fn a_redirect_is_followed_to_its_end() {
    let links = vec![link(1, "https://a.example/")];
    let mut run = WebRun::new(config(4, 5), &links);
    assert_eq!(run.next_action(), fetch(0, "https://a.example/", 3));
    assert!(run.on_response(0, redirect(301, "https://a.example/new")));
    assert_eq!(run.outcome_of("https://a.example/"), None);
    assert_eq!(run.next_action(), fetch(0, "https://a.example/new", 3));
    assert!(run.on_response(0, redirect(302, "https://b.example/")));
    assert_eq!(run.next_action(), fetch(0, "https://b.example/", 3));
    assert!(run.on_response(0, status(200)));
    assert_eq!(run.next_action(), Action::Finished);
    assert_eq!(run.outcome_of("https://a.example/"), Some(Outcome::Valid));
    assert_eq!(run.outcome_of("https://b.example/"), None);
    assert_eq!(run.fetches(0), 3);
}

#[test]
fn a_redirect_that_ends_in_an_error_is_that_error() {
    let links = vec![link(1, "https://a.example/")];
    let mut run = WebRun::new(config(4, 5), &links);
    run.next_action();
    assert!(run.on_response(0, redirect(301, "https://a.example/gone")));
    run.next_action();
    assert!(run.on_response(0, status(410)));
    assert_eq!(
        run.outcome_of("https://a.example/"),
        Some(Outcome::Broken(Reason::HttpError { status: 410 }))
    );
}

#[test]
fn redirects_without_end_are_given_up() {
    let links = vec![link(1, "https://a.example/")];
    let mut run = WebRun::new(config(4, 2), &links);
    let mut requests = 0;
    loop {
        match run.next_action() {
            Action::Fetch { job, .. } => {
                requests += 1;
                assert!(run.on_response(job, redirect(302, "https://a.example/")));
            }
            Action::Wait => panic!("nothing is under way"),
            Action::Finished => break,
        }
    }
    assert_eq!(requests, 3);
    assert_eq!(run.fetches(0), 3);
    assert_eq!(
        run.outcome_of("https://a.example/"),
        Some(Outcome::Broken(Reason::TooManyRedirects))
    );
}

#[test]
fn answers_that_nothing_waits_for_are_not_taken() {
    let links = vec![link(1, "https://a.example/")];
    let mut run = WebRun::new(config(4, 5), &links);
    assert!(!run.on_response(0, status(200)));
    assert!(!run.on_response(5, status(200)));
    assert_eq!(run.next_action(), fetch(0, "https://a.example/", 3));
    assert!(run.on_response(0, status(500)));
    assert!(!run.on_response(0, status(200)));
    assert_eq!(
        run.outcome_of("https://a.example/"),
        Some(Outcome::Broken(Reason::HttpError { status: 500 }))
    );
    assert_eq!(run.config(), config(4, 5));
}
