use api_bridge::probe::{
    candidate_bases, fallback_urls, fallback_urls_from, find_marker, probe_start, probe_step,
    ProbeCommand, ProbeError, ProbeEvent, ProbeState,
};
use api_bridge::text::str_eq;

fn attempt_url(cmd: &ProbeCommand) -> &str {
    match cmd {
        ProbeCommand::Attempt { url } => url,
        _ => panic!("expected an attempt"),
    }
}

#[test]
fn str_eq_compares_by_contents() {
    assert!(str_eq("abc", "abc"));
    assert!(!str_eq("abc", "abd"));
    assert!(!str_eq("abc", "ab"));
    assert!(str_eq("", ""));
}

#[test]
fn find_marker_reports_the_first_occurrence() {
    assert_eq!(find_marker("http://h:3000/api/x"), Some(13));
    assert_eq!(find_marker("a/api/b/api/c"), Some(1));
    assert_eq!(find_marker("/api/"), Some(0));
    assert_eq!(find_marker("http://h:3000/apix"), None);
    assert_eq!(find_marker(""), None);
    assert_eq!(find_marker("/api"), None);
}

#[test]
fn candidates_are_the_three_local_bases_in_order() {
    let c = candidate_bases();
    assert_eq!(
        c,
        vec!["http://localhost:3000", "http://127.0.0.1:3000", "http://0.0.0.0:3000"]
    );
}

#[test]
fn fallback_urls_skip_the_original_base() {
    let urls = fallback_urls("http://originalhost:3000", "/api/x");
    assert_eq!(
        urls,
        vec![
            String::from("http://localhost:3000/api/x"),
            String::from("http://127.0.0.1:3000/api/x"),
            String::from("http://0.0.0.0:3000/api/x"),
        ]
    );

    let urls = fallback_urls("http://127.0.0.1:3000", "/api/x");
    assert_eq!(
        urls,
        vec![
            String::from("http://localhost:3000/api/x"),
            String::from("http://0.0.0.0:3000/api/x"),
        ]
    );
}

#[test]
fn fallback_urls_respect_an_injected_candidate_list() {
    let cands = vec!["http://a:1", "http://b:2", "http://a:1"];
    let urls = fallback_urls_from(&cands, "http://b:2", "/api/z");
    assert_eq!(
        urls,
        vec![String::from("http://a:1/api/z"), String::from("http://a:1/api/z")]
    );
}

#[test]
fn primary_reply_decides_by_its_status() {
    let (state, cmd) = probe_start(String::from("http://localhost:3000/api/x"));
    assert_eq!(attempt_url(&cmd), "http://localhost:3000/api/x");

    let (_, cmd) = probe_step(state, ProbeEvent::Reply { success: false });
    assert!(matches!(cmd, ProbeCommand::Succeed { reachable: false }));

    let (state, _) = probe_start(String::from("http://localhost:3000/api/x"));
    let (_, cmd) = probe_step(state, ProbeEvent::Reply { success: true });
    assert!(matches!(cmd, ProbeCommand::Succeed { reachable: true }));
}

#[test]
fn fallback_walks_the_candidates_in_order_and_stops_at_first_reply() {
    let (state, cmd) = probe_start(String::from("http://originalhost:3000/api/x"));
    assert_eq!(attempt_url(&cmd), "http://originalhost:3000/api/x");

    let (state, cmd) = probe_step(state, ProbeEvent::NoReply);
    assert_eq!(attempt_url(&cmd), "http://localhost:3000/api/x");

    let (state, cmd) = probe_step(state, ProbeEvent::NoReply);
    assert_eq!(attempt_url(&cmd), "http://127.0.0.1:3000/api/x");

    // Any reply at all settles a fallback attempt, whatever its status.
    let (state, cmd) = probe_step(state, ProbeEvent::Reply { success: false });
    assert!(matches!(cmd, ProbeCommand::Succeed { reachable: true }));
    assert!(matches!(state, ProbeState::Finished));
}

#[test]
fn fallback_skips_the_candidate_equal_to_the_original_base() {
    let (state, _) = probe_start(String::from("http://localhost:3000/api/x"));
    let (_, cmd) = probe_step(state, ProbeEvent::NoReply);
    assert_eq!(attempt_url(&cmd), "http://127.0.0.1:3000/api/x");
}

#[test]
fn url_without_marker_fails_at_once_with_a_parse_error() {
    let (state, _) = probe_start(String::from("http://foo:1234/nope"));
    let (state, cmd) = probe_step(state, ProbeEvent::NoReply);
    assert!(matches!(
        cmd,
        ProbeCommand::Fail { error: ProbeError::UnparseableUrl }
    ));
    assert!(matches!(state, ProbeState::Finished));
}

#[test]
fn exhaustion_after_exactly_four_attempts() {
    let mut attempts: usize = 0;
    let (mut state, mut cmd) = probe_start(String::from("http://originalhost:3000/api/x"));
    loop {
        match cmd {
            ProbeCommand::Attempt { .. } => {
                attempts += 1;
                let r = probe_step(state, ProbeEvent::NoReply);
                state = r.0;
                cmd = r.1;
            },
            ProbeCommand::Fail { error } => {
                assert_eq!(error, ProbeError::AllAttemptsFailed);
                break;
            },
            ProbeCommand::Succeed { .. } => panic!("nothing should have answered"),
        }
    }
    assert_eq!(attempts, 4);
}
