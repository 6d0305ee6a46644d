use quic_implementation::resolve::{resolve, ResolveError};
use quic_implementation::server::{plan_request, RequestPlan};
use quic_implementation::request::response_for;

#[test]
fn resolve_plain_path() {
    let r = resolve(b"/www", b"/index.html");
    assert_eq!(r, Ok(b"/www/index.html".to_vec()));
}

#[test]
fn resolve_nested_path() {
    let r = resolve(b"/srv/files", b"/a/b/c.txt");
    assert_eq!(r, Ok(b"/srv/files/a/b/c.txt".to_vec()));
}

#[test]
fn resolve_parent_component_rejected() {
    let r = resolve(b"/www", b"/../../etc/passwd");
    assert_eq!(r, Err(ResolveError::IllegalPathComponent));
}

#[test]
fn resolve_inner_parent_component_rejected() {
    let r = resolve(b"/www", b"/a/../b");
    assert_eq!(r, Err(ResolveError::IllegalPathComponent));
}

#[test]
fn resolve_cur_dir_component_rejected() {
    let r = resolve(b"/www", b"/a/./b");
    assert_eq!(r, Err(ResolveError::IllegalPathComponent));
}

#[test]
fn resolve_relative_path_rejected() {
    let r = resolve(b"/www", b"etc/passwd");
    assert_eq!(r, Err(ResolveError::PathNotAbsolute));
}

#[test]
fn resolve_empty_path_rejected() {
    let r = resolve(b"/www", b"");
    assert_eq!(r, Err(ResolveError::PathNotAbsolute));
}

#[test]
fn resolve_same_path_twice_same_result() {
    let first = resolve(b"/www", b"/dir/file.bin");
    let second = resolve(b"/www", b"/dir/file.bin");
    assert_eq!(first, second);
    let first = resolve(b"/www", b"/../x");
    let second = resolve(b"/www", b"/../x");
    assert_eq!(first, second);
}

#[test]
fn resolve_doubled_separator_skipped() {
    let r = resolve(b"/www", b"//a///b");
    assert_eq!(r, Ok(b"/www/a/b".to_vec()));
}

#[test]
fn resolve_trailing_separator_skipped() {
    let r = resolve(b"/www", b"/a/");
    assert_eq!(r, Ok(b"/www/a".to_vec()));
}

#[test]
fn resolve_root_alone() {
    let r = resolve(b"/www", b"/");
    assert_eq!(r, Ok(b"/www".to_vec()));
}

#[test]
fn resolve_name_holding_dots_accepted() {
    // Only whole `.` and `..` segments are directory references; a name
    // that merely holds dots is plain.
    let r = resolve(b"/www", b"/..x/a..b/c.");
    assert_eq!(r, Ok(b"/www/..x/a..b/c.".to_vec()));
}

#[test]
fn plan_served_file_reads_candidate() {
    match plan_request(b"/www", b"/index.html") {
        RequestPlan::ReadFile(candidate) => assert_eq!(candidate, b"/www/index.html".to_vec()),
        RequestPlan::NotFound => panic!("expected a read plan"),
    }
    let content = b"<html>hello</html>".to_vec();
    let resp = response_for(Some(content.clone()));
    assert_eq!(resp.status, 200);
    assert_eq!(resp.body, content);
}

#[test]
fn plan_traversal_answers_not_found() {
    match plan_request(b"/www", b"/../../etc/passwd") {
        RequestPlan::ReadFile(_) => panic!("traversal must not be read"),
        RequestPlan::NotFound => {}
    }
    let resp = response_for(None);
    assert_eq!(resp.status, 404);
    assert!(resp.body.is_empty());
}

#[test]
fn two_requests_answered_independently() {
    let plan_a = plan_request(b"/www", b"/a.txt");
    let plan_b = plan_request(b"/www", b"/b.txt");
    let candidate_a = match plan_a {
        RequestPlan::ReadFile(c) => c,
        RequestPlan::NotFound => panic!("expected a read plan"),
    };
    let candidate_b = match plan_b {
        RequestPlan::ReadFile(c) => c,
        RequestPlan::NotFound => panic!("expected a read plan"),
    };
    assert_eq!(candidate_a, b"/www/a.txt".to_vec());
    assert_eq!(candidate_b, b"/www/b.txt".to_vec());
    let resp_a = response_for(Some(b"content a".to_vec()));
    let resp_b = response_for(Some(b"content b".to_vec()));
    assert_eq!(resp_a.status, 200);
    assert_eq!(resp_b.status, 200);
    assert_eq!(resp_a.body, b"content a".to_vec());
    assert_eq!(resp_b.body, b"content b".to_vec());
}
