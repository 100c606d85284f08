use trycp_server::request::{EndpointRequest, RequestAction, RequestOutcome};
use trycp_server::rpc::ErrorKind;
use trycp_server::server::TrycpServer;
use trycp_server::server_list::{ServerInfo, ServerList};

fn info(url: &str, ram: usize) -> ServerInfo {
    ServerInfo { url: url.to_string(), ram }
}

fn urls(list: &mut ServerList) -> Vec<(String, usize)> {
    let mut out = Vec::new();
    while let Some(i) = list.pop() {
        out.push((i.url, i.ram));
    }
    out.reverse();
    out
}

#[test]
fn registry_insert_replaces_same_url() {
    let mut list = ServerList::new();
    list.insert(info("ws://a:1", 1));
    list.insert(info("ws://b:1", 2));
    list.insert(info("ws://a:1", 3));
    assert_eq!(list.len(), 2);
    assert_eq!(urls(&mut list), vec![("ws://b:1".to_string(), 2), ("ws://a:1".to_string(), 3)]);
}

#[test]
fn registry_remove_keeps_others_in_order() {
    let mut list = ServerList::new();
    list.insert(info("x", 1));
    list.insert(info("y", 2));
    list.insert(info("z", 3));
    list.remove("y");
    list.remove("nothing");
    assert_eq!(urls(&mut list), vec![("x".to_string(), 1), ("z".to_string(), 3)]);
}

#[test]
fn registry_pop_gives_most_recent() {
    let mut list = ServerList::new();
    assert_eq!(list.pop(), None);
    list.insert(info("x", 1));
    list.insert(info("y", 2));
    assert_eq!(list.pop(), Some(info("y", 2)));
    assert_eq!(list.len(), 1);
}

fn run_request(list: &mut ServerList, count: usize, answers: &[bool]) -> (RequestOutcome, Vec<String>) {
    let mut req = EndpointRequest::start(list, count);
    let mut asked = Vec::new();
    let mut k = 0;
    loop {
        match req.next_action(list) {
            RequestAction::Check(url) => {
                asked.push(url);
                req.record_check(answers[k]);
                k += 1;
            }
            RequestAction::Finished(outcome) => return (outcome, asked),
        }
    }
}

#[test]
fn request_more_than_registered_is_insufficient() {
    let mut list = ServerList::new();
    list.insert(info("a", 1));
    let (outcome, asked) = run_request(&mut list, 2, &[]);
    assert!(matches!(outcome, RequestOutcome::Insufficient));
    assert!(asked.is_empty());
    assert_eq!(list.len(), 1);
}

#[test]
fn request_keeps_only_confirmed_servers() {
    let mut list = ServerList::new();
    list.insert(info("a", 1));
    list.insert(info("b", 2));
    list.insert(info("c", 3));
    let (outcome, asked) = run_request(&mut list, 2, &[false, true]);
    assert_eq!(asked, vec!["c".to_string(), "b".to_string()]);
    match outcome {
        RequestOutcome::Endpoints(servers) => assert_eq!(servers, vec![info("b", 2)]),
        RequestOutcome::Insufficient => panic!("expected endpoints"),
    }
    assert_eq!(urls(&mut list), vec![("a".to_string(), 1)]);
}

#[test]
fn request_for_none_succeeds_empty() {
    let mut list = ServerList::new();
    list.insert(info("a", 1));
    let (outcome, asked) = run_request(&mut list, 0, &[]);
    assert!(asked.is_empty());
    assert!(matches!(outcome, RequestOutcome::Endpoints(ref v) if v.is_empty()));
    assert_eq!(list.len(), 1);
}

#[test]
fn register_checks_the_url() {
    let mut server = TrycpServer::new(1..2, "d".to_string());
    assert_eq!(server.register("ws://peer:9000".to_string(), 512), Ok("registered ws://peer:9000".to_string()));
    assert_eq!(server.registered.len(), 1);
    let err = server.register("not a url".to_string(), 1).unwrap_err();
    assert_eq!(err.kind, ErrorKind::InvalidRequest);
    assert_eq!(err.message, "unable to parse url:not a url got error: relative URL without a base");
    assert_eq!(server.registered.len(), 1);
    assert_eq!(server.register("ws://peer:9000".to_string(), 1024), Ok("registered ws://peer:9000".to_string()));
    assert_eq!(urls(&mut server.registered), vec![("ws://peer:9000".to_string(), 1024)]);
}

#[test]
fn registered_server_is_handed_out_on_request() {
    let mut server = TrycpServer::new(1..2, "d".to_string());
    server.register("ws://a:1".to_string(), 1).unwrap();
    server.register("ws://b:1".to_string(), 2).unwrap();
    let (outcome, asked) = run_request(&mut server.registered, 1, &[true]);
    assert_eq!(asked, vec!["ws://b:1".to_string()]);
    match outcome {
        RequestOutcome::Endpoints(servers) => assert_eq!(servers, vec![info("ws://b:1", 2)]),
        RequestOutcome::Insufficient => panic!("expected endpoints"),
    }
    assert_eq!(urls(&mut server.registered), vec![("ws://a:1".to_string(), 1)]);
}
