use curl::easy::Easy;
use reqly::http::{HttpRequest, HttpResponse, Transfer, Verb};
use reqly::transport::{after_step, configure, header_list, SetupError, Step};

fn texts(items: &[&str]) -> Vec<String> {
    items.iter().map(|s| s.to_string()).collect()
}

fn items(list: &curl::easy::List) -> Vec<Vec<u8>> {
    list.iter().map(|item| item.to_vec()).collect()
}

fn transfer(url: &str, verb: Verb, headers: &[&str], body: Option<&str>) -> Transfer {
    Transfer { url: url.to_string(), verb, headers: texts(headers), body: body.map(|b| b.to_string()) }
}

#[test]
fn header_list_holds_the_lines_in_order() {
    let list = header_list(&texts(&["Content-Type: application/json", "X-A: 1", "X-A: 1", "Accept: */*"])).unwrap();
    assert_eq!(
        items(&list),
        vec![
            b"Content-Type: application/json".to_vec(),
            b"X-A: 1".to_vec(),
            b"X-A: 1".to_vec(),
            b"Accept: */*".to_vec(),
        ]
    );
}

#[test]
fn header_list_of_no_lines_is_empty() {
    let list = header_list(&Vec::new()).unwrap();
    assert_eq!(items(&list), Vec::<Vec<u8>>::new());
}

#[test]
fn header_list_keeps_empty_and_odd_lines() {
    let list = header_list(&texts(&["", "no colon", "X-Nom: café"])).unwrap();
    assert_eq!(items(&list), vec![Vec::new(), b"no colon".to_vec(), "X-Nom: café".as_bytes().to_vec()]);
}

#[test]
fn header_list_stops_at_the_first_line_with_a_zero_byte() {
    let outcome = header_list(&texts(&["A: 1", "B: \0", "C: \0"]));
    match outcome {
        Err(refusal) => {
            assert_eq!(refusal.step, Step::Header(1));
            assert!(!refusal.message().is_empty());
        }
        Ok(_) => panic!("the second line holds a zero byte"),
    }
    assert!(matches!(header_list(&texts(&["\0"])), Err(SetupError { step: Step::Header(0), .. })));
}

#[test]
fn transfer_is_set_up_for_each_verb() {
    let verbs = [Verb::Get, Verb::Post, Verb::Put, Verb::Head, Verb::Custom("PATCH".to_string())];
    for verb in verbs {
        let mut easy = Easy::new();
        let outcome = configure(&mut easy, transfer("https://api.example.com/x", verb, &["A: 1"], Some("payload")));
        assert_eq!(outcome, Ok(()));
    }
}

#[test]
fn request_with_unknown_method_is_set_up() {
    let mut easy = Easy::new();
    let request = HttpRequest {
        url: "https://api.example.com/endpoint".to_string(),
        method: "INVALID".to_string(),
        headers: vec![],
        body: None,
    };
    assert_eq!(configure(&mut easy, request.into_transfer()), Ok(()));
}

#[test]
fn exchange_with_a_stub_server() {
    let request = HttpRequest {
        url: "https://api.example.com/x".to_string(),
        method: "GET".to_string(),
        headers: vec![],
        body: None,
    };
    let transfer = request.into_transfer();
    assert_eq!(transfer, self::transfer("https://api.example.com/x", Verb::Get, &[], None));
    let mut easy = Easy::new();
    assert_eq!(configure(&mut easy, transfer), Ok(()));
    let received_headers = b"HTTP/1.1 200 OK\r\nContent-Length: 2\r\n\r\n".to_vec();
    let response = HttpResponse::from_transfer(200, received_headers, b"ok".to_vec()).unwrap();
    assert_eq!(response.status, 200);
    assert_eq!(response.body, "ok");
    assert_eq!(response.headers, texts(&["HTTP/1.1 200 OK", "Content-Length: 2"]));
}

#[test]
fn url_with_a_zero_byte_is_refused() {
    let mut easy = Easy::new();
    let outcome = configure(&mut easy, transfer("https://a\0b/", Verb::Get, &["A: \0"], None));
    assert!(matches!(outcome, Err(SetupError { step: Step::Url, .. })));
}

#[test]
fn custom_verb_with_a_zero_byte_is_refused() {
    let mut easy = Easy::new();
    let outcome = configure(&mut easy, transfer("https://a/", Verb::Custom("BR\0EW".to_string()), &[], None));
    assert!(matches!(outcome, Err(SetupError { step: Step::Verb, .. })));
}

#[test]
fn header_with_a_zero_byte_is_refused() {
    let mut easy = Easy::new();
    let outcome = configure(&mut easy, transfer("https://a/", Verb::Post, &["A: 1", "B: 2", "C\0: 3"], Some("x")));
    assert!(matches!(outcome, Err(SetupError { step: Step::Header(2), .. })));
}

#[test]
fn body_may_hold_a_zero_byte() {
    let mut easy = Easy::new();
    let outcome = configure(&mut easy, transfer("https://a/", Verb::Post, &[], Some("a\0b")));
    assert_eq!(outcome, Ok(()));
}

#[test]
fn step_that_the_transport_took_is_done() {
    for step in [Step::Url, Step::Verb, Step::Header(4), Step::Headers, Step::Body] {
        assert_eq!(after_step(step, Ok(())), Ok(()));
    }
}

#[test]
fn refused_step_is_reported_with_the_cause() {
    for step in [Step::Url, Step::Verb, Step::Header(4), Step::Headers, Step::Body] {
        let outcome = after_step(step, Err(curl::Error::new(27)));
        assert_eq!(outcome, Err(SetupError { step, cause: curl::Error::new(27) }));
    }
}

#[test]
fn setup_error_carries_the_description() {
    let cause = curl::Error::new(27);
    let text = cause.to_string();
    assert_eq!(SetupError { step: Step::Body, cause }.message(), text);
    let mut easy = Easy::new();
    let error = configure(&mut easy, transfer("\0", Verb::Get, &[], None)).unwrap_err();
    assert_eq!(error.step, Step::Url);
    assert!(error.message().starts_with("[75]"));
}
