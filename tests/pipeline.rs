use errors_to_slack::channel::{Channel, ChannelConfig, ConfigError, EventAction, ExtractionError};
use errors_to_slack::extract::{extract_block, ExtractedBlock, ScanStep};
use errors_to_slack::matcher::{LineKind, LineMatcher};
use errors_to_slack::supervisor::{SetupError, Supervisor};

fn rules() -> Vec<String> {
    vec!["^Request URL: ".to_string(), "^Referer URL: ".to_string()]
}

fn rev(text: &str) -> Vec<String> {
    text.lines().rev().map(|l| l.to_string()).collect()
}

fn config(name: &str, path: &str, url: Option<&str>) -> ChannelConfig {
    ChannelConfig {
        name: name.to_string(),
        path: path.to_string(),
        endpoint: "https://hooks.example.com/T000/B000".to_string(),
        display_url: url.map(|u| u.to_string()),
    }
}

fn lines_of(b: &ExtractedBlock) -> Vec<&str> {
    b.lines.iter().map(|l| l.as_str()).collect()
}

#[test]
fn boundary_line_is_boundary() {
    let m = LineMatcher::new(rules());
    assert_eq!(m.classify("2024-01-01 10:00:00 start").unwrap(), LineKind::Boundary);
}

#[test]
fn boundary_wins_over_detail_rule() {
    let m = LineMatcher::new(vec!["^2024".to_string(), "start$".to_string()]);
    assert_eq!(m.classify("2024-01-01 10:00:00 start").unwrap(), LineKind::Boundary);
}

#[test]
fn detail_line_is_detail() {
    let m = LineMatcher::new(rules());
    assert_eq!(m.classify("Request URL: /x").unwrap(), LineKind::Detail);
    assert_eq!(m.classify("Referer URL: /z").unwrap(), LineKind::Detail);
}

#[test]
fn near_boundary_detail_is_detail() {
    let m = LineMatcher::new(vec!["^2024-01-01".to_string()]);
    // No space after the seconds: fails the timestamp prefix strictly.
    assert_eq!(m.classify("2024-01-01 10:00:00start").unwrap(), LineKind::Detail);
    assert_eq!(m.classify("2024-01-01 10:00 start").unwrap(), LineKind::Detail);
}

#[test]
fn other_line_is_unrelated() {
    let m = LineMatcher::new(rules());
    assert_eq!(m.classify("    at handler (app.js:10)").unwrap(), LineKind::Unrelated);
    assert_eq!(m.classify("").unwrap(), LineKind::Unrelated);
    assert_eq!(m.classify(" Request URL: /x").unwrap(), LineKind::Unrelated);
}

#[test]
fn no_detail_rules_only_boundary() {
    let m = LineMatcher::new(vec![]);
    assert_eq!(m.classify("Request URL: /x").unwrap(), LineKind::Unrelated);
    assert_eq!(m.classify("1999-12-31 23:59:59 end").unwrap(), LineKind::Boundary);
}

#[test]
fn invalid_detail_pattern_is_error() {
    let m = LineMatcher::new(vec!["^Request (URL".to_string()]);
    let e = m.classify("Request URL: /x").unwrap_err();
    assert_eq!(e.pattern, "^Request (URL");
    // The boundary decides first, so a boundary line never reaches it.
    assert_eq!(m.classify("2024-01-01 10:00:00 x").unwrap(), LineKind::Boundary);
}

#[test]
fn invalid_boundary_pattern_is_error() {
    let m = LineMatcher::with_boundary("[".to_string(), rules());
    let e = m.classify("Request URL: /x").unwrap_err();
    assert_eq!(e.pattern, "[");
}

#[test]
fn empty_file_gives_empty_block() {
    let m = LineMatcher::new(rules());
    let b = extract_block(&m, &Vec::new()).unwrap();
    assert!(b.lines.is_empty());
    let again = extract_block(&m, &Vec::new()).unwrap();
    assert!(again.lines.is_empty());
}

#[test]
fn unrelated_only_gives_empty_block() {
    let m = LineMatcher::new(rules());
    let b = extract_block(&m, &rev("foo\nbar\nbaz")).unwrap();
    assert!(b.lines.is_empty());
}

#[test]
fn details_then_boundary_order() {
    let m = LineMatcher::new(rules());
    let text = "2024-01-01 10:00:00 boom\nRequest URL: /one\nReferer URL: /two";
    let b = extract_block(&m, &rev(text)).unwrap();
    assert_eq!(lines_of(&b), vec!["Referer URL: /two", "Request URL: /one", "2024-01-01 10:00:00 boom"]);
}

#[test]
fn scan_stops_at_first_boundary() {
    let m = LineMatcher::new(rules());
    let text = "2024-01-01 09:00:00 old\nRequest URL: /a\n2024-01-01 10:00:00 new\nnoise\nRequest URL: /b";
    let b = extract_block(&m, &rev(text)).unwrap();
    assert_eq!(lines_of(&b), vec!["Request URL: /b", "2024-01-01 10:00:00 new"]);
    let boundaries = b.lines.iter().filter(|l| m.classify(l).unwrap() == LineKind::Boundary).count();
    assert_eq!(boundaries, 1);
}

#[test]
fn no_boundary_gives_partial_block() {
    let m = LineMatcher::new(rules());
    let b = extract_block(&m, &rev("Request URL: /a\nx\nReferer URL: /b")).unwrap();
    assert_eq!(lines_of(&b), vec!["Referer URL: /b", "Request URL: /a"]);
}

#[test]
fn extraction_reports_bad_pattern() {
    let m = LineMatcher::new(vec!["(".to_string()]);
    let e = extract_block(&m, &rev("2024-01-01 10:00:00 a\nsomething")).unwrap_err();
    assert_eq!(e.pattern, "(");
}

#[test]
fn feed_steps() {
    let m = LineMatcher::new(rules());
    let mut b = ExtractedBlock::new();
    assert_eq!(b.feed(&m, "Referer URL: /z".to_string()).unwrap(), ScanStep::Continue);
    assert_eq!(b.feed(&m, "junk".to_string()).unwrap(), ScanStep::Continue);
    assert_eq!(b.feed(&m, "2024-01-01 10:00:05 start".to_string()).unwrap(), ScanStep::Stop);
    assert_eq!(lines_of(&b), vec!["Referer URL: /z", "2024-01-01 10:00:05 start"]);
}

#[test]
fn end_to_end_render() {
    let text = "2024-01-01 10:00:00 start\nRequest URL: /x\n2024-01-01 10:00:05 start\nRequest URL: /y\nReferer URL: /z\n";
    let c = Channel::new(config("app", "/tmp/app.log", None), rules()).unwrap();
    let b = c.extract(&rev(text)).unwrap();
    assert_eq!(lines_of(&b), vec!["Referer URL: /z", "Request URL: /y", "2024-01-01 10:00:05 start"]);
    assert_eq!(c.render(&b), "app\nReferer URL: /z\nRequest URL: /y\n2024-01-01 10:00:05 start");
}

#[test]
fn render_with_display_url() {
    let c = Channel::new(config("api", "/var/log/api.log", Some("https://logs.example.com")), rules()).unwrap();
    let b = ExtractedBlock { lines: vec!["Request URL: /q".to_string(), "2024-02-02 01:02:03 err".to_string()] };
    assert_eq!(c.render(&b), "api\nhttps://logs.example.com\nRequest URL: /q\n2024-02-02 01:02:03 err");
}

#[test]
fn render_empty_block() {
    let c = Channel::new(config("app", "/tmp/app.log", None), rules()).unwrap();
    assert_eq!(c.render(&ExtractedBlock::new()), "app");
    let d = Channel::new(config("app", "/tmp/app.log", Some("u")), rules()).unwrap();
    assert_eq!(d.render(&ExtractedBlock::new()), "app\nu");
}

#[test]
fn empty_name_rejected() {
    assert_eq!(Channel::new(config("", "/tmp/a.log", None), rules()).unwrap_err(), ConfigError::EmptyName);
}

#[test]
fn respond_delivers_rendered_block() {
    let c = Channel::new(config("app", "/tmp/app.log", None), rules()).unwrap();
    let b = c.extract(&rev("2024-01-01 10:00:00 x\nRequest URL: /y")).unwrap();
    match c.respond(Ok(b)) {
        EventAction::Deliver { endpoint, text } => {
            assert_eq!(endpoint, "https://hooks.example.com/T000/B000");
            assert_eq!(text, "app\nRequest URL: /y\n2024-01-01 10:00:00 x");
        }
        EventAction::Skip { .. } => panic!("expected a delivery"),
    }
}

#[test]
fn respond_skips_failed_extraction() {
    let c = Channel::new(config("app", "/tmp/app.log", None), rules()).unwrap();
    let err = ExtractionError::Unreadable { reason: "missing".to_string() };
    match c.respond(Err(err)) {
        EventAction::Skip { error: ExtractionError::Unreadable { reason } } => assert_eq!(reason, "missing"),
        _ => panic!("expected a skip"),
    }
}

#[test]
fn channels_extract_independently() {
    let a = Channel::new(config("a", "/tmp/a.log", None), rules()).unwrap();
    let b = Channel::new(config("b", "/tmp/b.log", None), vec!["^Trace: ".to_string()]).unwrap();
    let text_a = "2024-01-01 10:00:00 a\nRequest URL: /a";
    let text_b = "2024-01-01 11:00:00 b\nTrace: t\nRequest URL: /b";
    let ba = a.extract(&rev(text_a)).unwrap();
    let bb = b.extract(&rev(text_b)).unwrap();
    let ba2 = a.extract(&rev(text_a)).unwrap();
    assert_eq!(lines_of(&ba), lines_of(&ba2));
    assert_eq!(lines_of(&ba), vec!["Request URL: /a", "2024-01-01 10:00:00 a"]);
    assert_eq!(lines_of(&bb), vec!["Trace: t", "2024-01-01 11:00:00 b"]);
}

#[test]
fn supervisor_rotates() {
    let chans = vec![
        Channel::new(config("a", "/tmp/a.log", None), rules()).unwrap(),
        Channel::new(config("b", "/tmp/b.log", None), rules()).unwrap(),
        Channel::new(config("c", "/tmp/c.log", None), rules()).unwrap(),
    ];
    let mut s = Supervisor::new(chans).unwrap();
    assert_eq!(s.len(), 3);
    let turns: Vec<usize> = (0..7).map(|_| s.next_channel().unwrap()).collect();
    assert_eq!(turns, vec![0, 1, 2, 0, 1, 2, 0]);
    assert_eq!(s.channel(1).path(), "/tmp/b.log");
}

#[test]
fn supervisor_empty() {
    let mut s = Supervisor::new(Vec::new()).unwrap();
    assert_eq!(s.next_channel(), None);
}

#[test]
fn supervisor_rejects_shared_path() {
    let chans = vec![
        Channel::new(config("a", "/tmp/a.log", None), rules()).unwrap(),
        Channel::new(config("b", "/tmp/b.log", None), rules()).unwrap(),
        Channel::new(config("c", "/tmp/a.log", None), rules()).unwrap(),
    ];
    match Supervisor::new(chans) {
        Err(e) => assert_eq!(e, SetupError::DuplicatePath { first: 0, second: 2 }),
        Ok(_) => panic!("expected a duplicate path"),
    }
}
