use mprvis::art::fetcher::{resolve_locator, FetchError, FetchPlan, Fetcher, FetcherExt};
use mprvis::art::{ArtAction, ArtRequest, Manager};
use mprvis::http::{parse_status_line, Response};
use mprvis::mpris::{Event, Metadata};

fn track_with_art(art: Option<&str>) -> Metadata {
    Metadata {
        title: None,
        album: None,
        artist: None,
        featured: None,
        art: art.map(|a| a.to_string()),
    }
}

#[test]
fn shortcut_locator_is_rewritten() {
    assert_eq!(
        resolve_locator("https://open.spotify.com/image/f568c1436c8a9063d21efdd901e8ce6fdc1029e3"),
        Ok("https://i.scdn.co/image/f568c1436c8a9063d21efdd901e8ce6fdc1029e3".to_string())
    );
    assert_eq!(
        resolve_locator("http://open.spotify.com/image/abc"),
        Ok("https://i.scdn.co/image/abc".to_string())
    );
}

#[test]
fn web_locator_resolves_to_itself() {
    assert_eq!(resolve_locator("https://example.com/a.png"), Ok("https://example.com/a.png".to_string()));
    assert_eq!(resolve_locator("http://example.com/a.png"), Ok("http://example.com/a.png".to_string()));
    assert_eq!(
        resolve_locator("https://open.spotify.com/track/abc"),
        Ok("https://open.spotify.com/track/abc".to_string())
    );
}

#[test]
fn other_schemes_are_refused() {
    assert_eq!(resolve_locator("file:///tmp/a.png"), Err(FetchError::UnsupportedScheme));
    assert_eq!(resolve_locator(""), Err(FetchError::UnsupportedScheme));
}

#[test]
fn track_without_art_is_refused() {
    let mut fetcher = Fetcher::new();
    assert!(matches!(fetcher.fetch(&track_with_art(None)), Err(FetchError::MissingLocator)));
    assert!(matches!(
        fetcher.fetch(&track_with_art(Some("ftp://x/y.png"))),
        Err(FetchError::UnsupportedScheme)
    ));
}

#[test]
fn first_request_downloads_the_resolved_url() {
    let mut fetcher = Fetcher::new();
    match fetcher.request("https://open.spotify.com/image/abc") {
        Ok(FetchPlan::Download(url, loc)) => {
            assert_eq!(url, "https://i.scdn.co/image/abc");
            assert_eq!(loc, "https://open.spotify.com/image/abc");
        }
        other => panic!("unexpected plan {:?}", other),
    }
}

#[test]
fn concurrent_requests_download_once() {
    let mut fetcher = Fetcher::new();
    let loc = "https://example.com/a.png".to_string();
    let first = fetcher.request(&loc);
    let second = fetcher.request(&loc);
    let third = fetcher.fetch(&track_with_art(Some(&loc)));
    assert!(matches!(first, Ok(FetchPlan::Download(_, _))));
    assert!(matches!(second, Ok(FetchPlan::Joined(_))));
    assert!(matches!(third, Ok(FetchPlan::Joined(_))));
    assert_eq!(
        fetcher.finish(&loc, Some(vec![5, 6])),
        vec![Event::ArtComplete(loc.clone(), true)]
    );
    match fetcher.request(&loc) {
        Ok(FetchPlan::Cached(evs)) => assert_eq!(
            evs,
            vec![Event::ArtChunk(loc.clone(), vec![5, 6]), Event::ArtComplete(loc.clone(), true)]
        ),
        other => panic!("unexpected plan {:?}", other),
    }
}

#[test]
fn shortcut_and_target_share_one_download() {
    let mut fetcher = Fetcher::new();
    let shortcut = "https://open.spotify.com/image/abc".to_string();
    let target = "https://i.scdn.co/image/abc".to_string();
    let first = fetcher.request(&shortcut);
    let second = fetcher.request(&target);
    assert!(matches!(first, Ok(FetchPlan::Download(_, _))));
    assert!(matches!(second, Ok(FetchPlan::Joined(_))));
    assert_eq!(
        fetcher.finish(&target, Some(vec![1, 2])),
        vec![
            Event::ArtComplete(shortcut.clone(), true),
            Event::ArtChunk(target.clone(), vec![1, 2]),
            Event::ArtComplete(target.clone(), true),
        ]
    );
}

#[test]
fn joiners_hear_of_a_failure_too() {
    let mut fetcher = Fetcher::new();
    let plain = "http://open.spotify.com/image/abc".to_string();
    let secure = "https://open.spotify.com/image/abc".to_string();
    let _ = fetcher.request(&secure);
    let _ = fetcher.request(&plain);
    let _ = fetcher.request(&plain);
    assert_eq!(
        fetcher.finish(&"https://i.scdn.co/image/abc".to_string(), None),
        vec![Event::ArtComplete(secure, false), Event::ArtComplete(plain, false)]
    );
}

#[test]
fn cached_art_is_served_without_download() {
    let mut fetcher = Fetcher::new();
    let url = "https://example.com/a.png".to_string();
    let _ = fetcher.request(&url);
    let done = fetcher.finish(&url, Some(vec![1, 2, 3]));
    assert_eq!(done, vec![Event::ArtComplete(url.clone(), true)]);
    match fetcher.request(&url) {
        Ok(FetchPlan::Cached(evs)) => assert_eq!(
            evs,
            vec![
                Event::ArtChunk(url.clone(), vec![1, 2, 3]),
                Event::ArtComplete(url.clone(), true),
            ]
        ),
        other => panic!("unexpected plan {:?}", other),
    }
}

#[test]
fn cached_art_names_the_requested_locator() {
    let mut fetcher = Fetcher::new();
    let shortcut = "https://open.spotify.com/image/abc".to_string();
    let url = "https://i.scdn.co/image/abc".to_string();
    let _ = fetcher.request(&shortcut);
    assert_eq!(fetcher.finish(&url, Some(vec![4])), vec![Event::ArtComplete(shortcut.clone(), true)]);
    match fetcher.request(&shortcut) {
        Ok(FetchPlan::Cached(evs)) => assert_eq!(
            evs,
            vec![Event::ArtChunk(shortcut.clone(), vec![4]), Event::ArtComplete(shortcut, true)]
        ),
        other => panic!("unexpected plan {:?}", other),
    }
}

#[test]
fn failed_download_leaves_no_cache_entry() {
    let mut fetcher = Fetcher::new();
    let loc = "https://open.spotify.com/image/missing".to_string();
    let url = match fetcher.request(&loc) {
        Ok(FetchPlan::Download(url, _)) => url,
        other => panic!("unexpected plan {:?}", other),
    };
    let mut response = Response::new();
    response.header_line(b"HTTP/1.1 404 Not Found\r\n");
    let ev = response.body_chunk(&loc, b"not here");
    assert_eq!(ev, Event::ArtChunk(loc.clone(), b"not here".to_vec()));
    let body = response.outcome(true);
    assert_eq!(body, None);
    assert_eq!(fetcher.finish(&url, body), vec![Event::ArtComplete(loc.clone(), false)]);
    assert!(matches!(fetcher.request(&loc), Ok(FetchPlan::Download(_, _))));
}

#[test]
fn completion_outside_a_fetch_fills_no_cache() {
    let mut fetcher = Fetcher::new();
    let url = "https://example.com/a.png".to_string();
    assert_eq!(fetcher.finish(&url, Some(vec![9])), vec![]);
    assert!(matches!(fetcher.request(&url), Ok(FetchPlan::Download(_, _))));
}

#[test]
fn status_lines_are_read() {
    assert_eq!(parse_status_line(b"HTTP/1.1 200 OK\r\n"), Some(200));
    assert_eq!(parse_status_line(b"HTTP/2 404\r\n"), Some(404));
    assert_eq!(parse_status_line(b"HTTP/1.1 301 Moved Permanently"), Some(301));
    assert_eq!(parse_status_line(b"HTTP/1.1 200"), Some(200));
    assert_eq!(parse_status_line(b"Content-Type: image/jpeg\r\n"), None);
    assert_eq!(parse_status_line(b"HTTP/1.1 2000 OK"), None);
    assert_eq!(parse_status_line(b"HTTP/1.1"), None);
    assert_eq!(parse_status_line(b""), None);
}

#[test]
fn last_status_after_redirect_decides() {
    let mut response = Response::new();
    response.header_line(b"HTTP/1.1 302 Found\r\n");
    response.header_line(b"Location: https://example.com/b.png\r\n");
    response.header_line(b"HTTP/1.1 200 OK\r\n");
    let loc = "https://example.com/b.png".to_string();
    let _ = response.body_chunk(&loc, &[1, 2]);
    let _ = response.body_chunk(&loc, &[3]);
    assert_eq!(response.outcome(true), Some(vec![1, 2, 3]));
}

#[test]
fn transport_error_fails_the_download() {
    let mut response = Response::new();
    response.header_line(b"HTTP/1.1 200 OK\r\n");
    assert_eq!(response.outcome(false), None);
    let response = Response::new();
    assert_eq!(response.outcome(true), None);
}

#[test]
fn second_fetch_after_success_hits_cache() {
    let mut manager = Manager::new();
    let loc = "https://open.spotify.com/image/abc".to_string();
    let url = "https://i.scdn.co/image/abc".to_string();
    let acts = manager.run(ArtRequest::Fetch(track_with_art(Some(&loc))));
    assert!(matches!(acts.as_slice(), [ArtAction::Download(u, l)] if *u == url && *l == loc));
    let acts = manager.run(ArtRequest::Finished(url.clone(), Some(vec![7, 8])));
    assert!(matches!(acts.as_slice(), [ArtAction::Send(Event::ArtComplete(l, true))] if *l == loc));
    let acts = manager.run(ArtRequest::Fetch(track_with_art(Some(&loc))));
    assert!(matches!(
        acts.as_slice(),
        [ArtAction::Send(Event::ArtChunk(l, b)), ArtAction::Send(Event::ArtComplete(m, true))]
            if *l == loc && *b == vec![7, 8] && *m == loc
    ));
}

#[test]
fn manager_reports_and_ignores() {
    let mut manager = Manager::new();
    assert!(manager.run(ArtRequest::Fetch(track_with_art(None))).is_empty());
    let acts = manager.run(ArtRequest::Fetch(track_with_art(Some("spotify:image:abc"))));
    assert!(matches!(acts.as_slice(), [ArtAction::Report(FetchError::UnsupportedScheme)]));
    let _ = manager.run(ArtRequest::Fetch(track_with_art(Some("https://example.com/a.png"))));
    assert!(manager.run(ArtRequest::Fetch(track_with_art(Some("https://example.com/a.png")))).is_empty());
    let acts = manager.run(ArtRequest::Finished("https://example.com/a.png".to_string(), None));
    assert!(matches!(
        acts.as_slice(),
        [ArtAction::Send(Event::ArtComplete(l, false))] if l == "https://example.com/a.png"
    ));
}
