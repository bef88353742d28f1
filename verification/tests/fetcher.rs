use alex_fetcher::date::Date;
use alex_fetcher::fetcher::extract_url;
use alex_fetcher::fetcher::found;
use alex_fetcher::fetcher::get_end;
use alex_fetcher::fetcher::Action;
use alex_fetcher::fetcher::Event;
use alex_fetcher::fetcher::Extension;
use alex_fetcher::fetcher::FetchError;
use alex_fetcher::fetcher::MAX_PAGE;
use alex_fetcher::fetcher::Phase;
use alex_fetcher::fetcher::Stage;

fn date(year: i32, month: u32, day: u32) -> Date {
    Date::new(year, month, day).unwrap()
}

fn page(src: &str, day: &str) -> String {
    format!(
        "<html><body><div class=\"strip\"><img src=\"{}\" alt=\"x\"></div>\
         <div class=\"date\"><h2>{}</h2></div></body></html>",
        src, day
    )
}

fn downloading() -> Stage {
    let (stage, _) = Stage::begin(1);
    let (stage, _) = stage.step(Event::Page(page("/a.png", "Tuesday, 5 March 2019")));
    assert!(matches!(stage, Stage::Downloading { .. }));
    stage
}

fn reading() -> Stage {
    let (stage, _) = downloading().step(Event::Head(Some(b"image/png".to_vec())));
    let (stage, _) = stage.step(Event::Opened);
    assert!(matches!(stage, Stage::Storing { phase: Phase::Reading, .. }));
    stage
}

#[test]
fn content_type_allow_list() {
    assert_eq!(get_end(b"image/jpeg"), Ok(Extension::Jpg));
    assert_eq!(get_end(b"image/jpg"), Ok(Extension::Jpg));
    assert_eq!(get_end(b"image/png"), Ok(Extension::Png));
    assert_eq!(get_end(b"image/gif"), Ok(Extension::Gif));
    assert_eq!(get_end(b"text/html"), Err(FetchError::FileType));
}

#[test]
fn content_type_must_match_to_the_letter() {
    assert_eq!(get_end(b""), Err(FetchError::FileType));
    assert_eq!(get_end(b"image/"), Err(FetchError::FileType));
    assert_eq!(get_end(b"image/pn"), Err(FetchError::FileType));
    assert_eq!(get_end(b"image/png "), Err(FetchError::FileType));
    assert_eq!(get_end(b"IMAGE/PNG"), Err(FetchError::FileType));
    assert_eq!(get_end(b"image/png; charset=utf-8"), Err(FetchError::FileType));
    assert_eq!(get_end(b"image/jpe"), Err(FetchError::FileType));
    assert_eq!(get_end(b"image/jpegs"), Err(FetchError::FileType));
    assert_eq!(get_end(&[0xff, 0xfe]), Err(FetchError::FileType));
    assert_eq!(get_end(b"image/webp"), Err(FetchError::FileType));
}

#[test]
fn extension_as_str() {
    assert_eq!(Extension::Png.as_str(), "png");
    assert_eq!(Extension::Jpg.as_str(), "jpg");
    assert_eq!(Extension::Gif.as_str(), "gif");
}

#[test]
fn error_in_words() {
    assert_eq!(FetchError::Request.to_string(), "HTTP request error");
    assert_eq!(FetchError::IO.to_string(), "general IO error");
    assert_eq!(FetchError::Parse.to_string(), "parse failure");
    assert_eq!(FetchError::FileType.to_string(), "unknown file type");
}

#[test]
fn found_needs_both_parts() {
    let d = date(2019, 3, 5);
    match found(Some(String::from("/a.png")), Some(d)) {
        Ok((url, when)) => {
            assert_eq!(url.0, "/a.png");
            assert_eq!(when, d);
        }
        Err(_) => panic!("both parts were there"),
    }
    assert!(matches!(found(None, Some(d)), Err(FetchError::Parse)));
    assert!(matches!(found(Some(String::from("/a.png")), None), Err(FetchError::Parse)));
    assert!(matches!(found(None, None), Err(FetchError::Parse)));
}

#[test]
fn extract_url_reads_address_and_date() {
    let doc = page("https://example.org/strips/12.gif", "Tuesday, 5 March 2019");
    match extract_url(&doc) {
        Ok((url, when)) => {
            assert_eq!(url.0, "https://example.org/strips/12.gif");
            assert_eq!(when, date(2019, 3, 5));
        }
        Err(_) => panic!("the page holds both"),
    }
}

#[test]
fn extract_url_takes_the_first_match() {
    let doc = "<div class=\"strip\"><img src=\"/first.png\"><img src=\"/second.png\"></div>\
               <div class=\"date\"><h2>Friday, 1 January 2021</h2><h2>Tuesday, 5 March 2019</h2></div>";
    match extract_url(doc) {
        Ok((url, when)) => {
            assert_eq!(url.0, "/first.png");
            assert_eq!(when, date(2021, 1, 1));
        }
        Err(_) => panic!("the page holds both"),
    }
}

#[test]
fn extract_url_collects_the_text_of_nested_elements() {
    let doc = "<div class=\"strip\"><img src=\"/a.png\"></div>\
               <div class=\"date\"><h2>Tuesday, <b>5 March</b> 2019</h2></div>";
    match extract_url(doc) {
        Ok((_, when)) => assert_eq!(when, date(2019, 3, 5)),
        Err(_) => panic!("the page holds both"),
    }
}

#[test]
fn extract_url_fails_without_the_picture() {
    let doc = "<div class=\"date\"><h2>Tuesday, 5 March 2019</h2></div>";
    assert!(matches!(extract_url(doc), Err(FetchError::Parse)));
    let doc = "<div class=\"strip\"><img alt=\"no address\"></div>\
               <div class=\"date\"><h2>Tuesday, 5 March 2019</h2></div>";
    assert!(matches!(extract_url(doc), Err(FetchError::Parse)));
    let doc = "<div class=\"strip\"><p><img src=\"/too-deep.png\"></p></div>\
               <div class=\"date\"><h2>Tuesday, 5 March 2019</h2></div>";
    assert!(matches!(extract_url(doc), Err(FetchError::Parse)));
}

#[test]
fn extract_url_fails_without_a_date() {
    assert!(matches!(extract_url(&page("/a.png", "some day")), Err(FetchError::Parse)));
    assert!(matches!(extract_url(&page("/a.png", "2019-03-05")), Err(FetchError::Parse)));
    assert!(matches!(extract_url(&page("/a.png", "Monday, 5 March 2019")), Err(FetchError::Parse)));
    let doc = "<div class=\"strip\"><img src=\"/a.png\"></div>";
    assert!(matches!(extract_url(doc), Err(FetchError::Parse)));
    assert!(matches!(extract_url(""), Err(FetchError::Parse)));
}

#[test]
fn begin_asks_for_the_page() {
    let (stage, action) = Stage::begin(42);
    assert!(matches!(stage, Stage::Locating));
    assert!(matches!(action, Action::FetchIndex { index: 42 }));
    assert_eq!(stage.outcome(), None);
}

#[test]
fn page_leads_to_the_picture() {
    let (stage, _) = Stage::begin(1);
    let (stage, action) = stage.step(Event::Page(page("/a.png", "Tuesday, 5 March 2019")));
    match stage {
        Stage::Downloading { url, date: when } => {
            assert_eq!(url.0, "/a.png");
            assert_eq!(when, date(2019, 3, 5));
        }
        _ => panic!("the page was good"),
    }
    match action {
        Some(Action::FetchAsset { url }) => assert_eq!(url.0, "/a.png"),
        _ => panic!("the picture is to be fetched"),
    }
}

#[test]
fn bad_page_is_a_parse_failure() {
    let (stage, _) = Stage::begin(1);
    let (stage, action) = stage.step(Event::Page(String::from("<html></html>")));
    assert!(matches!(stage, Stage::Failed { reason: FetchError::Parse }));
    assert!(matches!(action, Some(Action::Stop)));
    assert_eq!(stage.outcome(), Some(Err(FetchError::Parse)));
}

#[test]
fn failed_request_for_the_page() {
    let (stage, _) = Stage::begin(1);
    let (stage, action) = stage.step(Event::RequestFailed);
    assert!(matches!(stage, Stage::Failed { reason: FetchError::Request }));
    assert!(matches!(action, Some(Action::Stop)));
}

#[test]
fn head_opens_the_file() {
    let (stage, action) = downloading().step(Event::Head(Some(b"image/jpeg".to_vec())));
    assert!(matches!(stage, Stage::Storing { phase: Phase::Opening, .. }));
    match action {
        Some(Action::Open { storer }) => {
            assert_eq!(storer.directory, "2019");
            assert_eq!(storer.file_name, "2019-03-05.jpg");
        }
        _ => panic!("the file is to be opened"),
    }
}

#[test]
fn unknown_or_missing_content_type() {
    let (stage, action) = downloading().step(Event::Head(Some(b"text/html".to_vec())));
    assert!(matches!(stage, Stage::Failed { reason: FetchError::FileType }));
    assert!(matches!(action, Some(Action::Stop)));
    let (stage, action) = downloading().step(Event::Head(None));
    assert!(matches!(stage, Stage::Failed { reason: FetchError::FileType }));
    assert!(matches!(action, Some(Action::Stop)));
}

#[test]
fn failed_request_for_the_picture() {
    let (stage, action) = downloading().step(Event::RequestFailed);
    assert!(matches!(stage, Stage::Failed { reason: FetchError::Request }));
    assert!(matches!(action, Some(Action::Stop)));
}

#[test]
fn file_that_cannot_be_opened() {
    let (stage, _) = downloading().step(Event::Head(Some(b"image/png".to_vec())));
    let (stage, action) = stage.step(Event::IoFailed);
    assert!(matches!(stage, Stage::Failed { reason: FetchError::IO }));
    assert!(matches!(action, Some(Action::Stop)));
    assert_eq!(stage.outcome(), Some(Err(FetchError::IO)));
}

#[test]
fn streaming_store() {
    let sizes = [4096usize, 4096, 13];
    let mut body: Vec<Vec<u8>> = Vec::new();
    let mut n: u8 = 0;
    for &size in sizes.iter() {
        let mut chunk = Vec::new();
        for _ in 0..size {
            chunk.push(n);
            n = n.wrapping_mul(31).wrapping_add(7);
        }
        body.push(chunk);
    }
    let mut file: Vec<u8> = Vec::new();
    let mut writes = 0;
    let mut stage = reading();
    for chunk in body.iter() {
        let (next, action) = stage.step(Event::Chunk(chunk.clone()));
        assert!(matches!(next, Stage::Storing { phase: Phase::Writing, .. }));
        match action {
            Some(Action::Write { payload }) => {
                assert_eq!(&payload, chunk);
                file.extend_from_slice(&payload);
                writes += 1;
            }
            _ => panic!("the piece is to be written"),
        }
        let (next, action) = next.step(Event::Written);
        assert!(matches!(next, Stage::Storing { phase: Phase::Reading, .. }));
        assert!(matches!(action, Some(Action::NextChunk)));
        stage = next;
    }
    let (stage, action) = stage.step(Event::End);
    assert!(matches!(action, Some(Action::Stop)));
    assert_eq!(stage.outcome(), Some(Ok(date(2019, 3, 5))));
    assert_eq!(writes, 3);
    assert_eq!(file.len(), 8205);
    assert_eq!(file, body.concat());
}

#[test]
fn empty_body_is_done_at_once() {
    let (stage, action) = reading().step(Event::End);
    assert!(matches!(stage, Stage::Done { .. }));
    assert!(matches!(action, Some(Action::Stop)));
}

#[test]
fn failure_while_storing() {
    let (stage, action) = reading().step(Event::RequestFailed);
    assert!(matches!(stage, Stage::Failed { reason: FetchError::Request }));
    assert!(matches!(action, Some(Action::Stop)));
    let (stage, _) = reading().step(Event::Chunk(vec![1, 2, 3]));
    let (stage, action) = stage.step(Event::IoFailed);
    assert!(matches!(stage, Stage::Failed { reason: FetchError::IO }));
    assert!(matches!(action, Some(Action::Stop)));
}

#[test]
fn event_that_does_not_fit_changes_nothing() {
    let (stage, _) = Stage::begin(1);
    let (stage, action) = stage.step(Event::Opened);
    assert!(matches!(stage, Stage::Locating));
    assert!(action.is_none());
    let (stage, action) = stage.step(Event::IoFailed);
    assert!(matches!(stage, Stage::Locating));
    assert!(action.is_none());
    let (stage, action) = downloading().step(Event::Chunk(vec![1]));
    assert!(matches!(stage, Stage::Downloading { .. }));
    assert!(action.is_none());
    let (stage, action) = reading().step(Event::Written);
    assert!(matches!(stage, Stage::Storing { phase: Phase::Reading, .. }));
    assert!(action.is_none());
    let (stage, action) = reading().step(Event::IoFailed);
    assert!(matches!(stage, Stage::Storing { phase: Phase::Reading, .. }));
    assert!(action.is_none());
}

#[test]
fn nothing_follows_the_end() {
    let (done, _) = reading().step(Event::End);
    let (stage, action) = done.step(Event::Chunk(vec![1]));
    assert!(matches!(stage, Stage::Done { .. }));
    assert!(action.is_none());
    let (failed, _) = reading().step(Event::RequestFailed);
    let (stage, action) = failed.step(Event::End);
    assert!(matches!(stage, Stage::Failed { reason: FetchError::Request }));
    assert!(action.is_none());
}

#[test]
fn page_limit_keeps_every_text_below_two_to_the_31() {
    assert_eq!(MAX_PAGE, 0x1fff_ffff);
    assert!((MAX_PAGE as u64) * 4 < (1u64 << 31));
}

#[test]
fn page_over_the_limit_is_a_parse_failure() {
    let mut doc = page("/a.png", "Tuesday, 5 March 2019");
    let filler = " ".repeat(MAX_PAGE + 1 - doc.len());
    doc.push_str(&filler);
    assert_eq!(doc.chars().count(), MAX_PAGE + 1);
    assert!(matches!(extract_url(&doc), Err(FetchError::Parse)));
    let (stage, _) = Stage::begin(1);
    let (stage, action) = stage.step(Event::Page(doc));
    assert!(matches!(stage, Stage::Failed { reason: FetchError::Parse }));
    assert!(matches!(action, Some(Action::Stop)));
}
