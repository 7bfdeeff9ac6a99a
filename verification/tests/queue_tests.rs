use epub_engine::player::{
    paragraphs_on_page, range_text, split_paragraphs, ParagraphResp, PlayerCore, PlayingState,
};
use epub_engine::layout::PageRef;
use epub_engine::tts::{
    audio_key, audio_path, check_status, event_name, outcome_event, request_step, RequestAction,
    RequestEvent, RequestState, TtsError, TtsEvent, TtsQueueState, TtsTask, CACHE_DIR_NAME,
};
use epub_engine::player::PlayerCommand;

fn task(priority: u32, book: &str, cfi: &str, text: &str) -> TtsTask {
    TtsTask {
        priority,
        book_id: book.to_string(),
        cfi_range: cfi.to_string(),
        text: text.to_string(),
        voice: None,
        rate_bits: None,
    }
}

fn drain(q: &mut TtsQueueState) -> Vec<String> {
    let mut out = Vec::new();
    while let Some(t) = q.begin_next() {
        out.push(t.text);
        q.finish();
    }
    out
}

#[test]
fn queue_serves_by_priority_then_by_arrival() {
    let mut q = TtsQueueState::new();
    q.enqueue(task(1, "b", "c1", "one"));
    q.enqueue(task(5, "b", "c2", "two"));
    q.enqueue(task(1, "b", "c3", "three"));
    q.enqueue(task(5, "b", "c4", "four"));
    q.enqueue(task(0, "b", "c5", "five"));
    assert_eq!(q.pending_len(), 5);
    assert_eq!(drain(&mut q), vec!["two", "four", "one", "three", "five"]);
    assert_eq!(q.pending_len(), 0);
    assert!(q.pop().is_none());
}

#[test]
fn queue_status_follows_the_worker() {
    let mut q = TtsQueueState::new();
    let s = q.status();
    assert_eq!((s.pending, s.is_processing, s.active), (0, false, 0));
    q.enqueue(task(0, "b", "c", "t"));
    assert_eq!(q.status().pending, 1);
    let t = q.begin_next().unwrap();
    assert_eq!(t.cfi_range, "c");
    let s = q.status();
    assert_eq!((s.pending, s.is_processing, s.active), (0, true, 1));
    q.finish();
    assert_eq!(q.status().active, 0);
    q.finish();
    assert_eq!(q.status().active, 0);
    assert!(q.begin_next().is_none());
    assert!(!q.status().is_processing);
}

#[test]
fn cancel_removes_the_tasks_of_a_passage() {
    let mut q = TtsQueueState::new();
    q.enqueue(task(1, "b1", "c1", "a"));
    q.enqueue(task(2, "b1", "c2", "b"));
    q.enqueue(task(3, "b1", "c1", "c"));
    q.enqueue(task(4, "b2", "c1", "d"));
    assert_eq!(q.cancel("b1", "c1"), 2);
    assert_eq!(q.cancel("b1", "c1"), 0);
    assert_eq!(q.pending_len(), 2);
    assert_eq!(drain(&mut q), vec!["d", "b"]);
}

#[test]
fn cancelled_passage_is_served_only_after_it_is_added_again() {
    let mut q = TtsQueueState::new();
    q.enqueue(task(9, "b", "c", "old"));
    q.enqueue(task(1, "b", "other", "keep"));
    q.cancel("b", "c");
    assert_eq!(drain(&mut q), vec!["keep"]);
    q.enqueue(task(0, "b", "c", "new"));
    assert_eq!(drain(&mut q), vec!["new"]);
}

#[test]
fn cancel_all_removes_the_tasks_of_a_book() {
    let mut q = TtsQueueState::new();
    q.enqueue(task(1, "b1", "c1", "a"));
    q.enqueue(task(2, "b2", "c2", "b"));
    q.enqueue(task(3, "b1", "c3", "c"));
    assert_eq!(q.cancel_all("b1"), 2);
    assert_eq!(q.cancel_all("b9"), 0);
    assert_eq!(drain(&mut q), vec!["b"]);
}

#[test]
fn same_passage_twice_asks_the_proxy_once() {
    let mut q = TtsQueueState::new();
    q.enqueue(task(1, "b", "c", "hello"));
    q.enqueue(task(1, "b", "c", "hello"));
    let mut cached: Vec<String> = Vec::new();
    let mut proxy_calls = 0;
    let mut ready = Vec::new();
    while let Some(t) = q.begin_next() {
        let path = audio_path("/tmp/rishi_tts", &t.book_id, &t.cfi_range);
        let mut state = RequestState::Start;
        let mut event = RequestEvent::Cached(cached.contains(&path));
        let outcome = loop {
            let (next, action) = request_step(state, event);
            state = next;
            event = match action {
                RequestAction::Succeed => break Ok(path.clone()),
                RequestAction::Fail(e) => break Err(format!("{:?}", e)),
                RequestAction::AskProxy => {
                    proxy_calls += 1;
                    RequestEvent::Response(200)
                }
                RequestAction::StoreAudio => {
                    cached.push(path.clone());
                    RequestEvent::Stored
                }
            };
        };
        assert_eq!(state, RequestState::Done);
        ready.push(outcome_event(&t, outcome));
        q.finish();
    }
    assert_eq!(proxy_calls, 1);
    assert_eq!(ready.len(), 2);
    match (&ready[0], &ready[1]) {
        (TtsEvent::AudioReady { audio_path: a, book_id, cfi_range }, TtsEvent::AudioReady { audio_path: b, .. }) => {
            assert_eq!(a, b);
            assert_eq!(book_id, "b");
            assert_eq!(cfi_range, "c");
        }
        _ => panic!("both tasks end with audio"),
    }
    assert_eq!(event_name(&ready[0]), "tts://audioReady");
}

#[test]
fn audio_is_addressed_by_book_and_location() {
    assert_eq!(audio_key("", ""), "af1349b9f5f9a1a6a0404dea36dcc9499bcb25c9adc112b7cc9a93cae41f3262");
    assert_eq!(audio_key("ab", "c"), audio_key("a", "bc"));
    assert_ne!(audio_key("ab", "c"), audio_key("ab", "d"));
    assert_eq!(audio_key("ab", "c").len(), 64);
    assert_eq!(audio_key("b", "c"), audio_key("b", "c"));
    let p = audio_path("/tmp/rishi_tts", "book7", "epubcfi(/2:0,/2:10)");
    assert_eq!(p, format!("/tmp/rishi_tts/book7/{}.mp3", audio_key("book7", "epubcfi(/2:0,/2:10)")));
    assert_eq!(CACHE_DIR_NAME, "rishi_tts");
}

#[test]
fn request_steps_and_proxy_status() {
    assert_eq!(request_step(RequestState::Start, RequestEvent::Cached(true)), (RequestState::Done, RequestAction::Succeed));
    assert_eq!(request_step(RequestState::Start, RequestEvent::Cached(false)), (RequestState::AwaitingAudio, RequestAction::AskProxy));
    assert_eq!(request_step(RequestState::AwaitingAudio, RequestEvent::Response(201)), (RequestState::AwaitingStore, RequestAction::StoreAudio));
    assert_eq!(
        request_step(RequestState::AwaitingAudio, RequestEvent::Response(404)),
        (RequestState::Done, RequestAction::Fail(TtsError::ProxyError(404)))
    );
    assert_eq!(
        request_step(RequestState::AwaitingAudio, RequestEvent::Unreachable("down".to_string())),
        (RequestState::Done, RequestAction::Fail(TtsError::Io("down".to_string())))
    );
    assert_eq!(request_step(RequestState::AwaitingStore, RequestEvent::Stored), (RequestState::Done, RequestAction::Succeed));
    assert_eq!(
        request_step(RequestState::AwaitingStore, RequestEvent::StoreFailed("full".to_string())),
        (RequestState::Done, RequestAction::Fail(TtsError::Io("full".to_string())))
    );
    assert_eq!(
        request_step(RequestState::Start, RequestEvent::Stored),
        (RequestState::Done, RequestAction::Fail(TtsError::Io(String::new())))
    );
    assert_eq!(
        request_step(RequestState::Done, RequestEvent::Response(200)),
        (RequestState::Done, RequestAction::Fail(TtsError::Io(String::new())))
    );
    assert_eq!(check_status(200), Ok(()));
    assert_eq!(check_status(204), Ok(()));
    assert_eq!(check_status(299), Ok(()));
    assert_eq!(check_status(199), Err(TtsError::ProxyError(199)));
    assert_eq!(check_status(300), Err(TtsError::ProxyError(300)));
    assert_eq!(check_status(503), Err(TtsError::ProxyError(503)));
    let t = task(0, "b", "c", "x");
    let e = outcome_event(&t, Err("proxy error: 503".to_string()));
    assert_eq!(event_name(&e), "tts://error");
    match e {
        TtsEvent::Error { book_id, cfi_range, error } => {
            assert_eq!((book_id.as_str(), cfi_range.as_str(), error.as_str()), ("b", "c", "proxy error: 503"));
        }
        _ => panic!("a failure ends with an error"),
    }
}

#[test]
fn player_walks_paragraphs_and_pages() {
    let mut p = PlayerCore::new(7);
    assert_eq!((p.book_id, p.current_page_index, p.current_paragraph_index, p.state), (7, 0, 0, PlayingState::Stopped));
    p.play();
    assert_eq!(p.state, PlayingState::Playing);
    p.next(3, 2);
    p.next(3, 2);
    assert_eq!((p.current_page_index, p.current_paragraph_index), (0, 2));
    p.next(3, 2);
    assert_eq!((p.current_page_index, p.current_paragraph_index), (1, 0));
    p.next(1, 2);
    assert_eq!((p.current_page_index, p.current_paragraph_index), (1, 0));
    p.next(0, 0);
    assert_eq!((p.current_page_index, p.current_paragraph_index), (1, 0));
    p.pause();
    assert_eq!(p.state, PlayingState::Paused);
    p.prev();
    assert_eq!((p.current_page_index, p.current_paragraph_index), (0, 0));
    p.prev();
    assert_eq!((p.current_page_index, p.current_paragraph_index), (0, 0));
    p.resume();
    assert_eq!(p.state, PlayingState::Playing);
    p.set_page(9);
    assert_eq!((p.current_page_index, p.current_paragraph_index, p.state), (9, 0, PlayingState::Playing));
    p.next(5, 20);
    p.prev();
    assert_eq!((p.current_page_index, p.current_paragraph_index), (9, 0));
    p.next(5, 20);
    p.stop();
    assert_eq!((p.current_page_index, p.current_paragraph_index, p.state), (9, 0, PlayingState::Stopped));
}

#[test]
fn player_commands() {
    let mut p = PlayerCore::new(1);
    assert!(p.apply(PlayerCommand::Play, 2, 2));
    assert!(!p.apply(PlayerCommand::Next, 2, 2));
    assert!(!p.apply(PlayerCommand::Next, 2, 2));
    assert_eq!((p.current_page_index, p.current_paragraph_index, p.state), (1, 0, PlayingState::Playing));
    assert!(!p.apply(PlayerCommand::Pause, 2, 2));
    assert!(p.apply(PlayerCommand::Resume, 2, 2));
    assert!(!p.apply(PlayerCommand::Prev, 2, 2));
    assert!(!p.apply(PlayerCommand::SetPage(4), 2, 2));
    assert!(!p.apply(PlayerCommand::Stop, 2, 2));
    assert_eq!((p.current_page_index, p.current_paragraph_index, p.state), (4, 0, PlayingState::Stopped));
}

#[test]
fn player_emits_the_current_paragraph() {
    let mut p = PlayerCore::new(3);
    let paragraphs = vec![
        ParagraphResp { text: "one".to_string(), cfi_range: "r1".to_string() },
        ParagraphResp { text: "two".to_string(), cfi_range: "r2".to_string() },
    ];
    p.next(2, 1);
    let e = p.current_event(&paragraphs).unwrap();
    assert_eq!((e.book_id, e.page_index, e.paragraph_index), (3, 0, 1));
    assert_eq!(e.text, "two");
    assert_eq!(e.cfi_range, "r2");
    assert!(p.current_event(&paragraphs[..1].iter().map(|x| ParagraphResp { text: x.text.clone(), cfi_range: x.cfi_range.clone() }).collect()).is_none());
}

#[test]
fn paragraphs_are_trimmed_lines_of_the_text() {
    let parts = split_paragraphs("<p> Hello <b>there</b> </p><p>x</p>line one<br/>line two<br />three<br>", 0);
    let texts: Vec<String> = parts.iter().map(|p| p.iter().collect()).collect();
    assert_eq!(texts, vec!["Hello there", "x", "line one", "line two", "three"]);
    let long = split_paragraphs("<p>short</p><p>long enough</p>", 6);
    assert_eq!(long.len(), 1);
    assert_eq!(long[0].iter().collect::<String>(), "long enough");
}

#[test]
fn paragraphs_are_cut_to_the_page() {
    let parts: Vec<Vec<char>> = vec!["aaaa".chars().collect(), "bbbbbb".chars().collect(), "cc".chars().collect()];
    // running index: a 0..4, b 5..11, c 12..14
    let page = PageRef { global_index: 0, spine_index: 3, start_char: 2, end_char: 8 };
    let shown = paragraphs_on_page(&parts, &page);
    assert_eq!(shown.len(), 2);
    assert_eq!(shown[0].text, "aaaa");
    assert_eq!(shown[0].cfi_range, "epubcfi(range(/3:2,/3:4))");
    assert_eq!(shown[1].text, "bbbbbb");
    assert_eq!(shown[1].cfi_range, "epubcfi(range(/3:5,/3:8))");
    let later = PageRef { global_index: 1, spine_index: 3, start_char: 11, end_char: 20 };
    let shown = paragraphs_on_page(&parts, &later);
    assert_eq!(shown.len(), 1);
    assert_eq!(shown[0].cfi_range, "epubcfi(range(/3:12,/3:14))");
    let empty = PageRef { global_index: 2, spine_index: 3, start_char: 4, end_char: 5 };
    assert!(paragraphs_on_page(&parts, &empty).is_empty());
    assert_eq!(range_text(1, 2, 3), "epubcfi(range(/1:2,/1:3))");
}
