use mtui::player::backend::{address, BUFFER_BYTES, PREFETCH_BYTES, RETRY_TIMEOUT_MS};
use mtui::player::chunked::{
    answer, body, chunk_end, exclusive_end, first_response, into_result, is_transient, parse_total,
    range_header, refuse_unless_success, transient_status, Answer, Attempts, Chunk, Cursor, Emit,
    Head, RefreshStep, Stage, StreamFault, StreamLink, Transport, Turn, CHUNK_BYTES, CONNECT_TIMEOUT_MS,
    REFRESH_WAIT_MS, REQUEST_TIMEOUT_MS,
};

#[test]
fn reads_total_size_from_content_range() {
    assert_eq!(
        parse_total(Some("bytes 0-262143/3449447")),
        Some(3_449_447)
    );
}

#[test]
fn unknown_total_is_none() {
    // A live stream has no final size, and the header says so.
    assert_eq!(parse_total(Some("bytes 0-262143/*")), None);
    assert_eq!(parse_total(None), None);
}

#[test]
fn chunks_are_capped_at_the_chunk_size() {
    assert_eq!(chunk_end(0, None), CHUNK_BYTES - 1);
    assert_eq!(chunk_end(CHUNK_BYTES, None), CHUNK_BYTES * 2 - 1);
}

/// The first fault is the one that explains the silence; the ones after it
/// are consequences of it, and reporting the last would name the wrong
/// offset in the message the user is shown.
#[test]
fn the_first_fault_is_the_one_kept() {
    let mut link = StreamLink::default();
    assert_eq!(link.fault(), None);

    link.record(StreamFault {
        status: Some(403),
        offset: 1024 * 1024,
    });
    link.record(StreamFault {
        status: None,
        offset: 2 * 1024 * 1024,
    });

    let fault = link.fault().expect("a fault was recorded");
    assert_eq!(fault.offset, 1024 * 1024);
    assert_eq!(fault.status, Some(403));
}

/// The handshake the recovery rests on: the downloader says where it is
/// stuck, the player answers with a freshly signed URL, and the same byte
/// range is asked again.
#[test]
fn a_supplied_url_answers_the_request() {
    let mut link = StreamLink::default();
    assert_eq!(link.wants_url(), None, "nothing is stuck yet");

    link.request_url(1024 * 1024);
    assert_eq!(link.wants_url(), Some(1024 * 1024));
    assert!(link.take_url().is_none(), "nothing supplied yet");

    assert!(link.supply_url("https://example.com/next.m4a"));
    let url = link.take_url().expect("the supplied URL should arrive");
    assert_eq!(url.as_str(), "https://example.com/next.m4a");
    // Taking it ends the request, so the player's next tick does not ask
    // the app to resolve the same thing all over again.
    assert_eq!(link.wants_url(), None);
}

/// A replacement can be armed before the refusal it answers, which is what
/// the resolve path does when it already knows the URL in use is capped.
/// Registering the request must not throw that answer away -- doing so
/// would spend seconds of the buffer's cushion resolving again something
/// already in hand.
#[test]
fn a_url_armed_in_advance_survives_the_request_it_answers() {
    let mut link = StreamLink::default();
    assert!(link.supply_url("https://example.com/ready.m4a"));

    // The downloader hits its refusal only now, after the answer landed.
    link.request_url(1024 * 1024);

    let url = link
        .take_url()
        .expect("the armed URL should still be there");
    assert_eq!(url.as_str(), "https://example.com/ready.m4a");
    assert_eq!(link.wants_url(), None);
}

/// A URL that will not parse is no answer at all, and must not be reported
/// as one -- the downloader would wait out its whole timeout for a second
/// answer nobody is going to send.
#[test]
fn an_unusable_url_declines_rather_than_answering() {
    let mut link = StreamLink::default();
    link.request_url(0);

    assert!(!link.supply_url("not a url"));
    assert!(link.declined());
    assert!(link.take_url().is_none());
}

/// Nothing left to try. The wait ends early rather than running out the
/// clock on an answer that has already come back empty.
#[test]
fn a_declined_request_is_visible_to_the_waiter() {
    let mut link = StreamLink::default();
    link.request_url(512);
    assert!(!link.declined());

    link.decline();
    assert!(link.declined());
}

#[test]
fn a_fault_names_the_status_and_the_offset() {
    assert_eq!(
        StreamFault {
            status: Some(403),
            offset: 1024 * 1024,
        }
        .to_text(),
        "HTTP 403 at 1.0 MiB"
    );
    // No response ever arrived, so there is no status to name.
    assert_eq!(
        StreamFault {
            status: None,
            offset: 3 * 1024 * 1024 / 2,
        }
        .to_text(),
        "connection lost at 1.5 MiB"
    );
}

/// A refusal is a fact about the URL and asking again does not change it;
/// a reset or a timeout is the network having a bad moment and costs one
/// round trip to recover from. Before this distinction both ended the
/// download outright.
#[test]
fn only_transient_faults_are_worth_retrying() {
    for status in [
        500,
        502,
        503,
        408,
    ] {
        assert!(transient_status(status), "{status} is worth asking again");
    }

    // 403 is the one that matters: it is what a lapsed signature and a
    // capped URL both answer with, and retrying it just spends the ring
    // buffer's cushion on two more refusals.
    for status in [
        403,
        404,
        401,
        410,
    ] {
        assert!(
            !transient_status(status),
            "{status} will say the same thing next time"
        );
    }
}

#[test]
fn chunks_stop_at_a_requested_limit() {
    // A bounded range must not be overshot: the limit is exclusive, so the
    // last byte fetched is limit - 1.
    assert_eq!(chunk_end(0, Some(1000)), 999);
    // A limit past the chunk size does not widen the chunk.
    assert_eq!(chunk_end(0, Some(CHUNK_BYTES * 4)), CHUNK_BYTES - 1);
}

#[test]
fn a_waiting_download_is_answered_or_gives_up() {
    let mut link = StreamLink::default();
    assert!(link.refresh(1024).is_none());
    assert!(matches!(link.poll_refresh(100), RefreshStep::Wait));
    assert!(link.supply_url("https://example.com/next.m4a"));
    match link.poll_refresh(200) {
        RefreshStep::Ready(url) => assert_eq!(url, "https://example.com/next.m4a"),
        _ => panic!("the URL was there"),
    }
    assert!(link.refresh(2048).is_none());
    assert!(matches!(
        link.poll_refresh(REFRESH_WAIT_MS),
        RefreshStep::GiveUp
    ));
    assert_eq!(link.wants_url(), None);
}

#[test]
fn urls_are_written_out_as_they_are_understood() {
    assert_eq!(
        address("HTTPS://Example.com").as_deref(),
        Ok("https://example.com/")
    );
    assert_eq!(
        address("no url").as_deref(),
        Err(&"resolved stream URL is not a valid URL".to_string())
    );
    let mut link = StreamLink::default();
    assert!(link.supply_url("HTTPS://Example.com/a b"));
    assert_eq!(link.take_url().as_deref(), Some("https://example.com/a%20b"));
}

#[test]
fn a_refusal_ends_the_response_with_its_status() {
    assert!(into_result(206).is_ok());
    assert_eq!(
        into_result(403).unwrap_err().0,
        "chunk request failed: HTTP 403 Forbidden"
    );
    assert_eq!(
        refuse_unless_success(500, "500 X").unwrap_err().0,
        "chunk request failed: HTTP 500 X"
    );
    assert_eq!(answer(416), Answer::End);
    assert_eq!(answer(403), Answer::Refused);
    assert_eq!(answer(206), Answer::Body);
}

#[test]
fn the_wait_doubles_until_the_attempts_are_spent() {
    let timeout = Transport {
        timeout: true,
        connect: false,
        request: false,
    };
    let mut attempts = Attempts::new();
    assert_eq!(attempts.note_failure(None, timeout), Some(200));
    assert_eq!(attempts.note_failure(Some(503), timeout), Some(400));
    assert_eq!(attempts.note_failure(Some(503), timeout), None);
    let mut refused = Attempts::new();
    assert_eq!(refused.note_failure(Some(403), timeout), None);
    assert!(is_transient(None, timeout));
    assert!(!is_transient(Some(404), timeout));
}

#[test]
fn chunks_follow_one_another() {
    let mut head = Head::new(0);
    head.note(Some(1000));
    let mut cursor = Cursor::after_head(head, Some(3000));
    assert_eq!(cursor.range(), Some((1000, 2999)));
    assert_eq!(cursor.settle(Chunk::Data(1500)), Emit::Bytes);
    assert_eq!(cursor.range(), Some((2500, 2999)));
    assert_eq!(cursor.settle(Chunk::Data(500)), Emit::Bytes);
    assert_eq!(cursor.range(), None);

    let mut broken = Head::new(0);
    broken.note(Some(10));
    broken.note(None);
    assert_eq!(Cursor::after_head(broken, None).range(), None);

    let mut failing = Cursor::after_head(Head::new(0), None);
    let mut link = StreamLink::default();
    assert!(failing.refused(&mut link, Some(403)).is_none());
    assert_eq!(link.wants_url(), Some(0));
    assert_eq!(link.fault().unwrap().status, Some(403));
    assert_eq!(failing.settle(Chunk::Failed(Some(403))), Emit::Error);
    assert_eq!(failing.range(), None);
}

#[test]
fn the_first_response_says_whether_more_follow() {
    assert_eq!(
        first_response(206, Some("bytes 0-9/100"), Some(10)),
        (true, Some(100))
    );
    assert_eq!(first_response(200, None, Some(10)), (false, Some(10)));
    assert_eq!(range_header(5, 9), "bytes=5-9");
    assert_eq!(exclusive_end(Some(9)), Some(10));
    assert_eq!(exclusive_end(None), None);
}

#[test]
fn the_pipeline_waits_longer_than_its_requests() {
    assert!(PREFETCH_BYTES < BUFFER_BYTES as u64);
    assert!(CONNECT_TIMEOUT_MS < REQUEST_TIMEOUT_MS);
    assert!(REQUEST_TIMEOUT_MS < RETRY_TIMEOUT_MS);
}

#[test]
fn an_empty_body_ends_the_file() {
    assert_eq!(body(0), Chunk::End);
    assert_eq!(body(1), Chunk::Data(1));
}

#[test]
fn a_refusal_is_asked_about_once() {
    let cursor = Cursor {
        next: Some(100),
        limit: Some(300),
    };
    let mut pursuit = cursor.pursue().unwrap();
    assert_eq!((pursuit.start, pursuit.end), (100, 299));
    let refused = Chunk::Failed(Some(403));
    assert_eq!(pursuit.heard(refused), Turn::Ask(Some(403)));
    assert_eq!(
        pursuit.answered(true),
        Turn::Fetch {
            start: 100,
            end: 299
        }
    );
    assert_eq!(pursuit.heard(refused), Turn::Settle(refused));
    assert_eq!(pursuit.stage, Stage::Settled);

    let mut alone = cursor.pursue().unwrap();
    alone.heard(refused);
    assert_eq!(alone.answered(false), Turn::Settle(refused));

    let mut served = cursor.pursue().unwrap();
    assert_eq!(
        served.heard(Chunk::Data(200)),
        Turn::Settle(Chunk::Data(200))
    );
    let over = Cursor {
        next: Some(300),
        limit: Some(300),
    };
    assert!(over.pursue().is_none());
}
