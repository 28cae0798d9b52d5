use sipcord_bridge::fax::discord_poster::FaxPageAttachment;
use sipcord_bridge::fax::session::apply_rx_status;
use sipcord_bridge::fax::session::call_end_incomplete_reason;
use sipcord_bridge::fax::session::encode_pages;
use sipcord_bridge::fax::session::fax_dir_name;
use sipcord_bridge::fax::session::fax_file_name;
use sipcord_bridge::fax::session::fax_session_id;
use sipcord_bridge::fax::session::reading_progress;
use sipcord_bridge::fax::session::result_is_incomplete;
use sipcord_bridge::fax::session::timeout_reason_at;
use sipcord_bridge::fax::session::FailurePost;
use sipcord_bridge::fax::session::FaxInstant;
use sipcord_bridge::fax::session::FaxProgress;
use sipcord_bridge::fax::session::FaxReceiverKind;
use sipcord_bridge::fax::session::FaxSession;
use sipcord_bridge::fax::session::FaxSource;
use sipcord_bridge::fax::session::FaxState;
use sipcord_bridge::fax::session::FaxTimeoutReason;
use sipcord_bridge::fax::session::FaxUpload;
use sipcord_bridge::fax::session::OutputFormat;
use sipcord_bridge::fax::session::PostingStep;
use sipcord_bridge::fax::session::FAX_INACTIVITY_TIMEOUT_SECS;
use sipcord_bridge::fax::session::FAX_SESSION_LIMIT_SECS;
use sipcord_bridge::fax::session::NANOS_PER_SEC;
use sipcord_bridge::fax::spandsp::FaxReceiver;
use sipcord_bridge::fax::spandsp::FaxRxStatus;
use sipcord_bridge::fax::spandsp::FaxT38Receiver;
use sipcord_bridge::fax::spandsp::ReceiverReading;
use sipcord_bridge::fax::spandsp::ReceiverReport;
use sipcord_bridge::fax::tiff_decoder::DecodedFax;
use sipcord_bridge::fax::tiff_decoder::DecodedFaxPage;
use sipcord_bridge::fax::tiff_decoder::FaxPageCompleteness;
use sipcord_bridge::fax::tiff_decoder::GrayImage;
use sipcord_bridge::fax::tiff_decoder::OmittedFaxPage;
use sipcord_bridge::fax::FaxError;
use sipcord_bridge::services::snowflake::Snowflake;
use sipcord_bridge::transport::sip::CallId;

fn start() -> FaxInstant {
    FaxInstant {
        nanos: 123_456_789_012_345,
    }
}

fn after(moment: FaxInstant, secs: u64) -> FaxInstant {
    FaxInstant {
        nanos: moment.nanos + secs as u128 * NANOS_PER_SEC,
    }
}

// is_finished tests

#[test]
fn is_finished_waiting_for_data() {
    assert!(!FaxState::WaitingForData.is_finished());
}

#[test]
fn is_finished_receiving() {
    assert!(!FaxState::Receiving { pages_received: 0 }.is_finished());
}

#[test]
fn is_finished_received() {
    assert!(FaxState::Received.is_finished());
}

#[test]
fn is_finished_complete() {
    assert!(FaxState::Complete.is_finished());
}

#[test]
fn is_finished_incomplete() {
    assert!(FaxState::Incomplete.is_finished());
}

#[test]
fn is_finished_failed() {
    assert!(FaxState::Failed("err".to_string()).is_finished());
}

#[test]
fn result_outcome_combines_protocol_and_decoder_completeness() {
    let mut decoded = DecodedFax {
        pages: vec![DecodedFaxPage {
            page_number: 1,
            image: GrayImage::new(1, 1),
            completeness: FaxPageCompleteness::Complete,
        }],
        omitted_pages: Vec::new(),
    };

    assert!(!result_is_incomplete(None, &decoded));
    assert!(result_is_incomplete(Some("carrier lost"), &decoded));

    decoded.pages[0].completeness = FaxPageCompleteness::Partial {
        decoded_rows: 1100,
        declared_rows: 2200,
    };
    assert!(result_is_incomplete(None, &decoded));

    decoded.pages[0].completeness = FaxPageCompleteness::Complete;
    decoded.omitted_pages.push(OmittedFaxPage {
        page_number: 2,
        reason: "too short".to_string(),
    });
    assert!(result_is_incomplete(None, &decoded));
}

#[test]
fn call_end_after_eop_is_clean_but_other_disconnects_are_incomplete() {
    assert_eq!(call_end_incomplete_reason(1, true), None);
    assert!(call_end_incomplete_reason(1, false).is_some());
    assert!(call_end_incomplete_reason(0, true).is_some());
}

// Timeout policy tests

#[test]
fn fresh_session_is_not_timed_out() {
    let now = start();
    assert_eq!(timeout_reason_at(now, now, now), None);
}

#[test]
fn inactivity_timeout_fires_at_deadline() {
    let created_at = start();
    let now = after(created_at, FAX_INACTIVITY_TIMEOUT_SECS);
    assert_eq!(
        timeout_reason_at(created_at, created_at, now),
        Some(FaxTimeoutReason::Inactive)
    );
}

#[test]
fn progress_extends_session_past_old_five_minute_limit() {
    let created_at = start();
    let last_progress_at = after(created_at, 280);
    let now = after(created_at, 360);

    assert_eq!(timeout_reason_at(created_at, last_progress_at, now), None);
}

#[test]
fn progress_does_not_extend_hard_session_limit() {
    let created_at = start();
    let last_progress_at = after(created_at, FAX_SESSION_LIMIT_SECS - 1);
    let now = after(created_at, FAX_SESSION_LIMIT_SECS);

    assert_eq!(
        timeout_reason_at(created_at, last_progress_at, now),
        Some(FaxTimeoutReason::SessionLimit)
    );
}

#[test]
fn completed_page_is_progress() {
    let previous = FaxProgress {
        negotiation_started: true,
        pages_received: 1,
        image_length: 2200,
    };
    let current = FaxProgress {
        negotiation_started: true,
        pages_received: 2,
        image_length: 0,
    };

    assert!(current.has_advanced_from(previous));
}

#[test]
fn duplicate_progress_marker_does_not_extend_timeout() {
    let progress = FaxProgress {
        negotiation_started: true,
        pages_received: 1,
        image_length: 2200,
    };

    assert!(!progress.has_advanced_from(progress));
}

#[test]
fn advancing_rows_is_progress_before_page_completion() {
    let previous = FaxProgress {
        negotiation_started: true,
        pages_received: 0,
        image_length: 100,
    };
    let current = FaxProgress {
        image_length: 101,
        ..previous
    };

    assert!(current.has_advanced_from(previous));
}

#[test]
fn row_count_reset_at_page_boundary_is_progress() {
    let previous = FaxProgress {
        negotiation_started: true,
        pages_received: 1,
        image_length: 2200,
    };
    let current = FaxProgress {
        image_length: 0,
        ..previous
    };

    assert!(current.has_advanced_from(previous));
}

// apply_rx_status tests

#[test]
fn apply_rx_status_in_progress_on_waiting() {
    let mut state = FaxState::WaitingForData;
    let result = apply_rx_status(&mut state, FaxRxStatus::InProgress, 0);
    assert!(!result);
    assert!(matches!(state, FaxState::WaitingForData));
}

#[test]
fn apply_rx_status_in_progress_on_receiving_updates_pages() {
    let mut state = FaxState::Receiving { pages_received: 0 };
    let result = apply_rx_status(&mut state, FaxRxStatus::InProgress, 3);
    assert!(!result);
    match state {
        FaxState::Receiving { pages_received } => assert_eq!(pages_received, 3),
        _ => panic!("Expected Receiving state"),
    }
}

#[test]
fn apply_rx_status_complete_transitions_to_received() {
    let mut state = FaxState::Receiving { pages_received: 1 };
    let result = apply_rx_status(&mut state, FaxRxStatus::Complete, 1);
    assert!(result);
    assert!(matches!(state, FaxState::Received));
}

#[test]
fn apply_rx_status_error_transitions_to_recoverable_received() {
    let mut state = FaxState::WaitingForData;
    let result = apply_rx_status(&mut state, FaxRxStatus::Error("timeout".to_string()), 0);
    assert!(result);
    assert!(matches!(state, FaxState::Received));
}

#[test]
fn apply_rx_status_idempotent_on_terminal_complete() {
    // Once in Received, InProgress should not change the state
    let mut state = FaxState::Received;
    let result = apply_rx_status(&mut state, FaxRxStatus::InProgress, 0);
    assert!(!result);
    assert!(matches!(state, FaxState::Received));
}

#[test]
fn apply_rx_status_idempotent_on_terminal_failed() {
    let mut state = FaxState::Failed("original".to_string());
    let result = apply_rx_status(&mut state, FaxRxStatus::InProgress, 0);
    assert!(!result);
    match state {
        FaxState::Failed(msg) => assert_eq!(msg, "original"),
        _ => panic!("Expected Failed state"),
    }
}

// Sessions

const NOTHING_YET: ReceiverReading = ReceiverReading {
    negotiation_started: false,
    pages_received: 0,
    document_end_signaled: false,
    image_length: None,
};

fn session() -> FaxSession {
    FaxSession::new(
        CallId(4),
        Snowflake(10),
        Snowflake(11),
        "user".to_string(),
        "abc.def.ghi".to_string(),
        "/tmp/fax_1".to_string(),
        FaxReceiver {
            tiff_output_path: "/tmp/fax_1/fax_1.tiff".to_string(),
            reading: NOTHING_YET,
        },
        start(),
    )
    .unwrap()
}

fn t38_session() -> FaxSession {
    let mut session = session();
    session.switch_to_t38(
        FaxT38Receiver {
            tiff_output_path: "/tmp/t38.tiff".to_string(),
            reading: NOTHING_YET,
        },
        after(start(), 10),
    );
    session
}

fn report(status: FaxRxStatus, pages: u32, rows: Option<i32>) -> ReceiverReport {
    ReceiverReport {
        status,
        reading: ReceiverReading {
            negotiation_started: true,
            pages_received: pages,
            document_end_signaled: pages > 0,
            image_length: rows,
        },
    }
}

fn page(number: usize, completeness: FaxPageCompleteness) -> DecodedFaxPage {
    DecodedFaxPage {
        page_number: number,
        image: GrayImage::from_raw(2, 1, vec![0, 255]).unwrap(),
        completeness,
    }
}

fn whole_fax() -> DecodedFax {
    DecodedFax {
        pages: vec![
            page(1, FaxPageCompleteness::Complete),
            page(2, FaxPageCompleteness::Complete),
        ],
        omitted_pages: vec![],
    }
}

#[test]
fn a_new_session_waits_for_data() {
    let session = session();
    assert_eq!(session.call_id, CallId(4));
    assert_eq!(session.text_channel_id, Snowflake(10));
    assert_eq!(session.guild_id, Snowflake(11));
    assert_eq!(session.user_id, "user");
    assert_eq!(session.tiff_dir, "/tmp/fax_1");
    assert!(matches!(session.state, FaxState::WaitingForData));
    assert_eq!(session.source, FaxSource::G711Audio);
    assert_eq!(session.last_progress, FaxProgress::default());
    assert_eq!(session.pages_received(), 0);
    assert!(!session.negotiation_started());
    assert!(!session.document_end_signaled());
    assert!(!session.is_finished());
    assert!(!session.is_ready_to_post());
    assert!(!session.is_result_posted());
    assert!(!session.is_timed_out(start()));
    assert_eq!(session.poster.footer(), "From: @user");
}

#[test]
fn a_session_needs_a_token_in_form() {
    let refused = FaxSession::new(
        CallId(4),
        Snowflake(10),
        Snowflake(11),
        "user".to_string(),
        "no token".to_string(),
        "/tmp/fax_1".to_string(),
        FaxReceiver {
            tiff_output_path: "/tmp/fax_1/fax_1.tiff".to_string(),
            reading: NOTHING_YET,
        },
        start(),
    );
    assert!(matches!(refused, Err(FaxError::InvalidToken(_))));
}

#[test]
fn audio_reports_move_the_session_to_its_end() {
    let mut session = session();
    let seen = after(start(), 100);
    assert!(!session.feed_audio(report(FaxRxStatus::InProgress, 0, Some(12)), seen));
    assert!(matches!(session.state, FaxState::WaitingForData));
    assert_eq!(session.last_progress_at, seen);
    assert!(session.negotiation_started());

    session.post_receiving_message(Ok(77)).unwrap();
    assert!(matches!(session.state, FaxState::Receiving { pages_received: 0 }));
    assert_eq!(session.receiving_message_id, Some(77));
    assert!(!session.feed_audio(report(FaxRxStatus::InProgress, 3, Some(0)), seen));
    assert!(matches!(session.state, FaxState::Receiving { pages_received: 3 }));
    assert_eq!(session.pages_received(), 3);

    let lost = FaxRxStatus::Error("carrier lost".to_string());
    assert!(session.feed_audio(report(lost, 3, None), seen));
    assert!(session.is_ready_to_post());
    assert_eq!(
        session.pending_incomplete_reason.as_deref(),
        Some("carrier lost")
    );
    // Nothing is taken any more, and the end is reported again.
    assert_eq!(session.audio_answer(), Some(true));
    assert!(session.feed_audio(report(FaxRxStatus::InProgress, 9, None), seen));
    assert_eq!(session.pages_received(), 3);
}

#[test]
fn the_first_end_of_reception_decides() {
    let mut session = session();
    for pages in 0..5 {
        assert!(!session.feed_audio(report(FaxRxStatus::InProgress, pages, None), start()));
    }
    assert!(!session.is_finished());
    let lost = FaxRxStatus::Error("carrier lost".to_string());
    assert!(session.feed_audio(report(lost, 5, None), start()));
    let late = FaxRxStatus::Error("late".to_string());
    assert!(session.feed_audio(report(late, 6, None), start()));
    assert!(session.feed_audio(report(FaxRxStatus::Complete, 7, None), start()));
    assert!(session.is_ready_to_post());
    assert_eq!(session.pages_received(), 5);
    assert_eq!(
        session.pending_incomplete_reason.as_deref(),
        Some("carrier lost")
    );
}

#[test]
fn reports_of_the_other_mode_are_refused() {
    let mut audio = session();
    assert_eq!(audio.audio_answer(), None);
    assert_eq!(audio.t38_answer(), Some(false));
    assert!(!audio.feed_t38_ifp(report(FaxRxStatus::Complete, 1, None), start()));
    assert!(!audio.drive_t38_timer(report(FaxRxStatus::Complete, 1, None), start()));
    assert!(matches!(audio.state, FaxState::WaitingForData));
    assert_eq!(audio.pages_received(), 0);

    let mut t38 = t38_session();
    assert_eq!(t38.source, FaxSource::T38Udptl);
    assert!(matches!(t38.receiver, FaxReceiverKind::T38(_)));
    assert_eq!(t38.last_progress_at, after(start(), 10));
    assert_eq!(t38.audio_answer(), Some(false));
    assert!(!t38.feed_audio(report(FaxRxStatus::Complete, 1, None), start()));
    assert!(matches!(t38.state, FaxState::WaitingForData));
    assert!(!t38.feed_t38_ifp(report(FaxRxStatus::InProgress, 1, None), start()));
    assert!(t38.drive_t38_timer(report(FaxRxStatus::Complete, 2, None), start()));
    assert!(t38.is_ready_to_post());
    assert_eq!(t38.pages_received(), 2);
    assert_eq!(t38.pending_incomplete_reason, None);
}

#[test]
fn duplicate_reports_do_not_extend_the_deadline() {
    let mut session = session();
    let first = after(start(), 100);
    session.handle_rx_status(report(FaxRxStatus::InProgress, 1, Some(5)), first);
    session.handle_rx_status(
        report(FaxRxStatus::InProgress, 1, Some(5)),
        after(start(), 390),
    );
    assert_eq!(session.last_progress_at, first);
    assert!(!session.is_timed_out(after(start(), 399)));
    assert!(session.is_timed_out(after(start(), 400)));
    session.handle_rx_status(
        report(FaxRxStatus::InProgress, 1, Some(6)),
        after(start(), 399),
    );
    assert!(!session.is_timed_out(after(start(), 400)));
    assert!(session.is_timed_out(after(start(), FAX_SESSION_LIMIT_SECS)));
}

#[test]
fn a_clock_that_seems_to_go_back_times_nothing_out() {
    let created_at = after(start(), 5000);
    assert_eq!(timeout_reason_at(created_at, created_at, start()), None);
    let almost = FaxInstant {
        nanos: after(start(), FAX_INACTIVITY_TIMEOUT_SECS).nanos - 1,
    };
    assert_eq!(timeout_reason_at(start(), start(), almost), None);
}

#[test]
fn negative_row_counts_count_as_none() {
    let reading = |image_length| ReceiverReading {
        image_length,
        ..NOTHING_YET
    };
    assert_eq!(reading_progress(reading(Some(-4))).image_length, 0);
    assert_eq!(reading_progress(reading(None)).image_length, 0);
    assert_eq!(reading_progress(reading(Some(i32::MAX))).image_length, 2147483647);
}

#[test]
fn reception_is_finished_with_or_without_a_reason() {
    let mut session = session();
    let reading = ReceiverReading {
        pages_received: 2,
        ..NOTHING_YET
    };
    session.finish_reception(reading, Some("timed out".to_string()));
    assert!(session.is_ready_to_post());
    assert_eq!(session.pages_received(), 2);
    assert_eq!(session.pending_incomplete_reason.as_deref(), Some("timed out"));
    session.finish_reception(reading, None);
    assert_eq!(session.pending_incomplete_reason, None);
    session.post_failure("done");
    session.finish_reception(NOTHING_YET, Some("late".to_string()));
    assert!(matches!(&session.state, FaxState::Failed(reason) if reason == "done"));
    assert_eq!(session.pages_received(), 2);
    assert_eq!(session.pending_incomplete_reason, None);
}

#[test]
fn the_end_of_a_call_is_worded() {
    assert_eq!(
        call_end_incomplete_reason(0, false).as_deref(),
        Some("Caller hung up before fax completed")
    );
}

#[test]
fn a_posting_error_fails_the_session() {
    let mut session = session();
    let error = FaxError::Discord("429".to_string());
    let result = session.post_receiving_message(Err(error));
    assert!(matches!(result, Err(FaxError::Discord(_))));
    assert!(matches!(
        &session.state,
        FaxState::Failed(reason) if reason == "Discord error: Discord post failed: 429"
    ));
    assert_eq!(session.receiving_message_id, None);
}

#[test]
fn states_are_named_in_logs() {
    assert_eq!(FaxState::WaitingForData.label(), "waiting_for_data");
    assert_eq!(FaxState::Receiving { pages_received: 1 }.label(), "receiving");
    assert_eq!(FaxState::Received.label(), "received");
    assert_eq!(FaxState::Complete.label(), "complete");
    assert_eq!(FaxState::Incomplete.label(), "incomplete");
    assert_eq!(FaxState::Failed(String::new()).label(), "failed");
}

#[test]
fn posted_states_take_no_report() {
    for state in [
        FaxState::Complete,
        FaxState::Incomplete,
        FaxState::Failed("x".to_string()),
    ] {
        let mut session = session();
        session.state = state;
        let label = session.state.label();
        assert!(session.is_result_posted());
        assert!(!session.feed_audio(report(FaxRxStatus::Complete, 5, None), start()));
        assert!(!session.handle_rx_status(report(FaxRxStatus::Complete, 5, None), start()));
        assert_eq!(session.state.label(), label);
        assert!(matches!(
            session.convert_and_post(Ok(whole_fax()), "png"),
            PostingStep::Nothing
        ));
    }
}

// Posting

#[test]
fn output_formats_come_from_the_configuration() {
    for (value, ext, label) in [
        ("jpg", "jpg", "JPEG"),
        ("jpeg", "jpg", "JPEG"),
        ("png", "png", "PNG"),
        ("JPG", "png", "PNG"),
        ("", "png", "PNG"),
    ] {
        let format = OutputFormat::from_config(value);
        assert_eq!(format.file_ext(), ext);
        assert_eq!(format.label(), label);
    }
}

#[test]
fn pages_are_encoded_in_the_asked_format() {
    let pages = vec![
        page(3, FaxPageCompleteness::Complete),
        page(7, FaxPageCompleteness::Complete),
    ];
    let png = encode_pages(&pages, OutputFormat::Png).unwrap();
    assert_eq!(png.len(), 2);
    assert_eq!(png[0].page_number, 3);
    assert_eq!(png[1].page_number, 7);
    assert_eq!(&png[0].data[..8], b"\x89PNG\r\n\x1a\n");
    let read = image::load_from_memory(&png[0].data).unwrap().into_luma8();
    assert_eq!(read.dimensions(), (2, 1));
    assert_eq!(read.into_raw(), vec![0, 255]);
    let jpeg = encode_pages(&pages, OutputFormat::Jpeg).unwrap();
    assert_eq!(&jpeg[0].data[..3], b"\xFF\xD8\xFF");
}

#[test]
fn a_page_that_cannot_be_encoded_stops_the_result() {
    let mut fax = whole_fax();
    fax.pages[1].image = GrayImage::new(0, 4);
    assert!(matches!(
        encode_pages(&fax.pages, OutputFormat::Png),
        Err(FaxError::Tiff(reason)) if reason.starts_with("image encode: ")
    ));
    assert!(matches!(
        session().convert_and_post(Ok(fax), "png"),
        PostingStep::Fail(FaxError::Tiff(_))
    ));
}

#[test]
fn pictures_need_all_their_pixels() {
    assert!(GrayImage::from_raw(2, 3, vec![0; 6]).is_some());
    assert!(GrayImage::from_raw(2, 3, vec![0; 5]).is_none());
    assert!(GrayImage::from_raw(u32::MAX, u32::MAX, vec![]).is_none());
    let black = GrayImage::new(3, 2);
    assert_eq!((black.width(), black.height()), (3, 2));
    assert_eq!(black.pixels(), &[0; 6]);
}

#[test]
fn a_whole_fax_replaces_the_status_message() {
    let mut session = session();
    session.post_receiving_message(Ok(5)).unwrap();
    session.finish_reception(NOTHING_YET, None);
    match session.convert_and_post(Ok(whole_fax()), "jpeg") {
        PostingStep::Upload { message_id, upload } => {
            assert_eq!(message_id, 5);
            assert!(!upload.is_incomplete);
            assert_eq!(upload.file_ext, "jpg");
            let edit = upload.edit(&session.poster);
            assert_eq!(edit.attachments[1].filename, "fax_page_2.jpg");
            assert_eq!(edit.attachments[1].data, upload.pages[1].data);
            assert_eq!(
                edit.embeds[0].description.as_deref(),
                Some("Fax received — 2 pages")
            );
            session.upload_finished(upload.is_incomplete, Ok(())).unwrap();
        }
        step => panic!("{step:?}"),
    }
    assert!(matches!(session.state, FaxState::Complete));
}

#[test]
fn a_fax_without_a_status_message_gets_one_first() {
    let mut session = session();
    session.finish_reception(NOTHING_YET, Some("carrier lost".to_string()));
    let upload = match session.convert_and_post(Ok(whole_fax()), "png") {
        PostingStep::PostReceiving(upload) => upload,
        step => panic!("{step:?}"),
    };
    assert!(upload.is_incomplete);
    match session.receiving_posted(upload, Ok(9)) {
        PostingStep::Upload { message_id, upload } => {
            assert_eq!(message_id, 9);
            assert_eq!(
                upload.edit(&session.poster).embeds[0].title.as_deref(),
                Some("Fax Incomplete")
            );
        }
        step => panic!("{step:?}"),
    }
    assert_eq!(session.receiving_message_id, Some(9));
    assert!(session.is_ready_to_post());
    session.upload_finished(true, Ok(())).unwrap();
    assert!(matches!(session.state, FaxState::Incomplete));
}

#[test]
fn posting_failures_end_the_session() {
    let upload = || FaxUpload {
        pages: vec![],
        is_incomplete: false,
        file_ext: "png",
    };
    let mut unposted = session();
    assert!(matches!(
        unposted.receiving_posted(upload(), Err(FaxError::Discord("500".to_string()))),
        PostingStep::Fail(FaxError::Discord(_))
    ));
    assert!(matches!(
        &unposted.state,
        FaxState::Failed(reason) if reason == "Discord error: Discord post failed: 500"
    ));
    let mut cut = session();
    assert!(cut
        .upload_finished(true, Err(FaxError::Discord("413".to_string())))
        .is_err());
    assert!(matches!(
        &cut.state,
        FaxState::Failed(reason) if reason == "Discord upload error: Discord post failed: 413"
    ));
}

#[test]
fn missing_pages_keep_their_gap_in_the_numbers() {
    let mut session = session();
    session.post_receiving_message(Ok(5)).unwrap();
    session.finish_reception(NOTHING_YET, None);
    let fax = DecodedFax {
        pages: vec![page(2, FaxPageCompleteness::Complete)],
        omitted_pages: vec![OmittedFaxPage {
            page_number: 1,
            reason: "too short".to_string(),
        }],
    };
    match session.convert_and_post(Ok(fax), "png") {
        PostingStep::Upload { upload, .. } => {
            assert!(upload.is_incomplete);
            let edit = upload.edit(&session.poster);
            assert_eq!(edit.attachments[0].filename, "fax_page_2.png");
            assert!(edit.embeds[0]
                .description
                .as_deref()
                .unwrap()
                .contains("recovered 1 page."));
        }
        step => panic!("{step:?}"),
    }
}

#[test]
fn complete_results_are_counted_from_one() {
    let upload = FaxUpload {
        pages: vec![
            FaxPageAttachment {
                page_number: 4,
                data: vec![1],
            },
            FaxPageAttachment {
                page_number: 9,
                data: vec![2],
            },
        ],
        is_incomplete: false,
        file_ext: "png",
    };
    let edit = upload.edit(&session().poster);
    assert_eq!(edit.attachments[0].filename, "fax_page_1.png");
    assert_eq!(edit.attachments[1].filename, "fax_page_2.png");
    assert_eq!(edit.attachments[1].data, vec![2]);
}

#[test]
fn nothing_recovered_is_reported_by_its_reason() {
    let reported = |session: &FaxSession, error| match session.convert_and_post(Err(error), "png") {
        PostingStep::ReportFailure(text) => Some(text),
        PostingStep::Fail(_) => None,
        step => panic!("{step:?}"),
    };
    let mut session = session();
    assert_eq!(
        reported(&session, FaxError::NoPages).as_deref(),
        Some("No pages in received fax")
    );
    assert_eq!(
        reported(&session, FaxError::CorruptPageData("rows".to_string())).as_deref(),
        Some("corrupt fax page data: rows")
    );
    assert_eq!(reported(&session, FaxError::Tiff("bad".to_string())), None);
    let empty = DecodedFax {
        pages: vec![],
        omitted_pages: vec![],
    };
    assert!(matches!(
        session.convert_and_post(Ok(empty), "png"),
        PostingStep::ReportFailure(text) if text == "No pages in received fax"
    ));
    session.finish_reception(NOTHING_YET, Some("timed out".to_string()));
    assert_eq!(
        reported(&session, FaxError::Tiff("bad".to_string())).as_deref(),
        Some("timed out")
    );
}

#[test]
fn failures_replace_the_status_message_where_there_is_one() {
    let mut session = session();
    match session.failure_post("no carrier") {
        FailurePost::Post(embed) => {
            assert_eq!(embed.description.as_deref(), Some("no carrier"))
        }
        post => panic!("{post:?}"),
    }
    session.post_receiving_message(Ok(31)).unwrap();
    match session.failure_post("no carrier") {
        FailurePost::Edit { message_id, embed } => {
            assert_eq!(message_id, 31);
            assert_eq!(embed.title.as_deref(), Some("Fax Failed"));
        }
        post => panic!("{post:?}"),
    }
    session.post_failure("no carrier");
    assert!(matches!(&session.state, FaxState::Failed(reason) if reason == "no carrier"));
    assert_eq!(session.receiving_message_id, Some(31));
}

/// A posting from start to end: the requests made, and the result.
fn post_all(
    session: &mut FaxSession,
    decoded: Result<DecodedFax, FaxError>,
    status: Result<u64, FaxError>,
    edit: Result<(), FaxError>,
) -> (Vec<String>, Result<(), FaxError>) {
    let mut requests = Vec::new();
    let mut status = Some(status);
    let mut step = session.convert_and_post(decoded, "png");
    loop {
        step = match step {
            PostingStep::Nothing => return (requests, Ok(())),
            PostingStep::ReportFailure(reason) => {
                requests.push(format!("failure: {reason}"));
                session.post_failure(&reason);
                return (requests, Ok(()));
            }
            PostingStep::Fail(error) => return (requests, Err(error)),
            PostingStep::PostReceiving(upload) => {
                requests.push("status".to_string());
                session.receiving_posted(upload, status.take().unwrap())
            }
            PostingStep::Upload { message_id, upload } => {
                requests.push(format!("edit {message_id}"));
                return (requests, session.upload_finished(upload.is_incomplete, edit));
            }
        };
    }
}

#[test]
fn a_posting_posts_one_status_message_and_edits_it() {
    let failed = |code: &str| FaxError::Discord(code.to_string());

    let mut fresh = session();
    let (requests, result) = post_all(&mut fresh, Ok(whole_fax()), Ok(8), Ok(()));
    assert_eq!(requests, ["status", "edit 8"]);
    assert!(result.is_ok());
    assert!(matches!(fresh.state, FaxState::Complete));
    assert_eq!(fresh.receiving_message_id, Some(8));
    let (requests, result) = post_all(&mut fresh, Ok(whole_fax()), Ok(9), Ok(()));
    assert!(requests.is_empty());
    assert!(result.is_ok());
    assert_eq!(fresh.receiving_message_id, Some(8));

    let mut known = session();
    known.post_receiving_message(Ok(3)).unwrap();
    let (requests, result) = post_all(&mut known, Ok(whole_fax()), Ok(8), Err(failed("413")));
    assert_eq!(requests, ["edit 3"]);
    assert_eq!(
        result.unwrap_err().to_string(),
        "Discord post failed: 413"
    );
    assert!(known.is_result_posted());
    assert_eq!(known.receiving_message_id, Some(3));

    let mut refused = session();
    let (requests, result) = post_all(
        &mut refused,
        Ok(whole_fax()),
        Err(failed("500")),
        Err(failed("413")),
    );
    assert_eq!(requests, ["status"]);
    assert_eq!(
        result.unwrap_err().to_string(),
        "Discord post failed: 500"
    );
    assert_eq!(refused.receiving_message_id, None);

    let mut empty = session();
    let (requests, result) = post_all(&mut empty, Err(FaxError::NoPages), Ok(8), Ok(()));
    assert_eq!(requests, ["failure: No pages in received fax"]);
    assert!(result.is_ok());
    assert!(empty.is_result_posted());

    let mut broken = session();
    let bad = FaxError::Tiff("bad".to_string());
    let (requests, result) = post_all(&mut broken, Err(bad), Ok(8), Ok(()));
    assert!(requests.is_empty());
    assert!(matches!(result, Err(FaxError::Tiff(_))));
    assert!(!broken.is_result_posted());
}

// Names

#[test]
fn session_ids_mix_time_and_call() {
    assert_eq!(fax_session_id(0, CallId(0)), "0000000000000000");
    assert_eq!(fax_session_id(0, CallId(1)), "517cc1b727220a95");
    assert_eq!(fax_session_id(0xff, CallId(1)), "517cc1b727220a6a");
    assert_eq!(fax_session_id(0, CallId(-1)), "ae833e48d8ddf56b");
    assert_eq!(fax_session_id(u64::MAX as u128 + 3, CallId(0)), "0000000000000002");
    assert_eq!(
        fax_session_id(1_700_000_000_123_456_789, CallId(3)),
        format!(
            "{:016x}",
            1_700_000_000_123_456_789u64 ^ 3u64.wrapping_mul(0x517cc1b727220a95)
        )
    );
    assert_ne!(fax_session_id(17, CallId(3)), fax_session_id(17, CallId(-3)));
    assert_ne!(fax_session_id(17, CallId(3)), fax_session_id(18, CallId(3)));
}

#[test]
fn files_are_named_after_the_session() {
    assert_eq!(fax_dir_name("fax_", "00ff"), "fax_00ff");
    assert_eq!(fax_file_name("fax_", "00ff"), "fax_00ff.tiff");
}
