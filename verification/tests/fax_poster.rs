use sipcord_bridge::fax::discord_poster::fax_page_filename;
use sipcord_bridge::fax::discord_poster::fax_presentation;
use sipcord_bridge::fax::discord_poster::fax_result_edit;
use sipcord_bridge::fax::discord_poster::retry_upload;
use sipcord_bridge::fax::discord_poster::upload_retry_delays;
use sipcord_bridge::fax::discord_poster::DiscordPoster;
use sipcord_bridge::fax::discord_poster::DiscordUser;
use sipcord_bridge::fax::discord_poster::FaxPageAttachment;
use sipcord_bridge::fax::discord_poster::FaxPostKind;
use sipcord_bridge::fax::discord_poster::NameLookup;
use sipcord_bridge::fax::discord_poster::UploadStep;
use sipcord_bridge::fax::discord_poster::COLOR_COMPLETE;
use sipcord_bridge::fax::discord_poster::COLOR_FAILED;
use sipcord_bridge::fax::discord_poster::COLOR_INCOMPLETE;
use sipcord_bridge::fax::discord_poster::COLOR_RECEIVING;
use sipcord_bridge::fax::discord_poster::GALLERY_URL;
use sipcord_bridge::fax::FaxError;
use sipcord_bridge::services::snowflake::Snowflake;

#[test]
fn upload_retries_twice_and_stops_on_success() {
    for failures in [0, 1, 2, 3] {
        let mut attempts = 0;
        let mut failed_before = 0;
        let result = loop {
            attempts += 1;
            let outcome = if attempts <= failures {
                Err("upload rejected")
            } else {
                Ok(())
            };
            match retry_upload(failed_before, outcome, [0; 2]) {
                UploadStep::RetryAfter(delay) => {
                    assert_eq!(delay, 0);
                    failed_before += 1;
                }
                UploadStep::Finished(result) => break result,
            }
        };
        assert_eq!(attempts, (failures + 1).min(3));
        assert_eq!(result.is_err(), failures == 3);
    }
}

#[test]
fn uploads_wait_longer_the_second_time() {
    assert_eq!(upload_retry_delays(), [2, 5]);
    for (failed_before, delay) in [(0, 2), (1, 5)] {
        let step: UploadStep<(), &str> =
            retry_upload(failed_before, Err("rejected"), upload_retry_delays());
        assert!(matches!(step, UploadStep::RetryAfter(secs) if secs == delay));
    }
    let step: UploadStep<(), &str> = retry_upload(2, Err("last"), upload_retry_delays());
    assert!(matches!(step, UploadStep::Finished(Err("last"))));
}

#[test]
fn result_payload_caps_attachments_and_embeds_and_reports_total() {
    for kind in [FaxPostKind::Complete, FaxPostKind::Incomplete] {
        for count in [1usize, 10, 11, 49] {
            let pages = (1..=count)
                .map(|page_number| FaxPageAttachment {
                    page_number,
                    data: vec![42],
                })
                .collect();
            let edit = fax_result_edit(pages, count as u32, "png", kind, "From: test");
            let attachments = &edit.attachments;
            let embeds = &edit.embeds;
            assert_eq!(attachments.len(), count.min(10));
            assert_eq!(embeds.len(), count.min(10));
            for (index, attachment) in attachments.iter().enumerate() {
                assert_eq!(
                    attachment.filename,
                    format!("fax_page_{}.png", index + 1)
                );
                assert_eq!(
                    embeds[index].image.as_deref().unwrap(),
                    format!("attachment://fax_page_{}.png", index + 1)
                );
            }
            let description = embeds[0].description.as_deref().unwrap();
            assert!(description.contains(&format!("{count} page")));
            assert_eq!(
                description.contains("First 10 pages shown; remaining pages truncated"),
                count > 10
            );
        }
    }
}

#[test]
fn already_capped_pages_still_report_total_received() {
    let pages = (1..=10)
        .map(|page_number| FaxPageAttachment {
            page_number,
            data: vec![42],
        })
        .collect();
    let edit = fax_result_edit(pages, 49, "png", FaxPostKind::Incomplete, "From: test");
    let description = edit.embeds[0].description.as_deref().unwrap();
    assert!(description.contains("recovered 49 pages"));
    assert!(description.contains("remaining pages truncated"));
}

#[test]
fn complete_presentation_is_unchanged() {
    let presentation = fax_presentation(FaxPostKind::Complete, 1, false);
    assert_eq!(presentation.title, "Fax Received");
    assert_eq!(presentation.description, "Fax received — 1 page");
    assert_eq!(presentation.color, COLOR_COMPLETE);
}

#[test]
fn incomplete_presentation_is_amber_and_warns_about_missing_content() {
    let presentation = fax_presentation(FaxPostKind::Incomplete, 2, false);
    assert_eq!(presentation.title, "Fax Incomplete");
    assert!(presentation.description.contains("recovered 2 pages"));
    assert!(presentation.description.contains("content may be missing"));
    assert_eq!(presentation.color, COLOR_INCOMPLETE);
}

#[test]
fn incomplete_presentation_reports_gallery_overflow() {
    let presentation = fax_presentation(FaxPostKind::Incomplete, 12, true);
    assert!(presentation
        .description
        .contains("First 10 pages shown; remaining pages truncated"));
}

#[test]
fn attachment_filename_preserves_original_page_number() {
    assert_eq!(fax_page_filename(3, "png"), "fax_page_3.png");
}

#[test]
fn descriptions_read_in_full() {
    let text = |kind, count, overflow| fax_presentation(kind, count, overflow).description;
    assert_eq!(
        text(FaxPostKind::Complete, 7, false),
        "Fax received — 7 pages"
    );
    assert_eq!(
        text(FaxPostKind::Complete, 11, true),
        "Fax received — 11 pages. First 10 pages shown; remaining pages truncated."
    );
    assert_eq!(
        text(FaxPostKind::Incomplete, 1, false),
        "Fax transmission incomplete — recovered 1 page. Some content may be missing; \
         partial pages are shown as received."
    );
    assert_eq!(
        text(FaxPostKind::Incomplete, 4294967295, true),
        "Fax transmission incomplete — recovered 4294967295 pages. First 10 pages shown; \
         remaining pages truncated. Some content may be missing; partial pages are shown as \
         received."
    );
}

#[test]
fn filenames_of_different_pages_differ() {
    assert_ne!(fax_page_filename(1, "png"), fax_page_filename(11, "png"));
    assert_eq!(
        fax_page_filename(18446744073709551615, "jpg"),
        "fax_page_18446744073709551615.jpg"
    );
    assert_eq!(fax_page_filename(0, ""), "fax_page_0.");
}

#[test]
fn only_the_first_embed_carries_the_texts() {
    let pages = vec![
        FaxPageAttachment {
            page_number: 2,
            data: vec![1, 2, 3],
        },
        FaxPageAttachment {
            page_number: 5,
            data: vec![],
        },
    ];
    let edit = fax_result_edit(pages, 2, "jpg", FaxPostKind::Incomplete, "From: @me");
    assert_eq!(edit.embeds[0].title.as_deref(), Some("Fax Incomplete"));
    assert_eq!(edit.embeds[0].footer.as_deref(), Some("From: @me"));
    assert_eq!(edit.embeds[1].title, None);
    assert_eq!(edit.embeds[1].description, None);
    assert_eq!(edit.embeds[1].footer, None);
    for embed in &edit.embeds {
        assert_eq!(embed.color, COLOR_INCOMPLETE);
        assert_eq!(embed.url.as_deref(), Some(GALLERY_URL));
    }
    assert_eq!(edit.attachments[0].data, vec![1, 2, 3]);
    assert_eq!(edit.attachments[1].filename, "fax_page_5.jpg");
    let nothing = fax_result_edit(vec![], 0, "jpg", FaxPostKind::Complete, "");
    assert!(nothing.embeds.is_empty());
    assert!(nothing.attachments.is_empty());
}

fn poster(user_id: &str) -> DiscordPoster {
    DiscordPoster::new("abc.def.ghi".to_string(), Snowflake(7), user_id.to_string()).unwrap()
}

#[test]
fn tokens_are_checked_by_their_form() {
    let check = |token: &str| DiscordPoster::new(token.to_string(), Snowflake(1), "u".to_string());
    assert!(check("abc.def.ghi").is_ok());
    assert!(check("Bot abc.def.ghi").is_ok());
    assert!(check("Bot Bot abc.def.ghi").is_ok());
    for token in [
        "", "abc", "abc.def", "abc.def.ghi.jkl", ".def.ghi", "abc..ghi", "abc.def.", "Bot ",
    ] {
        match check(token) {
            Err(FaxError::InvalidToken(text)) => {
                assert_eq!(text, "The provided token was invalid")
            }
            other => panic!("{token}: {other:?}"),
        }
    }
    assert_eq!(
        check("abc").unwrap_err().to_string(),
        "invalid Discord bot token: The provided token was invalid"
    );
}

#[test]
fn the_display_name_is_looked_up_once() {
    let user = |global: Option<&str>, name: &str| {
        Some(DiscordUser {
            global_name: global.map(|n| n.to_string()),
            name: name.to_string(),
        })
    };

    let mut named = poster("123");
    assert_eq!(named.footer(), "From: @123");
    assert_eq!(named.name_lookup(), NameLookup::Ask(123));
    named.resolve_display_name(user(Some("Ada"), "ada1815"));
    assert_eq!(named.footer(), "From: @Ada");
    assert_eq!(named.name_lookup(), NameLookup::Known);
    named.resolve_display_name(user(Some("Grace"), "grace"));
    assert_eq!(named.footer(), "From: @Ada");

    let mut plain = poster("+42");
    assert_eq!(plain.name_lookup(), NameLookup::Ask(42));
    plain.resolve_display_name(user(None, "account"));
    assert_eq!(plain.footer(), "From: @account");

    let mut silent = poster("18446744073709551615");
    assert_eq!(silent.name_lookup(), NameLookup::Ask(u64::MAX));
    silent.resolve_display_name(None);
    assert_eq!(silent.footer(), "From: @18446744073709551615");
    assert_eq!(silent.name_lookup(), NameLookup::Known);

    for no_number in ["", "+", "-1", "12a", "18446744073709551616", "٣"] {
        let mut other = poster(no_number);
        assert_eq!(other.name_lookup(), NameLookup::NotANumber);
        other.resolve_display_name(user(Some("Ada"), "ada1815"));
        assert_eq!(other.footer(), format!("From: @{no_number}"));
    }
}

#[test]
fn status_messages_have_title_color_and_footer() {
    let poster = poster("me");
    let receiving = poster.post_fax_receiving();
    assert_eq!(receiving.title.as_deref(), Some("Incoming Fax"));
    assert_eq!(receiving.description.as_deref(), Some("Receiving fax..."));
    assert_eq!(receiving.color, COLOR_RECEIVING);
    assert_eq!(receiving.footer.as_deref(), Some("From: @me"));
    assert_eq!(receiving.url, None);
    assert_eq!(receiving.image, None);
    for failed in [poster.edit_fax_failed("no carrier"), poster.post_fax_failed("no carrier")] {
        assert_eq!(failed.title.as_deref(), Some("Fax Failed"));
        assert_eq!(failed.description.as_deref(), Some("no carrier"));
        assert_eq!(failed.color, COLOR_FAILED);
        assert_eq!(failed.footer.as_deref(), Some("From: @me"));
    }
}

#[test]
fn complete_pages_are_numbered_and_incomplete_ones_keep_their_numbers() {
    let poster = poster("me");
    let complete = poster.edit_fax_complete(vec![vec![1], vec![2]], 2, "png");
    assert_eq!(complete.attachments[0].filename, "fax_page_1.png");
    assert_eq!(complete.attachments[1].filename, "fax_page_2.png");
    assert_eq!(complete.attachments[1].data, vec![2]);
    assert_eq!(complete.embeds[0].title.as_deref(), Some("Fax Received"));
    let incomplete = poster.edit_fax_incomplete(
        vec![FaxPageAttachment {
            page_number: 4,
            data: vec![9],
        }],
        1,
        "png",
    );
    assert_eq!(incomplete.attachments[0].filename, "fax_page_4.png");
    assert_eq!(incomplete.embeds[0].title.as_deref(), Some("Fax Incomplete"));
}

#[test]
fn fax_errors_read_as_documented() {
    let texts = [
        (
            FaxError::Discord("503".to_string()),
            "Discord post failed: 503",
        ),
        (
            FaxError::InvalidToken("bad".to_string()),
            "invalid Discord bot token: bad",
        ),
        (
            FaxError::Io {
                context: "create tiff dir /x".to_string(),
                source: "denied".to_string(),
            },
            "fax I/O (create tiff dir /x): denied",
        ),
        (
            FaxError::NonUtf8Path("/p".to_string()),
            "path is not valid UTF-8: /p",
        ),
        (
            FaxError::SpanDsp {
                operation: "fax_init",
                detail: "null".to_string(),
            },
            "SpanDSP (fax_init): null",
        ),
        (FaxError::Tiff("short".to_string()), "TIFF decode: short"),
        (
            FaxError::CorruptPageData("rows".to_string()),
            "corrupt fax page data: rows",
        ),
        (FaxError::NoPages, "no pages in received fax"),
    ];
    for (error, text) in texts {
        assert_eq!(error.to_string(), text);
    }
}
