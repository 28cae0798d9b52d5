//! What is posted to Discord through the life of a fax.
//!
//! - "Receiving fax..." (blurple) when negotiation starts
//! - Replaced with "Fax Received" (green) with page image gallery on success
//! - Replaced with "Fax Incomplete" (amber) when useful partial data was recovered
//! - Edited to "Fax Failed" (red) with reason on failure

use crate::fax::FaxError;
use crate::services::snowflake::Snowflake;
use crate::text::decimal;
use crate::text::decimal_text;
use crate::text::join;
use crate::text::law_decimal_has_no_leading_zero;
use crate::text::law_decimal_is_injective;
use crate::text::law_decimal_reads_back;
use crate::text::number_in;
use crate::text::parse_number;
use vstd::prelude::*;

verus! {

/// Discord blurple
pub const COLOR_RECEIVING: u32 = 0x5865F2;

/// Green
pub const COLOR_COMPLETE: u32 = 0x57F287;

/// Amber
pub const COLOR_INCOMPLETE: u32 = 0xF0B232;

/// Red
pub const COLOR_FAILED: u32 = 0xED4245;

/// The URL that the embeds of one gallery share.
pub const GALLERY_URL: &'static str = "https://sipcord.net/fax";

/// How many pages one message shows.
pub const MAX_FAX_PAGES: usize = 10;

/// What to do after an upload attempt.
pub enum UploadStep<T, E> {
    /// Wait this many seconds, then try the same edit again.
    RetryAfter(u64),
    /// Stop with this result.
    Finished(Result<T, E>),
}

/// The seconds to wait before the second and before the third attempt.
pub fn upload_retry_delays() -> (delays: [u64; 2])
    ensures
        delays@ == seq![2u64, 5],
{
    [2, 5]
}

/// What follows an attempt with this outcome after `failed_before` failures.
pub open spec fn upload_step<T, E>(
    failed_before: int,
    outcome: Result<T, E>,
    delays: Seq<u64>,
) -> UploadStep<T, E> {
    if outcome is Err && failed_before < 2 {
        UploadStep::RetryAfter(delays[failed_before])
    } else {
        UploadStep::Finished(outcome)
    }
}

/// Retry the same message edit twice. Replacing attachments makes an uncertain
/// response safe to retry without appending duplicate pages or messages.
///
/// Call after every attempt with the number of attempts that failed before it.
pub fn retry_upload<T, E>(failed_before: usize, outcome: Result<T, E>, delays: [u64; 2]) -> (step:
    UploadStep<T, E>)
    ensures
        step == upload_step(failed_before as int, outcome, delays@),
{
    match outcome {
        Ok(result) => UploadStep::Finished(Ok(result)),
        Err(error) => if failed_before < 2 {
            UploadStep::RetryAfter(delays[failed_before])
        } else {
            UploadStep::Finished(Err(error))
        },
    }
}

/// An encoded page ready to attach to Discord. `page_number` is the original
/// TIFF page number, so gaps remain visible when an unreadable page is omitted.
#[derive(Debug)]
pub struct FaxPageAttachment {
    pub page_number: usize,
    pub data: Vec<u8>,
}

/// A page by its number and its bytes.
pub struct PageView {
    pub page_number: nat,
    pub data: Seq<u8>,
}

impl View for FaxPageAttachment {
    type V = PageView;

    open spec fn view(&self) -> PageView {
        PageView { page_number: self.page_number as nat, data: self.data@ }
    }
}

/// Whether a whole fax or a part of one is posted.
#[derive(Debug, Clone, Copy, PartialEq, Eq, Structural)]
pub enum FaxPostKind {
    Complete,
    Incomplete,
}

/// How a fax result is presented.
#[derive(Debug)]
pub struct FaxPresentation {
    pub title: &'static str,
    pub description: String,
    pub color: u32,
}

/// One embed of a message.
#[derive(Debug)]
pub struct FaxEmbed {
    pub title: Option<String>,
    pub description: Option<String>,
    pub color: u32,
    pub url: Option<String>,
    pub image: Option<String>,
    pub footer: Option<String>,
}

/// An embed by its texts.
pub struct EmbedView {
    pub title: Option<Seq<char>>,
    pub description: Option<Seq<char>>,
    pub color: u32,
    pub url: Option<Seq<char>>,
    pub image: Option<Seq<char>>,
    pub footer: Option<Seq<char>>,
}

/// The text of an optional string.
pub open spec fn text_of(s: Option<String>) -> Option<Seq<char>> {
    match s {
        Some(s) => Some(s@),
        None => None,
    }
}

impl View for FaxEmbed {
    type V = EmbedView;

    open spec fn view(&self) -> EmbedView {
        EmbedView {
            title: text_of(self.title),
            description: text_of(self.description),
            color: self.color,
            url: text_of(self.url),
            image: text_of(self.image),
            footer: text_of(self.footer),
        }
    }
}

/// A file of a message.
#[derive(Debug)]
pub struct FaxAttachment {
    pub filename: String,
    pub data: Vec<u8>,
}

/// A file by its name and its bytes.
pub struct AttachmentView {
    pub filename: Seq<char>,
    pub data: Seq<u8>,
}

impl View for FaxAttachment {
    type V = AttachmentView;

    open spec fn view(&self) -> AttachmentView {
        AttachmentView { filename: self.filename@, data: self.data@ }
    }
}

/// An edit that replaces the embeds and all attachments of a message.
#[derive(Debug)]
pub struct FaxResultEdit {
    pub embeds: Vec<FaxEmbed>,
    pub attachments: Vec<FaxAttachment>,
}

/// An edit by its embeds and attachments.
#[verifier::ext_equal]
pub struct EditView {
    pub embeds: Seq<EmbedView>,
    pub attachments: Seq<AttachmentView>,
}

impl View for FaxResultEdit {
    type V = EditView;

    open spec fn view(&self) -> EditView {
        EditView {
            embeds: self.embeds@.map_values(|e: FaxEmbed| e@),
            attachments: self.attachments@.map_values(|a: FaxAttachment| a@),
        }
    }
}

/// The title of a result.
pub open spec fn result_title(kind: FaxPostKind) -> Seq<char> {
    match kind {
        FaxPostKind::Complete => "Fax Received"@,
        FaxPostKind::Incomplete => "Fax Incomplete"@,
    }
}

/// The color of a result.
pub open spec fn result_color(kind: FaxPostKind) -> u32 {
    match kind {
        FaxPostKind::Complete => COLOR_COMPLETE,
        FaxPostKind::Incomplete => COLOR_INCOMPLETE,
    }
}

/// The description of a result.
pub open spec fn result_description(
    kind: FaxPostKind,
    page_count: u32,
    has_overflow: bool,
) -> Seq<char> {
    let count = decimal(page_count as nat);
    match kind {
        FaxPostKind::Complete => if page_count == 1 {
            "Fax received — 1 page"@
        } else if has_overflow {
            "Fax received — "@ + count
                + " pages. First 10 pages shown; remaining pages truncated."@
        } else {
            "Fax received — "@ + count + " pages"@
        },
        FaxPostKind::Incomplete => "Fax transmission incomplete — recovered "@ + count + (
        if page_count == 1 {
            " page"@
        } else {
            " pages"@
        }) + (if has_overflow {
            ". First 10 pages shown; remaining pages truncated"@
        } else {
            ""@
        })
            + ". Some content may be missing; partial pages are shown as received."@,
    }
}

/// How a result is presented.
pub fn fax_presentation(kind: FaxPostKind, page_count: u32, has_overflow: bool) -> (presentation:
    FaxPresentation)
    ensures
        presentation.title@ == result_title(kind),
        presentation.description@ == result_description(kind, page_count, has_overflow),
        presentation.color == result_color(kind),
{
    let count = decimal_text(page_count as u64);
    match kind {
        FaxPostKind::Complete => {
            let description = if page_count == 1 {
                "Fax received — 1 page".to_string()
            } else if has_overflow {
                join("Fax received — ", count.as_str()).concat(
                    " pages. First 10 pages shown; remaining pages truncated.",
                )
            } else {
                join("Fax received — ", count.as_str()).concat(" pages")
            };
            FaxPresentation { title: "Fax Received", description, color: COLOR_COMPLETE }
        },
        FaxPostKind::Incomplete => {
            let pages = if page_count == 1 {
                " page"
            } else {
                " pages"
            };
            let overflow = if has_overflow {
                ". First 10 pages shown; remaining pages truncated"
            } else {
                ""
            };
            let description = join(
                "Fax transmission incomplete — recovered ",
                count.as_str(),
            ).concat(pages).concat(overflow).concat(
                ". Some content may be missing; partial pages are shown as received.",
            );
            FaxPresentation { title: "Fax Incomplete", description, color: COLOR_INCOMPLETE }
        },
    }
}

/// The file name of a page.
pub open spec fn page_filename(page_number: nat, file_ext: Seq<char>) -> Seq<char> {
    "fax_page_"@ + decimal(page_number) + "."@ + file_ext
}

/// The file name of a page.
pub fn fax_page_filename(page_number: usize, file_ext: &str) -> (filename: String)
    ensures
        filename@ == page_filename(page_number as nat, file_ext@),
{
    join("fax_page_", decimal_text(page_number as u64).as_str()).concat(".").concat(file_ext)
}

/// How many of the pages are shown.
pub open spec fn shown_pages(pages: Seq<PageView>) -> nat {
    if pages.len() < MAX_FAX_PAGES {
        pages.len()
    } else {
        MAX_FAX_PAGES as nat
    }
}

/// The embed of the page at `index`. All embeds of a gallery share a color and
/// a URL; the first one carries the texts.
pub open spec fn page_embed(
    page: PageView,
    index: int,
    page_count: u32,
    file_ext: Seq<char>,
    kind: FaxPostKind,
    footer: Seq<char>,
) -> EmbedView {
    EmbedView {
        title: if index == 0 {
            Some(result_title(kind))
        } else {
            None
        },
        description: if index == 0 {
            Some(result_description(kind, page_count, page_count > MAX_FAX_PAGES))
        } else {
            None
        },
        color: result_color(kind),
        url: Some(GALLERY_URL@),
        image: Some("attachment://"@ + page_filename(page.page_number, file_ext)),
        footer: if index == 0 {
            Some(footer)
        } else {
            None
        },
    }
}

/// The edit that shows a fax result: an embed and an attachment for each of
/// the first pages.
pub open spec fn result_edit(
    pages: Seq<PageView>,
    page_count: u32,
    file_ext: Seq<char>,
    kind: FaxPostKind,
    footer: Seq<char>,
) -> EditView {
    EditView {
        embeds: Seq::new(
            shown_pages(pages),
            |i: int| page_embed(pages[i], i, page_count, file_ext, kind, footer),
        ),
        attachments: Seq::new(
            shown_pages(pages),
            |i: int|
                AttachmentView {
                    filename: page_filename(pages[i].page_number, file_ext),
                    data: pages[i].data,
                },
        ),
    }
}

/// The pages by their views.
pub open spec fn page_views(pages: Seq<FaxPageAttachment>) -> Seq<PageView> {
    pages.map_values(|p: FaxPageAttachment| p@)
}

/// Builds the edit that shows a fax result.
pub fn fax_result_edit(
    image_pages: Vec<FaxPageAttachment>,
    page_count: u32,
    file_ext: &str,
    kind: FaxPostKind,
    footer: &str,
) -> (edit: FaxResultEdit)
    ensures
        edit@ == result_edit(page_views(image_pages@), page_count, file_ext@, kind, footer@),
{
    let ghost pages = page_views(image_pages@);
    let shown: usize = if image_pages.len() < MAX_FAX_PAGES {
        image_pages.len()
    } else {
        MAX_FAX_PAGES
    };
    let has_overflow = page_count as u64 > MAX_FAX_PAGES as u64;
    let presentation = fax_presentation(kind, page_count, has_overflow);

    // One embed per page with a shared URL for gallery rendering
    let mut embeds: Vec<FaxEmbed> = Vec::new();
    let mut attachments: Vec<FaxAttachment> = Vec::new();
    let mut i: usize = 0;
    while i < shown
        invariant
            i <= shown <= image_pages.len(),
            shown == shown_pages(pages),
            pages == page_views(image_pages@),
            has_overflow == (page_count > MAX_FAX_PAGES),
            presentation.title@ == result_title(kind),
            presentation.description@ == result_description(kind, page_count, has_overflow),
            presentation.color == result_color(kind),
            embeds@.len() == i,
            attachments@.len() == i,
            forall|k: int|
                0 <= k < i ==> (#[trigger] embeds@[k])@ == page_embed(
                    pages[k],
                    k,
                    page_count,
                    file_ext@,
                    kind,
                    footer@,
                ),
            forall|k: int|
                0 <= k < i ==> (#[trigger] attachments@[k])@ == (AttachmentView {
                    filename: page_filename(pages[k].page_number, file_ext@),
                    data: pages[k].data,
                }),
        decreases shown - i,
    {
        let page: &FaxPageAttachment = &image_pages[i];
        let filename = fax_page_filename(page.page_number, file_ext);
        let image = join("attachment://", filename.as_str());
        let embed = if i == 0 {
            FaxEmbed {
                title: Some(presentation.title.to_string()),
                description: Some(presentation.description.clone()),
                color: presentation.color,
                url: Some(GALLERY_URL.to_string()),
                image: Some(image),
                footer: Some(footer.to_string()),
            }
        } else {
            FaxEmbed {
                title: None,
                description: None,
                color: presentation.color,
                url: Some(GALLERY_URL.to_string()),
                image: Some(image),
                footer: None,
            }
        };
        embeds.push(embed);
        let data: Vec<u8> = page.data.clone();
        assert(data@ =~= page.data@);
        attachments.push(FaxAttachment { filename, data });
        i += 1;
    }
    let edit = FaxResultEdit { embeds, attachments };
    assert(edit@ =~= result_edit(pages, page_count, file_ext@, kind, footer@));
    edit
}

/// A token without the `"Bot "` prefixes that it may start with.
pub open spec fn without_bot_prefix(token: Seq<char>) -> Seq<char>
    decreases token.len(),
{
    if token.len() >= 4 && token.take(4) == seq!['B', 'o', 't', ' '] {
        without_bot_prefix(token.skip(4))
    } else {
        token
    }
}

/// Whether the periods of a text are at `i` and `j` alone, and cut it into
/// three parts none of which is empty.
pub open spec fn cut_in_three(body: Seq<char>, i: int, j: int) -> bool {
    &&& 0 < i
    &&& i + 1 < j
    &&& j + 1 < body.len()
    &&& forall|k: int| 0 <= k < body.len() ==> (#[trigger] body[k] == '.' <==> k == i || k == j)
}

/// Whether a bot token has the form of one: behind the prefix exactly three
/// parts separated by periods, none of them empty.
pub open spec fn token_is_valid(token: Seq<char>) -> bool {
    exists|i: int, j: int| cut_in_three(without_bot_prefix(token), i, j)
}

/// Checks the form of a bot token with `serenity::utils::token::validate`:
/// it strips every leading `"Bot "` and accepts exactly three nonempty parts
/// separated by periods. Its only error always reads the same.
#[verifier::external_body]
fn validate_token(token: &str) -> (checked: Result<(), String>)
    ensures
        checked is Ok <==> token_is_valid(token@),
        checked matches Err(text) ==> text@ == "The provided token was invalid"@,
{
    match serenity::utils::token::validate(token) {
        Ok(()) => Ok(()),
        Err(error) => Err(error.to_string()),
    }
}

/// What Discord says of a user.
#[derive(Debug)]
pub struct DiscordUser {
    /// The display name that the user has chosen, if any
    pub global_name: Option<String>,
    /// The account name
    pub name: String,
}

/// How the display name of the poster's user is to be found out.
#[derive(Debug, Clone, Copy, PartialEq, Eq, Structural)]
pub enum NameLookup {
    /// It is known already.
    Known,
    /// Ask Discord for the user with this number.
    Ask(u64),
    /// The user ID is no number; there is nobody to ask.
    NotANumber,
}

/// Posts the messages of one fax session: the channel, the user on whose
/// behalf the fax comes in, and the texts.
#[derive(Debug)]
pub struct DiscordPoster {
    pub channel_id: Snowflake,
    pub user_id: String,
    /// Cached display name, resolved on first use
    pub display_name: Option<String>,
}

impl DiscordPoster {
    /// The name under which the user is shown.
    pub open spec fn shown_name(self) -> Seq<char> {
        match self.display_name {
            Some(name) => name@,
            None => self.user_id@,
        }
    }

    /// The name that an answer of Discord gives the user: the chosen name, else
    /// the account name, else, without an answer or anyone to ask, the user ID.
    pub open spec fn name_from(self, answer: Option<DiscordUser>) -> Seq<char> {
        match (number_in(self.user_id@), answer) {
            (Some(_), Some(user)) => match user.global_name {
                Some(global_name) => global_name@,
                None => user.name@,
            },
            _ => self.user_id@,
        }
    }

    /// The footer of the embeds that carry one.
    pub open spec fn footer_text(self) -> Seq<char> {
        "From: @"@ + self.shown_name()
    }

    /// An embed with a title, a description, a color and the footer.
    pub open spec fn notice(self, title: Seq<char>, description: Seq<char>, color: u32) -> EmbedView {
        EmbedView {
            title: Some(title),
            description: Some(description),
            color,
            url: None,
            image: None,
            footer: Some(self.footer_text()),
        }
    }

    /// Creates the poster. Fails on a token that has not the form of one.
    pub fn new(bot_token: String, channel_id: Snowflake, user_id: String) -> (poster: Result<
        Self,
        FaxError,
    >)
        ensures
            match poster {
                Ok(poster) => {
                    &&& token_is_valid(bot_token@)
                    &&& poster.channel_id == channel_id
                    &&& poster.user_id@ == user_id@
                    &&& poster.display_name is None
                },
                Err(error) => {
                    &&& !token_is_valid(bot_token@)
                    &&& error matches FaxError::InvalidToken(text)
                    &&& text@ == "The provided token was invalid"@
                },
            },
    {
        match validate_token(bot_token.as_str()) {
            Ok(()) => Ok(DiscordPoster { channel_id, user_id, display_name: None }),
            Err(text) => Err(FaxError::InvalidToken(text)),
        }
    }

    /// How to find out the display name.
    pub fn name_lookup(&self) -> (lookup: NameLookup)
        ensures
            lookup == (if self.display_name is Some {
                NameLookup::Known
            } else {
                match number_in(self.user_id@) {
                    Some(id) => NameLookup::Ask(id),
                    None => NameLookup::NotANumber,
                }
            }),
    {
        if self.display_name.is_some() {
            return NameLookup::Known;
        }
        match parse_number(self.user_id.as_str()) {
            Some(id) => NameLookup::Ask(id),
            None => NameLookup::NotANumber,
        }
    }

    /// Resolve and cache the Discord display name for the user. `answer` is
    /// what Discord said of the user, `None` where it said nothing.
    pub fn resolve_display_name(&mut self, answer: Option<DiscordUser>)
        ensures
            final(self).channel_id == old(self).channel_id,
            final(self).user_id == old(self).user_id,
            final(self).display_name is Some,
            old(self).display_name is Some ==> final(self).display_name == old(self).display_name,
            old(self).display_name is None ==> final(self).shown_name() == old(
                self,
            ).name_from(answer),
    {
        if self.display_name.is_some() {
            return;
        }
        let name: String = match parse_number(self.user_id.as_str()) {
            Some(_) => match answer {
                Some(user) => match user.global_name {
                    Some(global_name) => global_name,
                    None => user.name,
                },
                None => self.user_id.clone(),
            },
            None => self.user_id.clone(),
        };
        self.display_name = Some(name);
    }

    /// The footer of the embeds that carry one.
    pub fn footer(&self) -> (footer: String)
        ensures
            footer@ == self.footer_text(),
    {
        match &self.display_name {
            Some(name) => join("From: @", name.as_str()),
            None => join("From: @", self.user_id.as_str()),
        }
    }

    fn notice_embed(&self, title: &str, description: &str, color: u32) -> (embed: FaxEmbed)
        ensures
            embed@ == self.notice(title@, description@, color),
    {
        FaxEmbed {
            title: Some(title.to_string()),
            description: Some(description.to_string()),
            color,
            url: None,
            image: None,
            footer: Some(self.footer()),
        }
    }

    /// The "Receiving fax..." status message.
    pub fn post_fax_receiving(&self) -> (embed: FaxEmbed)
        ensures
            embed@ == self.notice("Incoming Fax"@, "Receiving fax..."@, COLOR_RECEIVING),
    {
        self.notice_embed("Incoming Fax", "Receiving fax...", COLOR_RECEIVING)
    }

    /// The edit that replaces the "Receiving fax..." message with the completed
    /// fax and image attachments, the pages numbered from 1.
    ///
    /// `file_ext` is the file extension without dot (e.g. "png" or "jpg").
    ///
    /// At most 10 pages are attached, with an explicit notice when more were
    /// received.
    pub fn edit_fax_complete(
        &self,
        image_pages: Vec<Vec<u8>>,
        page_count: u32,
        file_ext: &str,
    ) -> (edit: FaxResultEdit)
        ensures
            edit@ == result_edit(
                numbered_pages(image_pages@),
                page_count,
                file_ext@,
                FaxPostKind::Complete,
                self.footer_text(),
            ),
    {
        let mut pages: Vec<FaxPageAttachment> = Vec::new();
        let mut i: usize = 0;
        while i < image_pages.len()
            invariant
                i <= image_pages.len(),
                pages@.len() == i,
                forall|k: int|
                    0 <= k < i ==> (#[trigger] pages@[k])@ == numbered_pages(image_pages@)[k],
            decreases image_pages.len() - i,
        {
            let data: Vec<u8> = image_pages[i].clone();
            assert(data@ =~= image_pages@[i as int]@);
            pages.push(FaxPageAttachment { page_number: i + 1, data });
            i += 1;
        }
        assert(page_views(pages@) =~= numbered_pages(image_pages@));
        fax_result_edit(
            pages,
            page_count,
            file_ext,
            FaxPostKind::Complete,
            self.footer().as_str(),
        )
    }

    /// The edit that replaces the status message with the first 10 useful pages
    /// recovered from an incomplete transfer, reporting the total recovered
    /// count.
    pub fn edit_fax_incomplete(
        &self,
        image_pages: Vec<FaxPageAttachment>,
        page_count: u32,
        file_ext: &str,
    ) -> (edit: FaxResultEdit)
        ensures
            edit@ == result_edit(
                page_views(image_pages@),
                page_count,
                file_ext@,
                FaxPostKind::Incomplete,
                self.footer_text(),
            ),
    {
        fax_result_edit(
            image_pages,
            page_count,
            file_ext,
            FaxPostKind::Incomplete,
            self.footer().as_str(),
        )
    }

    /// The embed that the status message is edited to, to show a failure
    /// reason.
    pub fn edit_fax_failed(&self, reason: &str) -> (embed: FaxEmbed)
        ensures
            embed@ == self.notice("Fax Failed"@, reason@, COLOR_FAILED),
    {
        self.notice_embed("Fax Failed", reason, COLOR_FAILED)
    }

    /// The standalone failure message (when no "receiving" message was posted).
    pub fn post_fax_failed(&self, reason: &str) -> (embed: FaxEmbed)
        ensures
            embed@ == self.notice("Fax Failed"@, reason@, COLOR_FAILED),
    {
        self.notice_embed("Fax Failed", reason, COLOR_FAILED)
    }
}

/// Pages numbered from 1 in their order.
pub open spec fn numbered_pages(images: Seq<Vec<u8>>) -> Seq<PageView> {
    Seq::new(
        images.len(),
        |i: int| PageView { page_number: (i + 1) as nat, data: images[i]@ },
    )
}

/// Whether a text holds another.
pub open spec fn holds_text(text: Seq<char>, part: Seq<char>) -> bool {
    exists|i: int|
        0 <= i <= text.len() - part.len() && #[trigger] text.subrange(i, i + part.len()) == part
}

/// The notice that some pages are not shown.
pub open spec fn truncation_notice() -> Seq<char> {
    "First 10 pages shown; remaining pages truncated"@
}

proof fn lemma_part_is_held(before: Seq<char>, part: Seq<char>, after: Seq<char>)
    ensures
        holds_text(before + part + after, part),
{
    let text = before + part + after;
    let i = before.len() as int;
    assert(text.subrange(i, i + part.len()) =~= part);
}

/// Every description names the page count: it holds the count followed by
/// `" page"`, whatever the kind and whether or not pages are left out.
pub proof fn law_description_names_the_count(
    kind: FaxPostKind,
    page_count: u32,
    has_overflow: bool,
)
    ensures
        holds_text(
            result_description(kind, page_count, has_overflow),
            decimal(page_count as nat) + " page"@,
        ),
{
    reveal_strlit(" page");
    reveal_strlit(" pages");
    let count = decimal(page_count as nat);
    let part = count + " page"@;
    let text = result_description(kind, page_count, has_overflow);
    match kind {
        FaxPostKind::Complete => {
            if page_count == 1 {
                reveal_strlit("Fax received — 1 page");
                let before = text.take(15);
                assert(text =~= before + part + Seq::<char>::empty());
                lemma_part_is_held(before, part, Seq::empty());
            } else if has_overflow {
                reveal_strlit(" pages. First 10 pages shown; remaining pages truncated.");
                let rest = " pages. First 10 pages shown; remaining pages truncated."@;
                assert(rest =~= " page"@ + rest.skip(5));
                assert(text =~= "Fax received — "@ + part + rest.skip(5));
                lemma_part_is_held("Fax received — "@, part, rest.skip(5));
            } else {
                assert(" pages"@ =~= " page"@ + " pages"@.skip(5));
                assert(text =~= "Fax received — "@ + part + " pages"@.skip(5));
                lemma_part_is_held("Fax received — "@, part, " pages"@.skip(5));
            }
        },
        FaxPostKind::Incomplete => {
            let before = "Fax transmission incomplete — recovered "@;
            let pages = if page_count == 1 {
                " page"@
            } else {
                " pages"@
            };
            assert(pages =~= " page"@ + pages.skip(5));
            let after = pages.skip(5) + text.skip((before + count + pages).len() as int);
            assert(text =~= before + part + after);
            lemma_part_is_held(before, part, after);
        },
    }
}

/// Whether a character does not occur in a text.
spec fn lacks(text: Seq<char>, c: char) -> bool {
    forall|i: int| 0 <= i < text.len() ==> #[trigger] text[i] != c
}

proof fn lemma_decimal_lacks_u(n: nat)
    ensures
        lacks(decimal(n), 'u'),
    decreases n,
{
    if n >= 10 {
        lemma_decimal_lacks_u(n / 10);
    }
}

proof fn lemma_part_with_u_is_not_held(text: Seq<char>, part: Seq<char>, at: int)
    requires
        lacks(text, 'u'),
        0 <= at < part.len(),
        part[at] == 'u',
    ensures
        !holds_text(text, part),
{
    assert forall|i: int| 0 <= i <= text.len() - part.len() implies #[trigger] text.subrange(
        i,
        i + part.len(),
    ) != part by {
        assert(text.subrange(i, i + part.len())[at] == text[i + at]);
    }
}

proof fn lemma_untruncated_lacks_u(kind: FaxPostKind, page_count: u32)
    ensures
        lacks(result_description(kind, page_count, false), 'u'),
{
    reveal_strlit("");
    reveal_strlit(" page");
    reveal_strlit(" pages");
    reveal_strlit("Fax received — ");
    reveal_strlit("Fax received — 1 page");
    reveal_strlit("Fax transmission incomplete — recovered ");
    reveal_strlit(". Some content may be missing; partial pages are shown as received.");
    lemma_decimal_lacks_u(page_count as nat);
    assert(lacks(" page"@, 'u'));
    assert(lacks(" pages"@, 'u'));
    assert(lacks("Fax received — "@, 'u'));
    assert(lacks("Fax received — 1 page"@, 'u'));
    assert(lacks("Fax transmission incomplete — recovered "@, 'u'));
    assert(lacks(
        ". Some content may be missing; partial pages are shown as received."@,
        'u',
    ));
}

/// The notice that pages are left out stands in the description of a posted
/// result if and only if more pages were received than one message shows.
pub proof fn law_truncation_is_announced(kind: FaxPostKind, page_count: u32)
    ensures
        holds_text(
            result_description(kind, page_count, page_count > MAX_FAX_PAGES),
            truncation_notice(),
        ) <==> page_count > MAX_FAX_PAGES,
{
    let notice = truncation_notice();
    reveal_strlit("First 10 pages shown; remaining pages truncated");
    let text = result_description(kind, page_count, page_count > MAX_FAX_PAGES);
    let count = decimal(page_count as nat);
    if page_count > MAX_FAX_PAGES {
        match kind {
            FaxPostKind::Complete => {
                let rest = " pages. First 10 pages shown; remaining pages truncated."@;
                reveal_strlit(" pages. First 10 pages shown; remaining pages truncated.");
                let before = "Fax received — "@ + count + rest.take(8);
                assert(rest =~= rest.take(8) + notice + rest.skip(55));
                assert(text =~= before + notice + rest.skip(55));
                lemma_part_is_held(before, notice, rest.skip(55));
            },
            FaxPostKind::Incomplete => {
                let overflow = ". First 10 pages shown; remaining pages truncated"@;
                reveal_strlit(". First 10 pages shown; remaining pages truncated");
                let before = "Fax transmission incomplete — recovered "@ + count + " pages"@
                    + overflow.take(2);
                let after =
                    ". Some content may be missing; partial pages are shown as received."@;
                assert(overflow =~= overflow.take(2) + notice);
                assert(text =~= before + notice + after);
                lemma_part_is_held(before, notice, after);
            },
        }
    } else {
        lemma_untruncated_lacks_u(kind, page_count);
        assert(notice[40] == 'u');
        lemma_part_with_u_is_not_held(text, notice, 40);
    }
}

/// A posted result shows at most ten pages, as many embeds as attachments;
/// every embed shows the attachment at its own place, under the number that
/// the page had in the document, and the first embed names the number of
/// pages received rather than the number shown.
pub proof fn law_gallery_shows_its_attachments(
    pages: Seq<PageView>,
    page_count: u32,
    file_ext: Seq<char>,
    kind: FaxPostKind,
    footer: Seq<char>,
)
    ensures
        ({
            let edit = result_edit(pages, page_count, file_ext, kind, footer);
            &&& edit.embeds.len() == edit.attachments.len() == shown_pages(pages)
            &&& edit.attachments.len() <= 10
            &&& forall|i: int|
                0 <= i < edit.embeds.len() ==> #[trigger] edit.embeds[i].image == Some(
                    "attachment://"@ + edit.attachments[i].filename,
                )
            &&& forall|i: int|
                0 <= i < edit.attachments.len() ==> (#[trigger] edit.attachments[i]).filename
                    == page_filename(pages[i].page_number, file_ext) && edit.attachments[i].data
                    == pages[i].data
            &&& pages.len() > 0 ==> {
                &&& edit.embeds[0].description matches Some(text)
                &&& holds_text(text, decimal(page_count as nat) + " page"@)
                &&& holds_text(text, truncation_notice()) <==> page_count > 10
            }
        }),
{
    law_description_names_the_count(kind, page_count, page_count > MAX_FAX_PAGES);
    law_truncation_is_announced(kind, page_count);
}

/// The attempts made, and the result, of uploading with the given outcome for
/// each attempt in turn, when `failed_before` attempts have failed already.
pub open spec fn upload_run<T, E>(
    outcomes: spec_fn(int) -> Result<T, E>,
    failed_before: int,
    delays: Seq<u64>,
) -> (int, Result<T, E>)
    decreases 3 - failed_before,
{
    match upload_step(failed_before, outcomes(failed_before), delays) {
        UploadStep::Finished(result) => (failed_before + 1, result),
        UploadStep::RetryAfter(_) => upload_run(outcomes, failed_before + 1, delays),
    }
}

/// An upload stops at the first success and after three attempts at the
/// latest; it fails only where all three attempts fail, with the last error.
pub proof fn law_upload_stops_on_success_or_third_failure<T, E>(
    outcomes: spec_fn(int) -> Result<T, E>,
    delays: Seq<u64>,
)
    ensures
        upload_run(outcomes, 0, delays) == (if outcomes(0) is Ok {
            (1int, outcomes(0))
        } else if outcomes(1) is Ok {
            (2int, outcomes(1))
        } else {
            (3int, outcomes(2))
        }),
{
    reveal_with_fuel(upload_run, 3);
}

/// Pages of different numbers have different file names.
pub proof fn law_filenames_differ(a: nat, b: nat, file_ext: Seq<char>)
    requires
        a != b,
    ensures
        page_filename(a, file_ext) != page_filename(b, file_ext),
{
    let before = "fax_page_"@;
    let after = "."@ + file_ext;
    let x = page_filename(a, file_ext);
    let y = page_filename(b, file_ext);
    if x == y {
        assert(x =~= before + decimal(a) + after);
        assert(y =~= before + decimal(b) + after);
        let end = x.len() - after.len();
        assert(x.subrange(before.len() as int, end) =~= decimal(a));
        assert(y.subrange(before.len() as int, end) =~= decimal(b));
        law_decimal_is_injective(a, b);
    }
}

/// After a failed first or second attempt the edit is tried again, after the
/// first or the second delay; after a third one, or any success, the upload is
/// over with the outcome of that attempt.
pub proof fn law_retries_take_the_delays_in_turn<T, E>(
    failed_before: int,
    value: T,
    error: E,
    delays: Seq<u64>,
)
    requires
        failed_before >= 0,
    ensures
        upload_step::<T, E>(0, Err(error), delays) == UploadStep::<T, E>::RetryAfter(delays[0]),
        upload_step::<T, E>(1, Err(error), delays) == UploadStep::<T, E>::RetryAfter(delays[1]),
        failed_before >= 2 ==> upload_step::<T, E>(failed_before, Err(error), delays)
            == UploadStep::<T, E>::Finished(Err(error)),
        upload_step::<T, E>(failed_before, Ok(value), delays) == UploadStep::<T, E>::Finished(
            Ok(value),
        ),
{
}

/// The name of a page's file is the number of the page between a fixed start and
/// the extension.
pub proof fn law_filename_holds_the_page_number(page_number: u64, file_ext: Seq<char>)
    ensures
        ({
            let name = page_filename(page_number as nat, file_ext);
            let end = name.len() - file_ext.len() - 1;
            &&& name.take(9) == seq!['f', 'a', 'x', '_', 'p', 'a', 'g', 'e', '_']
            &&& 9 < end
            &&& number_in(name.subrange(9, end)) == Some(page_number)
            &&& name.subrange(9, end) == decimal(page_number as nat)
            &&& name[end] == '.'
            &&& name.skip(end + 1) == file_ext
        }),
{
    reveal_strlit("fax_page_");
    reveal_strlit(".");
    law_decimal_reads_back(page_number);
    law_decimal_has_no_leading_zero(page_number as nat);
    let number = decimal(page_number as nat);
    let name = page_filename(page_number as nat, file_ext);
    let end = name.len() - file_ext.len() - 1;
    assert(end == 9 + number.len());
    assert(name.take(9) =~= seq!['f', 'a', 'x', '_', 'p', 'a', 'g', 'e', '_']);
    assert(name.subrange(9, end) =~= number);
    assert(name.skip(end + 1) =~= file_ext);
}

/// What a result says, word for word: the kind and the number of pages decide,
/// and the notice of left-out pages stands in its place where it is due.
pub proof fn law_descriptions_read(page_count: u32)
    ensures
        ({
            let count = decimal(page_count as nat);
            &&& result_description(FaxPostKind::Complete, 1, true) == "Fax received — 1 page"@
            &&& result_description(FaxPostKind::Complete, 1, false) == "Fax received — 1 page"@
            &&& page_count != 1 ==> result_description(FaxPostKind::Complete, page_count, false)
                == "Fax received — "@ + count + " pages"@
            &&& page_count != 1 ==> result_description(FaxPostKind::Complete, page_count, true)
                == result_description(FaxPostKind::Complete, page_count, false) + ". "@
                + truncation_notice() + "."@
            &&& result_description(FaxPostKind::Incomplete, page_count, false)
                == "Fax transmission incomplete — recovered "@ + count + (if page_count == 1 {
                " page"@
            } else {
                " pages"@
            }) + ". Some content may be missing; partial pages are shown as received."@
            &&& result_description(FaxPostKind::Incomplete, page_count, true)
                == "Fax transmission incomplete — recovered "@ + count + (if page_count == 1 {
                " page"@
            } else {
                " pages"@
            }) + ". "@ + truncation_notice()
                + ". Some content may be missing; partial pages are shown as received."@
        }),
{
    reveal_strlit("");
    reveal_strlit(". ");
    reveal_strlit(".");
    reveal_strlit(" pages");
    reveal_strlit(" pages. First 10 pages shown; remaining pages truncated.");
    reveal_strlit("First 10 pages shown; remaining pages truncated");
    reveal_strlit(". First 10 pages shown; remaining pages truncated");
    assert(" pages. First 10 pages shown; remaining pages truncated."@ =~= " pages"@ + ". "@
        + truncation_notice() + "."@);
    assert(". First 10 pages shown; remaining pages truncated"@ =~= ". "@ + truncation_notice());
    let count = decimal(page_count as nat);
    if page_count != 1 {
        assert(result_description(FaxPostKind::Complete, page_count, true)
            =~= result_description(FaxPostKind::Complete, page_count, false) + ". "@
            + truncation_notice() + "."@);
    }
    let pages = if page_count == 1 {
        " page"@
    } else {
        " pages"@
    };
    let after = ". Some content may be missing; partial pages are shown as received."@;
    assert(result_description(FaxPostKind::Incomplete, page_count, false)
        =~= "Fax transmission incomplete — recovered "@ + count + pages + after);
    assert(result_description(FaxPostKind::Incomplete, page_count, true)
        =~= "Fax transmission incomplete — recovered "@ + count + pages + ". "@
        + truncation_notice() + after);
}

/// The edit of a result, field by field: the first ten pages and no others are
/// shown, each with its own bytes under its own number; all embeds share the
/// color of the kind and the gallery URL; the first one, and no other, carries
/// the title, the footer and the description of the full count.
pub proof fn law_gallery_field_by_field(
    pages: Seq<PageView>,
    page_count: u32,
    file_ext: Seq<char>,
    kind: FaxPostKind,
    footer: Seq<char>,
    i: int,
)
    ensures
        ({
            let edit = result_edit(pages, page_count, file_ext, kind, footer);
            &&& edit.embeds.len() == edit.attachments.len()
            &&& pages.len() <= 10 ==> edit.embeds.len() == pages.len()
            &&& pages.len() > 10 ==> edit.embeds.len() == 10
            &&& 0 <= i < edit.embeds.len() ==> {
                &&& edit.embeds[i].color == (match kind {
                    FaxPostKind::Complete => 0x57F287u32,
                    FaxPostKind::Incomplete => 0xF0B232u32,
                })
                &&& edit.embeds[i].url == Some("https://sipcord.net/fax"@)
                &&& edit.embeds[i].image == Some(
                    "attachment://"@ + edit.attachments[i].filename,
                )
                &&& edit.attachments[i].filename == page_filename(
                    pages[i].page_number,
                    file_ext,
                )
                &&& edit.attachments[i].data == pages[i].data
                &&& edit.embeds[i].title == (if i > 0 {
                    None
                } else {
                    Some(
                        match kind {
                            FaxPostKind::Complete => "Fax Received"@,
                            FaxPostKind::Incomplete => "Fax Incomplete"@,
                        },
                    )
                })
                &&& edit.embeds[i].description == (if i > 0 {
                    None
                } else {
                    Some(result_description(kind, page_count, page_count > 10))
                })
                &&& edit.embeds[i].footer == (if i > 0 {
                    None
                } else {
                    Some(footer)
                })
            }
        }),
{
}

/// Pages counted from one keep their order and their bytes, and pages by their
/// views keep their numbers too.
pub proof fn law_pages_keep_their_bytes(
    images: Seq<Vec<u8>>,
    pages: Seq<FaxPageAttachment>,
    i: int,
)
    ensures
        numbered_pages(images).len() == images.len(),
        0 <= i < images.len() ==> numbered_pages(images)[i].page_number == i + 1
            && numbered_pages(images)[i].data == images[i]@,
        page_views(pages).len() == pages.len(),
        0 <= i < pages.len() ==> page_views(pages)[i].page_number == pages[i].page_number
            && page_views(pages)[i].data == pages[i].data@,
{
}

/// The views of an embed, an attachment and an edit leave nothing out.
pub proof fn law_views_leave_nothing_out(
    embed: FaxEmbed,
    attachment: FaxAttachment,
    edit: FaxResultEdit,
    i: int,
)
    ensures
        embed.title matches Some(text) ==> embed@.title == Some(text@),
        embed.title is None ==> embed@.title is None,
        embed.description matches Some(text) ==> embed@.description == Some(text@),
        embed.description is None ==> embed@.description is None,
        embed@.color == embed.color,
        embed.url matches Some(text) ==> embed@.url == Some(text@),
        embed.url is None ==> embed@.url is None,
        embed.image matches Some(text) ==> embed@.image == Some(text@),
        embed.image is None ==> embed@.image is None,
        embed.footer matches Some(text) ==> embed@.footer == Some(text@),
        embed.footer is None ==> embed@.footer is None,
        attachment@.filename == attachment.filename@,
        attachment@.data == attachment.data@,
        edit@.embeds.len() == edit.embeds@.len(),
        0 <= i < edit.embeds@.len() ==> edit@.embeds[i] == edit.embeds@[i]@,
        edit@.attachments.len() == edit.attachments@.len(),
        0 <= i < edit.attachments@.len() ==> edit@.attachments[i] == edit.attachments@[i]@,
{
}

/// A notice carries its title, description and color, no URL and no image, and
/// names the user by the display name where there is one, else by the user ID.
pub proof fn law_notice_names_the_user(
    poster: DiscordPoster,
    title: Seq<char>,
    description: Seq<char>,
    color: u32,
)
    ensures
        poster.notice(title, description, color) == (EmbedView {
            title: Some(title),
            description: Some(description),
            color,
            url: None,
            image: None,
            footer: Some(poster.footer_text()),
        }),
        poster.display_name matches Some(name) ==> poster.footer_text() == "From: @"@ + name@,
        poster.display_name is None ==> poster.footer_text() == "From: @"@ + poster.user_id@,
{
}

/// A prefix of `"Bot "` makes no difference to the form of a token.
pub proof fn law_bot_prefix_makes_no_difference(token: Seq<char>)
    ensures
        token_is_valid(seq!['B', 'o', 't', ' '] + token) <==> token_is_valid(token),
{
    let prefix = seq!['B', 'o', 't', ' '];
    assert((prefix + token).take(4) =~= prefix);
    assert((prefix + token).skip(4) =~= token);
    assert(without_bot_prefix(prefix + token) == without_bot_prefix(token));
}

/// A token without a prefix is three parts, none of them empty and none with a
/// period in it, joined by periods.
pub proof fn law_token_is_three_parts(a: Seq<char>, b: Seq<char>, c: Seq<char>)
    requires
        !a.contains('.'),
        !b.contains('.'),
        !c.contains('.'),
        a.len() > 0,
        a[0] != 'B',
    ensures
        token_is_valid(a + seq!['.'] + b + seq!['.'] + c) <==> b.len() > 0 && c.len() > 0,
        !token_is_valid(a + seq!['.'] + b),
        !token_is_valid(a),
{
    let whole = a + seq!['.'] + b + seq!['.'] + c;
    let i = a.len() as int;
    let j = i + 1 + b.len();
    assert(whole[0] == a[0]);
    assert(whole.len() >= 4 ==> whole.take(4)[0] == whole[0]);
    assert(without_bot_prefix(whole) == whole);
    assert forall|k: int| 0 <= k < whole.len() implies (#[trigger] whole[k] == '.' <==> k == i || k
        == j) by {
        if k < i {
            assert(whole[k] == a[k]);
        } else if i < k < j {
            assert(whole[k] == b[k - i - 1]);
        } else if k > j {
            assert(whole[k] == c[k - j - 1]);
        }
    }
    if b.len() > 0 && c.len() > 0 {
        assert(cut_in_three(whole, i, j));
    } else if token_is_valid(whole) {
        let (x, y) = choose|x: int, y: int| cut_in_three(whole, x, y);
        assert(whole[x] == '.' && whole[y] == '.');
    }
    let two = a + seq!['.'] + b;
    assert(two[0] == a[0]);
    assert(two.len() >= 4 ==> two.take(4)[0] == two[0]);
    assert(without_bot_prefix(two) == two);
    if token_is_valid(two) {
        let (x, y) = choose|x: int, y: int| cut_in_three(two, x, y);
        assert(two[x] == '.' && two[y] == '.');
        assert(y > x);
        if y < i {
            assert(two[y] == a[y]);
        } else if y > i {
            assert(two[y] == b[y - i - 1]);
        } else {
            assert(two[x] == a[x]);
        }
    }
    assert(a.len() >= 4 ==> a.take(4)[0] == a[0]);
    assert(without_bot_prefix(a) == a);
    if token_is_valid(a) {
        let (x, y) = choose|x: int, y: int| cut_in_three(a, x, y);
        assert(a[x] == '.');
    }
}

/// A user with a chosen name is shown by it, one without by the account name;
/// where Discord says nothing, or the user ID is no number, the user ID is
/// shown.
pub proof fn law_chosen_name_goes_first(poster: DiscordPoster, user: DiscordUser)
    ensures
        number_in(poster.user_id@) is None ==> poster.name_from(Some(user)) == poster.user_id@,
        poster.name_from(None) == poster.user_id@,
        number_in(poster.user_id@) is Some && user.global_name is None ==> poster.name_from(
            Some(user),
        ) == user.name@,
        number_in(poster.user_id@) is Some ==> (user.global_name matches Some(chosen)
            ==> poster.name_from(Some(user)) == chosen@),
        poster.display_name matches Some(name) ==> poster.shown_name() == name@,
        poster.display_name is None ==> poster.shown_name() == poster.user_id@,
{
}

} // verus!
