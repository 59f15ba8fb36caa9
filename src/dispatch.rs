use vstd::prelude::*;

use crate::chunker::{chunks_of, lemma_chunks_within_limit, split_text, CAPTION_LIMIT, TEXT_LIMIT};
use crate::layout::{organize_rows, packed_rows, rows_view, wants_auto_layout, REPLY_ROW_BUDGET};
use crate::markup::{format_telegram_markdown, markdown_html};
use crate::outgoing::{OutgoingMessageType, ReplyKeyboardMarkup};

verus! {

/// The platform call a step makes.
#[derive(PartialEq, Eq, Structural, Clone, Copy)]
pub enum SendCall {
    Message,
    Photo,
    Audio,
    Voice,
    Video,
    VideoNote,
    Document,
    Sticker,
    Animation,
    EditText,
    EditMarkup,
    Delete,
    Typing,
}

/// One platform call, with the unformatted text to fall back on.
pub struct SendStep {
    pub call: SendCall,
    /// The text or caption of the first attempt.
    pub text: Option<String>,
    /// Sent without formatting when the platform rejects the first attempt.
    pub fallback_text: Option<String>,
    /// Whether the first attempt asks for HTML parsing.
    pub html: bool,
    /// Whether the step carries the command's media, buttons and keyboard.
    pub attach: bool,
}

/// The calls that carry out one outbound command, in order.
pub struct DispatchPlan {
    /// A local file that must exist before anything is sent.
    pub media_path: Option<String>,
    pub steps: Vec<SendStep>,
}

/// Parse modes that ask for rich text.
pub open spec fn html_mode(mode: Option<String>) -> bool {
    match mode {
        Some(m) => m@ == "HTML"@ || m@ == "Markdown"@,
        None => false,
    }
}

/// Step `i` of chunked sends: the first makes call `first`, the rest are
/// plain follow-up messages; each tries chunk `i` of `rich` and falls back on
/// chunk `i` of `plain` (or of `rich`, where `plain` has fewer).
pub open spec fn chunk_step(
    st: SendStep,
    i: int,
    first: SendCall,
    rich: Seq<Seq<char>>,
    plain: Seq<Seq<char>>,
    html: bool,
) -> bool {
    &&& st.call == (if i == 0 {
        first
    } else {
        SendCall::Message
    })
    &&& st.text matches Some(t) && t@ == rich[i]
    &&& st.fallback_text matches Some(f) && f@ == (if i < plain.len() {
        plain[i]
    } else {
        rich[i]
    })
    &&& st.html == html
    &&& st.attach == (i == 0)
}

pub open spec fn chunked_steps(
    steps: Seq<SendStep>,
    first: SendCall,
    rich: Seq<Seq<char>>,
    plain: Seq<Seq<char>>,
    html: bool,
) -> bool {
    &&& steps.len() == rich.len()
    &&& forall|i: int| 0 <= i < steps.len() ==> chunk_step(#[trigger] steps[i], i, first, rich, plain, html)
}

/// A single step with no text.
pub open spec fn bare_step(st: SendStep, call: SendCall, attach: bool) -> bool {
    st.call == call && st.text is None && st.fallback_text is None && !st.html && st.attach == attach
}

/// The text that a text command sends: its markdown formatted when a parse
/// mode is given.
pub open spec fn rich_source(text: Seq<char>, mode: Option<String>) -> Seq<char> {
    if mode is Some {
        markdown_html(text)
    } else {
        text
    }
}

/// The steps of a text command.
pub open spec fn text_steps(steps: Seq<SendStep>, text: Seq<char>, mode: Option<String>) -> bool {
    chunked_steps(
        steps,
        SendCall::Message,
        chunks_of(rich_source(text, mode), TEXT_LIMIT as nat),
        chunks_of(text, TEXT_LIMIT as nat),
        html_mode(mode),
    )
}

/// The steps of a media command with an optional caption: the media with the
/// first caption chunk, then the other chunks as follow-up messages; without
/// a caption, the media alone.
pub open spec fn caption_steps(steps: Seq<SendStep>, call: SendCall, caption: Option<String>) -> bool {
    match caption {
        Some(c) if chunks_of(markdown_html(c@), CAPTION_LIMIT as nat).len() > 0 => chunked_steps(
            steps,
            call,
            chunks_of(markdown_html(c@), CAPTION_LIMIT as nat),
            chunks_of(c@, CAPTION_LIMIT as nat),
            true,
        ),
        _ => steps.len() == 1 && bare_step(steps[0], call, true),
    }
}

/// The plan of a media command: the file to check, then its steps.
pub open spec fn media_plan(p: DispatchPlan, path: String, call: SendCall, caption: Option<String>) -> bool {
    p.media_path == Some(path) && caption_steps(p.steps@, call, caption)
}

/// The plan of a media command without a caption.
pub open spec fn bare_media_plan(p: DispatchPlan, path: String, call: SendCall) -> bool {
    p.media_path == Some(path) && p.steps@.len() == 1 && bare_step(p.steps@[0], call, true)
}

/// An edit of a message's text: the formatted text first, the raw text to
/// fall back on.
pub open spec fn edit_text_step(st: SendStep, t: String) -> bool {
    &&& st.call == SendCall::EditText
    &&& st.text matches Some(r) && r@ == markdown_html(t@)
    &&& st.fallback_text == Some(t)
    &&& st.html
    &&& st.attach
}

/// Appends one step per chunk of `rich`; see `chunk_step`.
fn push_chunk_steps(
    steps: &mut Vec<SendStep>,
    first: SendCall,
    rich: &Vec<String>,
    plain: &Vec<String>,
    html: bool,
)
    requires
        old(steps)@.len() == 0,
    ensures
        chunked_steps(final(steps)@, first, rich@.map_values(|s: String| s@), plain@.map_values(|s: String| s@), html),
{
    let ghost rv = rich@.map_values(|s: String| s@);
    let ghost pv = plain@.map_values(|s: String| s@);
    let mut i: usize = 0;
    while i < rich.len()
        invariant
            i <= rich@.len(),
            rv == rich@.map_values(|s: String| s@),
            pv == plain@.map_values(|s: String| s@),
            steps@.len() == i,
            forall|j: int| 0 <= j < i ==> chunk_step(#[trigger] steps@[j], j, first, rv, pv, html),
        decreases rich@.len() - i,
    {
        let text = rich[i].clone();
        let fallback = if i < plain.len() {
            plain[i].clone()
        } else {
            rich[i].clone()
        };
        let call = if i == 0 {
            first
        } else {
            SendCall::Message
        };
        steps.push(SendStep { call, text: Some(text), fallback_text: Some(fallback), html, attach: i == 0 });
        i = i + 1;
    }
}

fn bare(call: SendCall, attach: bool) -> (r: SendStep)
    ensures
        bare_step(r, call, attach),
{
    SendStep { call, text: None, fallback_text: None, html: false, attach }
}

fn is_html_mode(mode: &Option<String>) -> (r: bool)
    ensures
        r == html_mode(*mode),
{
    match mode {
        Some(m) => {
            let html = "HTML".to_owned();
            let md = "Markdown".to_owned();
            *m == html || *m == md
        },
        None => false,
    }
}

/// The steps of a text command; see `text_steps`.
pub fn plan_text(text: &String, parse_mode: &Option<String>) -> (steps: Vec<SendStep>)
    ensures
        text_steps(steps@, text@, *parse_mode),
{
    let rich_src = match parse_mode {
        Some(_) => format_telegram_markdown(text.as_str()),
        None => text.clone(),
    };
    let rich = split_text(rich_src.as_str(), TEXT_LIMIT);
    let plain = split_text(text.as_str(), TEXT_LIMIT);
    let mut steps: Vec<SendStep> = Vec::new();
    push_chunk_steps(&mut steps, SendCall::Message, &rich, &plain, is_html_mode(parse_mode));
    proof {
        assert(rich@.map_values(|s: String| s@) =~= chunks_of(rich_src@, TEXT_LIMIT as nat));
        assert(plain@.map_values(|s: String| s@) =~= chunks_of(text@, TEXT_LIMIT as nat));
    }
    steps
}

/// The steps of a media command; see `caption_steps`.
pub fn plan_caption(call: SendCall, caption: &Option<String>) -> (steps: Vec<SendStep>)
    ensures
        caption_steps(steps@, call, *caption),
{
    let mut steps: Vec<SendStep> = Vec::new();
    match caption {
        Some(c) => {
            let formatted = format_telegram_markdown(c.as_str());
            let rich = split_text(formatted.as_str(), CAPTION_LIMIT);
            let plain = split_text(c.as_str(), CAPTION_LIMIT);
            proof {
                assert(rich@.map_values(|s: String| s@) =~= chunks_of(markdown_html(c@), CAPTION_LIMIT as nat));
                assert(plain@.map_values(|s: String| s@) =~= chunks_of(c@, CAPTION_LIMIT as nat));
            }
            if rich.len() > 0 {
                push_chunk_steps(&mut steps, call, &rich, &plain, true);
            } else {
                steps.push(bare(call, true));
            }
        },
        None => {
            steps.push(bare(call, true));
        },
    }
    steps
}

/// How an outbound command is carried out.
///
/// Text is chunked against the message limit and captions against the
/// caption limit, after markdown formatting where it applies; only the first
/// step carries media, buttons and keyboard. Media commands name the file to
/// check first. An edit sends its formatted text with the raw text to fall
/// back on, or else its new buttons; delete and typing are single calls.
pub fn plan_outgoing(msg: &OutgoingMessageType) -> (p: DispatchPlan)
    ensures
        match *msg {
            OutgoingMessageType::TextMessage(d) => p.media_path is None && text_steps(
                p.steps@,
                d.text@,
                d.parse_mode,
            ),
            OutgoingMessageType::ImageMessage(d) => media_plan(p, d.image_path, SendCall::Photo, d.caption),
            OutgoingMessageType::AudioMessage(d) => media_plan(p, d.audio_path, SendCall::Audio, d.caption),
            OutgoingMessageType::VoiceMessage(d) => media_plan(p, d.voice_path, SendCall::Voice, d.caption),
            OutgoingMessageType::VideoMessage(d) => media_plan(p, d.video_path, SendCall::Video, d.caption),
            OutgoingMessageType::AnimationMessage(d) => media_plan(
                p,
                d.animation_path,
                SendCall::Animation,
                d.caption,
            ),
            OutgoingMessageType::DocumentMessage(d) => media_plan(
                p,
                d.document_path,
                SendCall::Document,
                d.caption,
            ),
            OutgoingMessageType::VideoNoteMessage(d) => bare_media_plan(
                p,
                d.video_note_path,
                SendCall::VideoNote,
            ),
            OutgoingMessageType::StickerMessage(d) => bare_media_plan(p, d.sticker_path, SendCall::Sticker),
            OutgoingMessageType::EditMessage(d) => p.media_path is None && match d.new_text {
                Some(t) => p.steps@.len() == 1 && edit_text_step(p.steps@[0], t),
                None => if d.new_buttons is Some {
                    p.steps@.len() == 1 && bare_step(p.steps@[0], SendCall::EditMarkup, true)
                } else {
                    p.steps@.len() == 0
                },
            },
            OutgoingMessageType::DeleteMessage(_) => p.media_path is None && p.steps@.len() == 1
                && bare_step(p.steps@[0], SendCall::Delete, false),
            OutgoingMessageType::TypingMessage => p.media_path is None && p.steps@.len() == 1
                && bare_step(p.steps@[0], SendCall::Typing, false),
        },
{
    match msg {
        OutgoingMessageType::TextMessage(d) => DispatchPlan {
            media_path: None,
            steps: plan_text(&d.text, &d.parse_mode),
        },
        OutgoingMessageType::ImageMessage(d) => DispatchPlan {
            media_path: Some(d.image_path.clone()),
            steps: plan_caption(SendCall::Photo, &d.caption),
        },
        OutgoingMessageType::AudioMessage(d) => DispatchPlan {
            media_path: Some(d.audio_path.clone()),
            steps: plan_caption(SendCall::Audio, &d.caption),
        },
        OutgoingMessageType::VoiceMessage(d) => DispatchPlan {
            media_path: Some(d.voice_path.clone()),
            steps: plan_caption(SendCall::Voice, &d.caption),
        },
        OutgoingMessageType::VideoMessage(d) => DispatchPlan {
            media_path: Some(d.video_path.clone()),
            steps: plan_caption(SendCall::Video, &d.caption),
        },
        OutgoingMessageType::AnimationMessage(d) => DispatchPlan {
            media_path: Some(d.animation_path.clone()),
            steps: plan_caption(SendCall::Animation, &d.caption),
        },
        OutgoingMessageType::DocumentMessage(d) => DispatchPlan {
            media_path: Some(d.document_path.clone()),
            steps: plan_caption(SendCall::Document, &d.caption),
        },
        OutgoingMessageType::VideoNoteMessage(d) => DispatchPlan {
            media_path: Some(d.video_note_path.clone()),
            steps: vec![bare(SendCall::VideoNote, true)],
        },
        OutgoingMessageType::StickerMessage(d) => DispatchPlan {
            media_path: Some(d.sticker_path.clone()),
            steps: vec![bare(SendCall::Sticker, true)],
        },
        OutgoingMessageType::EditMessage(d) => {
            let mut steps: Vec<SendStep> = Vec::new();
            match &d.new_text {
                Some(t) => {
                    let rich = format_telegram_markdown(t.as_str());
                    steps.push(
                        SendStep {
                            call: SendCall::EditText,
                            text: Some(rich),
                            fallback_text: Some(t.clone()),
                            html: true,
                            attach: true,
                        },
                    );
                },
                None => {
                    if d.new_buttons.is_some() {
                        steps.push(bare(SendCall::EditMarkup, true));
                    }
                },
            }
            DispatchPlan { media_path: None, steps }
        },
        OutgoingMessageType::DeleteMessage(_) => DispatchPlan {
            media_path: None,
            steps: vec![bare(SendCall::Delete, false)],
        },
        OutgoingMessageType::TypingMessage => DispatchPlan {
            media_path: None,
            steps: vec![bare(SendCall::Typing, false)],
        },
    }
}

/// What follows an attempt at a step.
#[derive(PartialEq, Eq, Structural)]
pub enum NextAttempt {
    /// The step is delivered.
    Done,
    /// Send the step again with its fallback text and no formatting.
    RetryPlain,
    /// Log the failure and go on with the next step.
    GiveUp,
}

/// The decision after the formatted attempt at `step`: a rejected attempt
/// is retried once, unformatted, when the step has fallback text.
pub fn after_rich_attempt(step: &SendStep, delivered: bool) -> (r: NextAttempt)
    ensures
        delivered ==> r == NextAttempt::Done,
        !delivered && step.fallback_text is Some ==> r == NextAttempt::RetryPlain,
        !delivered && step.fallback_text is None ==> r == NextAttempt::GiveUp,
{
    if delivered {
        NextAttempt::Done
    } else if step.fallback_text.is_some() {
        NextAttempt::RetryPlain
    } else {
        NextAttempt::GiveUp
    }
}

/// The decision after the unformatted attempt: there is no third try.
pub fn after_plain_attempt(delivered: bool) -> (r: NextAttempt)
    ensures
        delivered ==> r == NextAttempt::Done,
        !delivered ==> r == NextAttempt::GiveUp,
{
    if delivered {
        NextAttempt::Done
    } else {
        NextAttempt::GiveUp
    }
}

/// A text is present, not empty, and within `limit` characters.
pub open spec fn fits_limit(o: Option<String>, limit: nat) -> bool {
    o matches Some(t) && 0 < t@.len() <= limit
}

/// How a text command is sent, for every text and parse mode: a text longer
/// than the message limit goes out as several sends; every send and every
/// fallback holds at most the limit; each send has unformatted text to retry
/// with when the platform rejects it (see `after_rich_attempt`); and only the
/// first send carries buttons and keyboard.
pub proof fn lemma_text_dispatch(steps: Seq<SendStep>, text: Seq<char>, mode: Option<String>)
    requires
        text_steps(steps, text, mode),
    ensures
        rich_source(text, mode).len() > TEXT_LIMIT ==> steps.len() > 1,
        forall|i: int|
            0 <= i < steps.len() ==> fits_limit((#[trigger] steps[i]).text, TEXT_LIMIT as nat),
        forall|i: int|
            0 <= i < steps.len() ==> fits_limit(
                (#[trigger] steps[i]).fallback_text,
                TEXT_LIMIT as nat,
            ),
        forall|i: int| 0 <= i < steps.len() ==> ((#[trigger] steps[i]).attach <==> i == 0),
{
    let rich = chunks_of(rich_source(text, mode), TEXT_LIMIT as nat);
    let plain = chunks_of(text, TEXT_LIMIT as nat);
    lemma_chunks_within_limit(rich_source(text, mode), TEXT_LIMIT as nat);
    lemma_chunks_within_limit(text, TEXT_LIMIT as nat);
    assert forall|i: int| 0 <= i < steps.len() implies fits_limit(
        (#[trigger] steps[i]).text,
        TEXT_LIMIT as nat,
    ) by {
        assert(chunk_step(steps[i], i, SendCall::Message, rich, plain, html_mode(mode)));
        assert(0 < rich[i].len() <= TEXT_LIMIT);
    }
    assert forall|i: int| 0 <= i < steps.len() implies fits_limit(
        (#[trigger] steps[i]).fallback_text,
        TEXT_LIMIT as nat,
    ) by {
        assert(chunk_step(steps[i], i, SendCall::Message, rich, plain, html_mode(mode)));
        assert(0 < rich[i].len() <= TEXT_LIMIT);
        if i < plain.len() {
            assert(0 < plain[i].len() <= TEXT_LIMIT);
        }
    }
    assert forall|i: int| 0 <= i < steps.len() implies ((#[trigger] steps[i]).attach <==> i == 0) by {
        assert(chunk_step(steps[i], i, SendCall::Message, rich, plain, html_mode(mode)));
    }
    if rich_source(text, mode).len() > TEXT_LIMIT && rich.len() == 1 {
        rich.lemma_flatten_one_element();
        assert(rich[0].len() <= TEXT_LIMIT);
    }
}

/// Lays out a reply keyboard: a single row of several buttons is packed
/// under the reply-keyboard budget; other arrangements and options are kept.
pub fn organize_reply_keyboard(k: ReplyKeyboardMarkup) -> (r: ReplyKeyboardMarkup)
    ensures
        wants_auto_layout(k.keyboard@) ==> rows_view(r.keyboard@) == packed_rows(
            k.keyboard@[0]@,
            REPLY_ROW_BUDGET as nat,
        ),
        !wants_auto_layout(k.keyboard@) ==> r.keyboard == k.keyboard,
        r.is_persistent == k.is_persistent,
        r.resize_keyboard == k.resize_keyboard,
        r.one_time_keyboard == k.one_time_keyboard,
        r.input_field_placeholder == k.input_field_placeholder,
        r.selective == k.selective,
{
    let ReplyKeyboardMarkup {
        keyboard,
        is_persistent,
        resize_keyboard,
        one_time_keyboard,
        input_field_placeholder,
        selective,
    } = k;
    ReplyKeyboardMarkup {
        keyboard: organize_rows(keyboard, REPLY_ROW_BUDGET),
        is_persistent,
        resize_keyboard,
        one_time_keyboard,
        input_field_placeholder,
        selective,
    }
}

} // verus!
