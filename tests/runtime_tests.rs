use ratatoskr::backoff::BackoffState;
use ratatoskr::dispatch::{after_plain_attempt, after_rich_attempt, plan_outgoing, NextAttempt, SendCall};
use ratatoskr::incoming::{file_type_to_string, select_best_photo, FileType};
use ratatoskr::outgoing::{
    ButtonInfo, DeleteMessageData, OutgoingMessage, EditMessageData, ImageMessageData, MessageTarget,
    OutgoingMessageType, StickerMessageData, TextMessageData,
};
use ratatoskr::pipe::{PipeBroker, PipeReader, ReaderAction, ReaderEvent, ReaderPhase};

fn text_msg(text: &str, parse_mode: Option<&str>) -> OutgoingMessageType {
    OutgoingMessageType::TextMessage(TextMessageData {
        text: text.to_string(),
        buttons: Some(vec![vec![ButtonInfo { text: "ok".to_string(), callback_data: "ok".to_string() }]]),
        reply_keyboard: None,
        parse_mode: parse_mode.map(|s| s.to_string()),
        disable_web_page_preview: None,
    })
}

#[test]
fn backoff_doubles_caps_and_resets() {
    let mut b = BackoffState::new(500, 30_000);
    let mut seen = vec![];
    for _ in 0..8 {
        seen.push(b.current);
        b.advance();
    }
    assert_eq!(seen, vec![500, 1000, 2000, 4000, 8000, 16000, 30000, 30000]);
    b.reset();
    assert_eq!(b.current, 500);
}

#[test]
fn pipe_reader_reopens_after_writer_closes() {
    let broker = PipeBroker::new("/tmp/out.pipe".to_string());
    assert_eq!(broker.inbound_pipe, "/tmp/out.pipe");
    let mut r = broker.reader();
    assert!(matches!(r.on_event(ReaderEvent::OpenFailed), ReaderAction::RetryAfter(500)));
    assert!(matches!(r.on_event(ReaderEvent::OpenFailed), ReaderAction::RetryAfter(500)));
    assert!(matches!(r.on_event(ReaderEvent::Opened), ReaderAction::ReadLine));
    match r.on_event(ReaderEvent::Line("  {\"a\":1}\n".to_string())) {
        ReaderAction::Forward(p) => assert_eq!(p, "{\"a\":1}"),
        _ => panic!("expected a forwarded line"),
    }
    assert!(matches!(r.on_event(ReaderEvent::Line(" \n".to_string())), ReaderAction::ReadLine));
    assert!(matches!(r.on_event(ReaderEvent::EndOfFile), ReaderAction::Open));
    assert!(r.phase == ReaderPhase::Opening);
    assert!(matches!(r.on_event(ReaderEvent::Opened), ReaderAction::ReadLine));
    match r.on_event(ReaderEvent::Line("hello from pipe\n".to_string())) {
        ReaderAction::Forward(p) => assert_eq!(p, "hello from pipe"),
        _ => panic!("expected a forwarded line"),
    }
    assert!(matches!(r.on_event(ReaderEvent::ConsumerGone), ReaderAction::Stop));
    assert!(matches!(r.on_event(ReaderEvent::Opened), ReaderAction::Stop));
}

#[test]
fn tenant_reader_backs_off_exponentially() {
    let mut r = PipeReader::for_tenant();
    let mut waits = vec![];
    for _ in 0..3 {
        if let ReaderAction::RetryAfter(ms) = r.on_event(ReaderEvent::OpenFailed) {
            waits.push(ms);
        }
    }
    assert_eq!(waits, vec![500, 1000, 2000]);
    r.on_event(ReaderEvent::Opened);
    assert_eq!(r.backoff.current, 500);
    assert!(matches!(r.on_event(ReaderEvent::ReadFailed), ReaderAction::Open));
}

#[test]
fn long_text_is_split_and_buttons_go_first() {
    let text = "word ".repeat(1000);
    let plan = plan_outgoing(&text_msg(&text, None));
    assert!(plan.media_path.is_none());
    assert_eq!(plan.steps.len(), 2);
    for (i, s) in plan.steps.iter().enumerate() {
        assert!(s.call == SendCall::Message);
        assert!(s.text.as_ref().unwrap().chars().count() <= 4096);
        assert_eq!(s.attach, i == 0);
        assert!(!s.html);
    }
    let joined: String = plan.steps.iter().map(|s| s.text.clone().unwrap()).collect();
    assert_eq!(joined, text);
}

#[test]
fn rejected_formatted_send_falls_back_to_plain() {
    let plan = plan_outgoing(&text_msg("**hi** <there>", Some("HTML")));
    assert_eq!(plan.steps.len(), 1);
    let s = &plan.steps[0];
    assert!(s.html);
    assert_eq!(s.text.as_deref(), Some("<b>hi</b> &lt;there&gt;"));
    assert_eq!(s.fallback_text.as_deref(), Some("**hi** <there>"));
    assert!(after_rich_attempt(s, false) == NextAttempt::RetryPlain);
    assert!(after_rich_attempt(s, true) == NextAttempt::Done);
    assert!(after_plain_attempt(true) == NextAttempt::Done);
    assert!(after_plain_attempt(false) == NextAttempt::GiveUp);
}

#[test]
fn other_parse_modes_format_without_html() {
    let plan = plan_outgoing(&text_msg("*x*", Some("Plain")));
    assert_eq!(plan.steps[0].text.as_deref(), Some("<i>x</i>"));
    assert!(!plan.steps[0].html);
}

#[test]
fn image_caption_is_chunked_against_caption_limit() {
    let caption = "cap ".repeat(300);
    let msg = OutgoingMessageType::ImageMessage(ImageMessageData {
        image_path: "/tmp/img.png".to_string(),
        caption: Some(caption.clone()),
        buttons: None,
        reply_keyboard: None,
    });
    let plan = plan_outgoing(&msg);
    assert_eq!(plan.media_path.as_deref(), Some("/tmp/img.png"));
    assert_eq!(plan.steps.len(), 2);
    assert!(plan.steps[0].call == SendCall::Photo && plan.steps[0].attach && plan.steps[0].html);
    assert!(plan.steps[1].call == SendCall::Message && !plan.steps[1].attach);
    assert!(plan.steps.iter().all(|s| s.text.as_ref().unwrap().chars().count() <= 1024));
    let no_caption = OutgoingMessageType::ImageMessage(ImageMessageData {
        image_path: "/tmp/img.png".to_string(),
        caption: None,
        buttons: None,
        reply_keyboard: None,
    });
    let plan = plan_outgoing(&no_caption);
    assert_eq!(plan.steps.len(), 1);
    assert!(plan.steps[0].text.is_none() && plan.steps[0].fallback_text.is_none());
    assert!(after_rich_attempt(&plan.steps[0], false) == NextAttempt::GiveUp);
}

#[test]
fn edit_delete_sticker_and_typing_plans() {
    let edit = OutgoingMessageType::EditMessage(EditMessageData {
        message_id: 7,
        new_text: Some("_new_".to_string()),
        new_buttons: None,
    });
    let plan = plan_outgoing(&edit);
    assert!(plan.steps[0].call == SendCall::EditText);
    assert_eq!(plan.steps[0].text.as_deref(), Some("<i>new</i>"));
    assert_eq!(plan.steps[0].fallback_text.as_deref(), Some("_new_"));
    let markup_only = OutgoingMessageType::EditMessage(EditMessageData {
        message_id: 7,
        new_text: None,
        new_buttons: Some(vec![]),
    });
    assert!(plan_outgoing(&markup_only).steps[0].call == SendCall::EditMarkup);
    let nothing = OutgoingMessageType::EditMessage(EditMessageData { message_id: 7, new_text: None, new_buttons: None });
    assert!(plan_outgoing(&nothing).steps.is_empty());
    let del = plan_outgoing(&OutgoingMessageType::DeleteMessage(DeleteMessageData { message_id: 3 }));
    assert!(del.steps.len() == 1 && del.steps[0].call == SendCall::Delete);
    let typing = plan_outgoing(&OutgoingMessageType::TypingMessage);
    assert!(typing.steps[0].call == SendCall::Typing && typing.media_path.is_none());
    let sticker = plan_outgoing(&OutgoingMessageType::StickerMessage(StickerMessageData {
        sticker_path: "/tmp/s.webp".to_string(),
        emoji: None,
        buttons: None,
        reply_keyboard: None,
    }));
    assert_eq!(sticker.media_path.as_deref(), Some("/tmp/s.webp"));
    assert!(sticker.steps[0].call == SendCall::Sticker);
    let _ = MessageTarget { platform: "telegram".to_string(), chat_id: 1, thread_id: None };
}

#[test]
fn best_photo_and_file_type_names() {
    assert_eq!(select_best_photo(&vec![]), None);
    assert_eq!(select_best_photo(&vec![(90, 90), (320, 240), (240, 320), (100, 100)]), Some(2));
    assert_eq!(select_best_photo(&vec![(u32::MAX, u32::MAX), (1, 1)]), Some(0));
    assert_eq!(file_type_to_string(&FileType::VideoNote), "videonote");
    assert_eq!(file_type_to_string(&FileType::Photo), "photo");
}

#[test]
fn outgoing_builders_target_the_platform_chat() {
    let m = OutgoingMessage::new_text_message(-42, "hi".to_string(), None, 1_700_000_000_000);
    assert_eq!(m.target.platform, "telegram");
    assert_eq!(m.target.chat_id, -42);
    assert!(m.target.thread_id.is_none());
    assert_eq!(m.timestamp_ms, 1_700_000_000_000);
    match m.message_type {
        OutgoingMessageType::TextMessage(d) => {
            assert_eq!(d.text, "hi");
            assert!(d.parse_mode.is_none() && d.reply_keyboard.is_none());
        }
        _ => panic!("expected a text message"),
    }
    let d = OutgoingMessage::new_delete_message(5, 9, 0);
    assert!(matches!(d.message_type, OutgoingMessageType::DeleteMessage(DeleteMessageData { message_id: 9 })));
    let v = OutgoingMessage::new_video_message(1, "/v.mp4".to_string(), None, Some(3), Some(640), Some(480), Some(true), None, 0);
    match v.message_type {
        OutgoingMessageType::VideoMessage(d) => {
            assert_eq!((d.duration, d.width, d.height, d.supports_streaming), (Some(3), Some(640), Some(480), Some(true)));
        }
        _ => panic!("expected a video message"),
    }
}
