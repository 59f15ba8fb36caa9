use vstd::prelude::*;

verus! {

/// An inline button: its label and the data sent back when it is pressed.
pub struct ButtonInfo {
    pub text: String,
    pub callback_data: String,
}

/// Asks the client to offer a poll of the given type ("quiz" or "regular").
pub struct RequestPoll {
    pub poll_type: Option<String>,
}

pub struct WebApp {
    pub url: String,
}

/// A button of a reply keyboard.
pub struct ReplyKeyboardButton {
    pub text: String,
    pub request_contact: Option<bool>,
    pub request_location: Option<bool>,
    pub request_poll: Option<RequestPoll>,
    pub web_app: Option<WebApp>,
}

pub struct ReplyKeyboardMarkup {
    pub keyboard: Vec<Vec<ReplyKeyboardButton>>,
    pub is_persistent: Option<bool>,
    pub resize_keyboard: Option<bool>,
    pub one_time_keyboard: Option<bool>,
    pub input_field_placeholder: Option<String>,
    pub selective: Option<bool>,
}

/// Where a command goes.
pub struct MessageTarget {
    pub platform: String,
    pub chat_id: i64,
    pub thread_id: Option<i32>,
}

pub struct TextMessageData {
    pub text: String,
    pub buttons: Option<Vec<Vec<ButtonInfo>>>,
    pub reply_keyboard: Option<ReplyKeyboardMarkup>,
    pub parse_mode: Option<String>,
    pub disable_web_page_preview: Option<bool>,
}

pub struct ImageMessageData {
    pub image_path: String,
    pub caption: Option<String>,
    pub buttons: Option<Vec<Vec<ButtonInfo>>>,
    pub reply_keyboard: Option<ReplyKeyboardMarkup>,
}

pub struct AudioMessageData {
    pub audio_path: String,
    pub caption: Option<String>,
    pub duration: Option<u32>,
    pub performer: Option<String>,
    pub title: Option<String>,
    pub buttons: Option<Vec<Vec<ButtonInfo>>>,
    pub reply_keyboard: Option<ReplyKeyboardMarkup>,
}

pub struct VoiceMessageData {
    pub voice_path: String,
    pub caption: Option<String>,
    pub duration: Option<u32>,
    pub buttons: Option<Vec<Vec<ButtonInfo>>>,
    pub reply_keyboard: Option<ReplyKeyboardMarkup>,
}

pub struct VideoMessageData {
    pub video_path: String,
    pub caption: Option<String>,
    pub duration: Option<u32>,
    pub width: Option<u32>,
    pub height: Option<u32>,
    pub supports_streaming: Option<bool>,
    pub buttons: Option<Vec<Vec<ButtonInfo>>>,
    pub reply_keyboard: Option<ReplyKeyboardMarkup>,
}

pub struct VideoNoteMessageData {
    pub video_note_path: String,
    pub duration: Option<u32>,
    pub length: Option<u32>,
    pub buttons: Option<Vec<Vec<ButtonInfo>>>,
    pub reply_keyboard: Option<ReplyKeyboardMarkup>,
}

pub struct StickerMessageData {
    pub sticker_path: String,
    pub emoji: Option<String>,
    pub buttons: Option<Vec<Vec<ButtonInfo>>>,
    pub reply_keyboard: Option<ReplyKeyboardMarkup>,
}

pub struct AnimationMessageData {
    pub animation_path: String,
    pub caption: Option<String>,
    pub duration: Option<u32>,
    pub width: Option<u32>,
    pub height: Option<u32>,
    pub buttons: Option<Vec<Vec<ButtonInfo>>>,
    pub reply_keyboard: Option<ReplyKeyboardMarkup>,
}

pub struct DocumentMessageData {
    pub document_path: String,
    pub filename: Option<String>,
    pub caption: Option<String>,
    pub buttons: Option<Vec<Vec<ButtonInfo>>>,
    pub reply_keyboard: Option<ReplyKeyboardMarkup>,
}

pub struct EditMessageData {
    pub message_id: i32,
    pub new_text: Option<String>,
    pub new_buttons: Option<Vec<Vec<ButtonInfo>>>,
}

pub struct DeleteMessageData {
    pub message_id: i32,
}

/// The kinds of command that the handler sends towards the platform.
pub enum OutgoingMessageType {
    TextMessage(TextMessageData),
    ImageMessage(ImageMessageData),
    AudioMessage(AudioMessageData),
    VoiceMessage(VoiceMessageData),
    VideoMessage(VideoMessageData),
    VideoNoteMessage(VideoNoteMessageData),
    DocumentMessage(DocumentMessageData),
    StickerMessage(StickerMessageData),
    AnimationMessage(AnimationMessageData),
    EditMessage(EditMessageData),
    DeleteMessage(DeleteMessageData),
    TypingMessage,
}

/// An outbound command: what to send, when it was made, and where it goes.
pub struct OutgoingMessage {
    pub message_type: OutgoingMessageType,
    /// When the command was made, in milliseconds since the Unix epoch.
    pub timestamp_ms: i64,
    pub target: MessageTarget,
}

/// A chat of the platform, outside any forum thread.
pub open spec fn telegram_chat(t: MessageTarget, chat_id: i64) -> bool {
    t.platform@ == "telegram"@ && t.chat_id == chat_id && t.thread_id is None
}

fn telegram_target(chat_id: i64) -> (r: MessageTarget)
    ensures
        telegram_chat(r, chat_id),
{
    MessageTarget { platform: "telegram".to_owned(), chat_id, thread_id: None }
}

impl OutgoingMessage {
    pub fn new_text_message(
        chat_id: i64,
        text: String,
        buttons: Option<Vec<Vec<ButtonInfo>>>,
        timestamp_ms: i64,
    ) -> (r: Self)
        ensures
            telegram_chat(r.target, chat_id),
            r.timestamp_ms == timestamp_ms,
            r.message_type matches OutgoingMessageType::TextMessage(d) && d.text == text
                && d.buttons == buttons && d.reply_keyboard is None && d.parse_mode is None
                && d.disable_web_page_preview is None,
    {
        OutgoingMessage {
            message_type: OutgoingMessageType::TextMessage(
                TextMessageData {
                    text,
                    buttons,
                    reply_keyboard: None,
                    parse_mode: None,
                    disable_web_page_preview: None,
                },
            ),
            timestamp_ms,
            target: telegram_target(chat_id),
        }
    }

    pub fn new_image_message(
        chat_id: i64,
        image_path: String,
        caption: Option<String>,
        buttons: Option<Vec<Vec<ButtonInfo>>>,
        timestamp_ms: i64,
    ) -> (r: Self)
        ensures
            telegram_chat(r.target, chat_id),
            r.timestamp_ms == timestamp_ms,
            r.message_type matches OutgoingMessageType::ImageMessage(d) && d.image_path
                == image_path && d.caption == caption && d.buttons == buttons
                && d.reply_keyboard is None,
    {
        OutgoingMessage {
            message_type: OutgoingMessageType::ImageMessage(
                ImageMessageData { image_path, caption, buttons, reply_keyboard: None },
            ),
            timestamp_ms,
            target: telegram_target(chat_id),
        }
    }

    pub fn new_audio_message(
        chat_id: i64,
        audio_path: String,
        caption: Option<String>,
        duration: Option<u32>,
        performer: Option<String>,
        title: Option<String>,
        buttons: Option<Vec<Vec<ButtonInfo>>>,
        timestamp_ms: i64,
    ) -> (r: Self)
        ensures
            telegram_chat(r.target, chat_id),
            r.timestamp_ms == timestamp_ms,
            r.message_type matches OutgoingMessageType::AudioMessage(d) && d.audio_path
                == audio_path && d.caption == caption && d.duration == duration && d.performer
                == performer && d.title == title && d.buttons == buttons
                && d.reply_keyboard is None,
    {
        OutgoingMessage {
            message_type: OutgoingMessageType::AudioMessage(
                AudioMessageData {
                    audio_path,
                    caption,
                    duration,
                    performer,
                    title,
                    buttons,
                    reply_keyboard: None,
                },
            ),
            timestamp_ms,
            target: telegram_target(chat_id),
        }
    }

    pub fn new_voice_message(
        chat_id: i64,
        voice_path: String,
        caption: Option<String>,
        duration: Option<u32>,
        buttons: Option<Vec<Vec<ButtonInfo>>>,
        timestamp_ms: i64,
    ) -> (r: Self)
        ensures
            telegram_chat(r.target, chat_id),
            r.timestamp_ms == timestamp_ms,
            r.message_type matches OutgoingMessageType::VoiceMessage(d) && d.voice_path
                == voice_path && d.caption == caption && d.duration == duration && d.buttons
                == buttons && d.reply_keyboard is None,
    {
        OutgoingMessage {
            message_type: OutgoingMessageType::VoiceMessage(
                VoiceMessageData { voice_path, caption, duration, buttons, reply_keyboard: None },
            ),
            timestamp_ms,
            target: telegram_target(chat_id),
        }
    }

    pub fn new_video_message(
        chat_id: i64,
        video_path: String,
        caption: Option<String>,
        duration: Option<u32>,
        width: Option<u32>,
        height: Option<u32>,
        supports_streaming: Option<bool>,
        buttons: Option<Vec<Vec<ButtonInfo>>>,
        timestamp_ms: i64,
    ) -> (r: Self)
        ensures
            telegram_chat(r.target, chat_id),
            r.timestamp_ms == timestamp_ms,
            r.message_type matches OutgoingMessageType::VideoMessage(d) && d.video_path
                == video_path && d.caption == caption && d.duration == duration && d.width
                == width && d.height == height && d.supports_streaming == supports_streaming
                && d.buttons == buttons && d.reply_keyboard is None,
    {
        OutgoingMessage {
            message_type: OutgoingMessageType::VideoMessage(
                VideoMessageData {
                    video_path,
                    caption,
                    duration,
                    width,
                    height,
                    supports_streaming,
                    buttons,
                    reply_keyboard: None,
                },
            ),
            timestamp_ms,
            target: telegram_target(chat_id),
        }
    }

    pub fn new_video_note_message(
        chat_id: i64,
        video_note_path: String,
        duration: Option<u32>,
        length: Option<u32>,
        buttons: Option<Vec<Vec<ButtonInfo>>>,
        timestamp_ms: i64,
    ) -> (r: Self)
        ensures
            telegram_chat(r.target, chat_id),
            r.timestamp_ms == timestamp_ms,
            r.message_type matches OutgoingMessageType::VideoNoteMessage(d) && d.video_note_path
                == video_note_path && d.duration == duration && d.length == length && d.buttons
                == buttons && d.reply_keyboard is None,
    {
        OutgoingMessage {
            message_type: OutgoingMessageType::VideoNoteMessage(
                VideoNoteMessageData {
                    video_note_path,
                    duration,
                    length,
                    buttons,
                    reply_keyboard: None,
                },
            ),
            timestamp_ms,
            target: telegram_target(chat_id),
        }
    }

    pub fn new_sticker_message(
        chat_id: i64,
        sticker_path: String,
        emoji: Option<String>,
        buttons: Option<Vec<Vec<ButtonInfo>>>,
        timestamp_ms: i64,
    ) -> (r: Self)
        ensures
            telegram_chat(r.target, chat_id),
            r.timestamp_ms == timestamp_ms,
            r.message_type matches OutgoingMessageType::StickerMessage(d) && d.sticker_path
                == sticker_path && d.emoji == emoji && d.buttons == buttons
                && d.reply_keyboard is None,
    {
        OutgoingMessage {
            message_type: OutgoingMessageType::StickerMessage(
                StickerMessageData { sticker_path, emoji, buttons, reply_keyboard: None },
            ),
            timestamp_ms,
            target: telegram_target(chat_id),
        }
    }

    pub fn new_animation_message(
        chat_id: i64,
        animation_path: String,
        caption: Option<String>,
        duration: Option<u32>,
        width: Option<u32>,
        height: Option<u32>,
        buttons: Option<Vec<Vec<ButtonInfo>>>,
        timestamp_ms: i64,
    ) -> (r: Self)
        ensures
            telegram_chat(r.target, chat_id),
            r.timestamp_ms == timestamp_ms,
            r.message_type matches OutgoingMessageType::AnimationMessage(d) && d.animation_path
                == animation_path && d.caption == caption && d.duration == duration && d.width
                == width && d.height == height && d.buttons == buttons
                && d.reply_keyboard is None,
    {
        OutgoingMessage {
            message_type: OutgoingMessageType::AnimationMessage(
                AnimationMessageData {
                    animation_path,
                    caption,
                    duration,
                    width,
                    height,
                    buttons,
                    reply_keyboard: None,
                },
            ),
            timestamp_ms,
            target: telegram_target(chat_id),
        }
    }

    pub fn new_edit_message(
        chat_id: i64,
        message_id: i32,
        new_text: Option<String>,
        new_buttons: Option<Vec<Vec<ButtonInfo>>>,
        timestamp_ms: i64,
    ) -> (r: Self)
        ensures
            telegram_chat(r.target, chat_id),
            r.timestamp_ms == timestamp_ms,
            r.message_type matches OutgoingMessageType::EditMessage(d) && d.message_id
                == message_id && d.new_text == new_text && d.new_buttons == new_buttons,
    {
        OutgoingMessage {
            message_type: OutgoingMessageType::EditMessage(
                EditMessageData { message_id, new_text, new_buttons },
            ),
            timestamp_ms,
            target: telegram_target(chat_id),
        }
    }

    pub fn new_delete_message(chat_id: i64, message_id: i32, timestamp_ms: i64) -> (r: Self)
        ensures
            telegram_chat(r.target, chat_id),
            r.timestamp_ms == timestamp_ms,
            r.message_type matches OutgoingMessageType::DeleteMessage(d) && d.message_id
                == message_id,
    {
        OutgoingMessage {
            message_type: OutgoingMessageType::DeleteMessage(DeleteMessageData { message_id }),
            timestamp_ms,
            target: telegram_target(chat_id),
        }
    }

    pub fn new_document_message(
        chat_id: i64,
        document_path: String,
        filename: Option<String>,
        caption: Option<String>,
        buttons: Option<Vec<Vec<ButtonInfo>>>,
        timestamp_ms: i64,
    ) -> (r: Self)
        ensures
            telegram_chat(r.target, chat_id),
            r.timestamp_ms == timestamp_ms,
            r.message_type matches OutgoingMessageType::DocumentMessage(d) && d.document_path
                == document_path && d.filename == filename && d.caption == caption && d.buttons
                == buttons && d.reply_keyboard is None,
    {
        OutgoingMessage {
            message_type: OutgoingMessageType::DocumentMessage(
                DocumentMessageData {
                    document_path,
                    filename,
                    caption,
                    buttons,
                    reply_keyboard: None,
                },
            ),
            timestamp_ms,
            target: telegram_target(chat_id),
        }
    }
}

impl ReplyKeyboardButton {
    /// A plain text button.
    pub fn new_text(text: String) -> (r: Self)
        ensures
            r.text == text,
            r.request_contact is None,
            r.request_location is None,
            r.request_poll is None,
            r.web_app is None,
    {
        ReplyKeyboardButton {
            text,
            request_contact: None,
            request_location: None,
            request_poll: None,
            web_app: None,
        }
    }

    /// A button that shares the user's location.
    pub fn new_location(text: String) -> (r: Self)
        ensures
            r.text == text,
            r.request_contact is None,
            r.request_location == Some(true),
            r.request_poll is None,
            r.web_app is None,
    {
        ReplyKeyboardButton {
            text,
            request_contact: None,
            request_location: Some(true),
            request_poll: None,
            web_app: None,
        }
    }

    /// A button that shares the user's contact.
    pub fn new_contact(text: String) -> (r: Self)
        ensures
            r.text == text,
            r.request_contact == Some(true),
            r.request_location is None,
            r.request_poll is None,
            r.web_app is None,
    {
        ReplyKeyboardButton {
            text,
            request_contact: Some(true),
            request_location: None,
            request_poll: None,
            web_app: None,
        }
    }

    /// A button that asks the user to create a poll.
    pub fn new_poll(text: String, poll_type: Option<String>) -> (r: Self)
        ensures
            r.text == text,
            r.request_contact is None,
            r.request_location is None,
            r.request_poll matches Some(p) && p.poll_type == poll_type,
            r.web_app is None,
    {
        ReplyKeyboardButton {
            text,
            request_contact: None,
            request_location: None,
            request_poll: Some(RequestPoll { poll_type }),
            web_app: None,
        }
    }

    /// A button that opens a web app at `url`.
    pub fn new_web_app(text: String, url: String) -> (r: Self)
        ensures
            r.text == text,
            r.request_contact is None,
            r.request_location is None,
            r.request_poll is None,
            r.web_app matches Some(w) && w.url == url,
    {
        ReplyKeyboardButton {
            text,
            request_contact: None,
            request_location: None,
            request_poll: None,
            web_app: Some(WebApp { url }),
        }
    }
}

impl ReplyKeyboardMarkup {
    /// A keyboard of the given rows, resized to fit, with no other option set.
    pub fn new(keyboard: Vec<Vec<ReplyKeyboardButton>>) -> (r: Self)
        ensures
            r.keyboard == keyboard,
            r.is_persistent is None,
            r.resize_keyboard == Some(true),
            r.one_time_keyboard is None,
            r.input_field_placeholder is None,
            r.selective is None,
    {
        ReplyKeyboardMarkup {
            keyboard,
            is_persistent: None,
            resize_keyboard: Some(true),
            one_time_keyboard: None,
            input_field_placeholder: None,
            selective: None,
        }
    }

    pub fn one_time(self) -> (r: Self)
        ensures
            r == (ReplyKeyboardMarkup { one_time_keyboard: Some(true), ..self }),
    {
        let mut k = self;
        k.one_time_keyboard = Some(true);
        k
    }

    pub fn persistent(self) -> (r: Self)
        ensures
            r == (ReplyKeyboardMarkup { is_persistent: Some(true), ..self }),
    {
        let mut k = self;
        k.is_persistent = Some(true);
        k
    }

    pub fn with_placeholder(self, placeholder: String) -> (r: Self)
        ensures
            r == (ReplyKeyboardMarkup { input_field_placeholder: Some(placeholder), ..self }),
    {
        let mut k = self;
        k.input_field_placeholder = Some(placeholder);
        k
    }

    pub fn selective(self) -> (r: Self)
        ensures
            r == (ReplyKeyboardMarkup { selective: Some(true), ..self }),
    {
        let mut k = self;
        k.selective = Some(true);
        k
    }
}

} // verus!
