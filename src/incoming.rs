use vstd::prelude::*;

verus! {

/// A pressed inline button, as handed to the handler.
pub struct CallbackQueryData {
    pub chat_id: i64,
    pub user_id: u64,
    pub message_id: i32,
    pub callback_data: String,
    pub callback_query_id: String,
}

/// The platform and bot an inbound event came from.
pub struct MessageSource {
    pub platform: String,
    pub bot_id: Option<u64>,
    pub bot_username: Option<String>,
}

#[derive(PartialEq, Eq, Structural, Clone, Copy)]
pub enum FileType {
    Photo,
    Audio,
    Voice,
    Video,
    VideoNote,
    Document,
    Sticker,
    Animation,
}

/// What is known of an attachment beyond its file.
pub enum FileMetadata {
    Photo { width: u32, height: u32 },
    Audio { duration: u32, performer: Option<String>, title: Option<String> },
    Voice { duration: u32 },
    Video { width: u32, height: u32, duration: u32 },
    VideoNote { length: u32, duration: u32 },
    Document { file_name: Option<String>, mime_type: Option<String> },
    Sticker { width: u32, height: u32, emoji: Option<String> },
    Animation { width: u32, height: u32, duration: u32 },
}

/// An attachment of an inbound message, with the URL it can be fetched from.
pub struct FileInfo {
    pub file_id: String,
    pub file_unique_id: String,
    pub file_type: FileType,
    pub file_size: u32,
    pub file_url: String,
    pub metadata: FileMetadata,
}

pub struct ImageInfo {
    pub file_id: String,
    pub file_unique_id: String,
    pub width: u32,
    pub height: u32,
    pub file_size: u32,
    pub local_path: String,
}

/// A pressed button in flat form.
pub struct IncomingCallbackMessage {
    pub chat_id: i64,
    pub user_id: u64,
    pub message_id: i32,
    pub callback_data: String,
    pub callback_query_id: String,
}

/// The name of a file type in logs.
pub open spec fn file_type_name(t: FileType) -> Seq<char> {
    match t {
        FileType::Photo => "photo"@,
        FileType::Audio => "audio"@,
        FileType::Voice => "voice"@,
        FileType::Video => "video"@,
        FileType::VideoNote => "videonote"@,
        FileType::Document => "document"@,
        FileType::Sticker => "sticker"@,
        FileType::Animation => "animation"@,
    }
}

pub fn file_type_to_string(file_type: &FileType) -> (r: &'static str)
    ensures
        r@ == file_type_name(*file_type),
{
    match file_type {
        FileType::Photo => "photo",
        FileType::Audio => "audio",
        FileType::Voice => "voice",
        FileType::Video => "video",
        FileType::VideoNote => "videonote",
        FileType::Document => "document",
        FileType::Sticker => "sticker",
        FileType::Animation => "animation",
    }
}

pub open spec fn area(d: (u32, u32)) -> int {
    d.0 as int * d.1 as int
}

fn area_of(d: (u32, u32)) -> (r: u64)
    ensures
        r == area(d),
{
    let (w, h) = d;
    assert(w as u64 * h as u64 <= 0xFFFF_FFFFu64 * 0xFFFF_FFFFu64) by (nonlinear_arith)
        requires
            w <= 0xFFFF_FFFFu32,
            h <= 0xFFFF_FFFFu32,
    ;
    w as u64 * h as u64
}

/// Of the sizes a photo comes in, given as (width, height), the index of the
/// largest by area; among equal areas, the last.
pub fn select_best_photo(sizes: &Vec<(u32, u32)>) -> (r: Option<usize>)
    ensures
        sizes@.len() == 0 <==> r is None,
        r matches Some(i) ==> i < sizes@.len() && (forall|j: int|
            0 <= j < sizes@.len() ==> area(#[trigger] sizes@[j]) <= area(sizes@[i as int]))
            && (forall|j: int| i < j < sizes@.len() ==> area(#[trigger] sizes@[j]) < area(sizes@[i as int])),
{
    if sizes.len() == 0 {
        return None;
    }
    let mut best: usize = 0;
    let mut best_area: u64 = area_of(sizes[0]);
    let mut k: usize = 1;
    while k < sizes.len()
        invariant
            0 < k <= sizes@.len(),
            best < k,
            best_area == area(sizes@[best as int]),
            forall|j: int| 0 <= j < k ==> area(#[trigger] sizes@[j]) <= area(sizes@[best as int]),
            forall|j: int| best < j < k ==> area(#[trigger] sizes@[j]) < area(sizes@[best as int]),
        decreases sizes@.len() - k,
    {
        let a = area_of(sizes[k]);
        if a >= best_area {
            best = k;
            best_area = a;
        }
        k = k + 1;
    }
    Some(best)
}

} // verus!
