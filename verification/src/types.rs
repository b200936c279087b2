//! The wire format of the iLink API and the parsed, user-facing message types.

use std::time::SystemTime;
use vstd::prelude::*;

verus! {

/// Message sender type.
#[derive(Debug, Clone, Copy, PartialEq, Eq, Structural)]
pub enum MessageType {
    User,
    Bot,
}

impl MessageType {
    /// The number that the iLink API uses for this sender type.
    pub fn code(self) -> (c: i32)
        ensures
            c == (match self {
                MessageType::User => 1i32,
                MessageType::Bot => 2i32,
            }),
    {
        match self {
            MessageType::User => 1,
            MessageType::Bot => 2,
        }
    }
}

/// Message delivery state.
#[derive(Debug, Clone, Copy, PartialEq, Eq, Structural)]
pub enum MessageState {
    New,
    Generating,
    Finish,
}

impl MessageState {
    /// The number that the iLink API uses for this delivery state.
    pub fn code(self) -> (c: i32)
        ensures
            c == (match self {
                MessageState::New => 0i32,
                MessageState::Generating => 1i32,
                MessageState::Finish => 2i32,
            }),
    {
        match self {
            MessageState::New => 0,
            MessageState::Generating => 1,
            MessageState::Finish => 2,
        }
    }
}

/// Content type of a message item.
#[derive(Debug, Clone, Copy, PartialEq, Eq, Structural)]
pub enum MessageItemType {
    Text,
    Image,
    Voice,
    File,
    Video,
}

impl MessageItemType {
    /// The number that the iLink API uses for this item type.
    pub fn code(self) -> (c: i32)
        ensures
            c == (match self {
                MessageItemType::Text => 1i32,
                MessageItemType::Image => 2i32,
                MessageItemType::Voice => 3i32,
                MessageItemType::File => 4i32,
                MessageItemType::Video => 5i32,
            }),
    {
        match self {
            MessageItemType::Text => 1,
            MessageItemType::Image => 2,
            MessageItemType::Voice => 3,
            MessageItemType::File => 4,
            MessageItemType::Video => 5,
        }
    }
}

/// Media type for upload requests.
#[derive(Debug, Clone, Copy, PartialEq, Eq, Structural)]
pub enum MediaType {
    Image,
    Video,
    File,
    Voice,
}

impl MediaType {
    /// The number that the iLink API uses for this media type.
    pub fn code(self) -> (c: i32)
        ensures
            c == (match self {
                MediaType::Image => 1i32,
                MediaType::Video => 2i32,
                MediaType::File => 3i32,
                MediaType::Voice => 4i32,
            }),
    {
        match self {
            MediaType::Image => 1,
            MediaType::Video => 2,
            MediaType::File => 3,
            MediaType::Voice => 4,
        }
    }
}

/// CDN media reference.
#[derive(Debug)]
pub struct CDNMedia {
    pub encrypt_query_param: String,
    pub aes_key: String,
    pub encrypt_type: Option<i32>,
}

/// Text content.
#[derive(Debug)]
pub struct TextItem {
    pub text: String,
}

/// Image content.
#[derive(Debug)]
pub struct ImageItem {
    pub media: Option<CDNMedia>,
    pub thumb_media: Option<CDNMedia>,
    pub aeskey: Option<String>,
    pub url: Option<String>,
    pub mid_size: Option<i64>,
    pub thumb_width: Option<i32>,
    pub thumb_height: Option<i32>,
}

/// Voice content.
#[derive(Debug)]
pub struct VoiceItem {
    pub media: Option<CDNMedia>,
    pub encode_type: Option<i32>,
    pub text: Option<String>,
    pub playtime: Option<i32>,
}

/// File content.
#[derive(Debug)]
pub struct FileItem {
    pub media: Option<CDNMedia>,
    pub file_name: Option<String>,
    pub md5: Option<String>,
    pub len: Option<String>,
}

/// Video content.
#[derive(Debug)]
pub struct VideoItem {
    pub media: Option<CDNMedia>,
    pub video_size: Option<i64>,
    pub play_length: Option<i32>,
    pub thumb_media: Option<CDNMedia>,
}

/// Referenced/quoted message.
#[derive(Debug)]
pub struct RefMessage {
    pub title: Option<String>,
    pub message_item: Option<Box<WireMessageItem>>,
}

/// A single content item in a message.
#[derive(Debug)]
pub struct WireMessageItem {
    pub item_type: MessageItemType,
    pub text_item: Option<TextItem>,
    pub image_item: Option<ImageItem>,
    pub voice_item: Option<VoiceItem>,
    pub file_item: Option<FileItem>,
    pub video_item: Option<VideoItem>,
    pub ref_msg: Option<RefMessage>,
}

/// Raw wire message from the iLink API.
#[derive(Debug)]
pub struct WireMessage {
    pub from_user_id: String,
    pub to_user_id: String,
    pub client_id: String,
    pub create_time_ms: i64,
    pub message_type: MessageType,
    pub message_state: MessageState,
    pub context_token: String,
    pub item_list: Vec<WireMessageItem>,
}

/// Parsed incoming message — user-friendly.
#[derive(Debug, Clone)]
pub struct IncomingMessage {
    pub user_id: String,
    pub text: String,
    pub content_type: ContentType,
    pub timestamp: SystemTime,
    pub images: Vec<ImageContent>,
    pub voices: Vec<VoiceContent>,
    pub files: Vec<FileContent>,
    pub videos: Vec<VideoContent>,
    pub quoted: Option<QuotedMessage>,
    pub raw: WireMessage,
    pub context_token: String,
}

/// Content type of an incoming message.
#[derive(Debug, Clone, Copy, PartialEq, Eq, Structural)]
pub enum ContentType {
    Text,
    Image,
    Voice,
    File,
    Video,
}

#[derive(Debug, Clone)]
pub struct ImageContent {
    pub media: Option<CDNMedia>,
    pub thumb_media: Option<CDNMedia>,
    pub aes_key: Option<String>,
    pub url: Option<String>,
    pub width: Option<i32>,
    pub height: Option<i32>,
}

#[derive(Debug, Clone)]
pub struct VoiceContent {
    pub media: Option<CDNMedia>,
    pub text: Option<String>,
    pub duration_ms: Option<i32>,
    pub encode_type: Option<i32>,
}

#[derive(Debug, Clone)]
pub struct FileContent {
    pub media: Option<CDNMedia>,
    pub file_name: Option<String>,
    pub md5: Option<String>,
    pub size: Option<i64>,
}

#[derive(Debug, Clone)]
pub struct VideoContent {
    pub media: Option<CDNMedia>,
    pub thumb_media: Option<CDNMedia>,
    pub duration_ms: Option<i32>,
}

#[derive(Debug, Clone)]
pub struct QuotedMessage {
    pub title: Option<String>,
    pub text: Option<String>,
}

/// Stored login credentials.
#[derive(Debug)]
pub struct Credentials {
    pub token: String,
    pub base_url: String,
    pub account_id: String,
    pub user_id: String,
    pub saved_at: Option<String>,
}

impl Clone for CDNMedia {
    fn clone(&self) -> (r: Self)
        ensures
            r == *self,
    {
        CDNMedia {
            encrypt_query_param: self.encrypt_query_param.clone(),
            aes_key: self.aes_key.clone(),
            encrypt_type: self.encrypt_type,
        }
    }
}

impl Clone for TextItem {
    fn clone(&self) -> (r: Self)
        ensures
            r == *self,
    {
        TextItem { text: self.text.clone() }
    }
}

impl Clone for ImageItem {
    fn clone(&self) -> (r: Self)
        ensures
            r == *self,
    {
        ImageItem {
            media: self.media.clone(),
            thumb_media: self.thumb_media.clone(),
            aeskey: self.aeskey.clone(),
            url: self.url.clone(),
            mid_size: self.mid_size,
            thumb_width: self.thumb_width,
            thumb_height: self.thumb_height,
        }
    }
}

impl Clone for VoiceItem {
    fn clone(&self) -> (r: Self)
        ensures
            r == *self,
    {
        VoiceItem {
            media: self.media.clone(),
            encode_type: self.encode_type,
            text: self.text.clone(),
            playtime: self.playtime,
        }
    }
}

impl Clone for FileItem {
    fn clone(&self) -> (r: Self)
        ensures
            r == *self,
    {
        FileItem {
            media: self.media.clone(),
            file_name: self.file_name.clone(),
            md5: self.md5.clone(),
            len: self.len.clone(),
        }
    }
}

impl Clone for VideoItem {
    fn clone(&self) -> (r: Self)
        ensures
            r == *self,
    {
        VideoItem {
            media: self.media.clone(),
            video_size: self.video_size,
            play_length: self.play_length,
            thumb_media: self.thumb_media.clone(),
        }
    }
}

/// A copy of a message item, quoted messages included.
fn copy_item(item: &WireMessageItem) -> (r: WireMessageItem)
    ensures
        r == *item,
    decreases *item,
{
    let ref_msg = match &item.ref_msg {
        Some(m) => Some(copy_ref(m)),
        None => None,
    };
    WireMessageItem {
        item_type: item.item_type,
        text_item: item.text_item.clone(),
        image_item: item.image_item.clone(),
        voice_item: item.voice_item.clone(),
        file_item: item.file_item.clone(),
        video_item: item.video_item.clone(),
        ref_msg,
    }
}

/// A copy of a quoted message, its item included.
fn copy_ref(m: &RefMessage) -> (r: RefMessage)
    ensures
        r == *m,
    decreases *m,
{
    let message_item = match &m.message_item {
        Some(b) => Some(Box::new(copy_item(&**b))),
        None => None,
    };
    RefMessage { title: m.title.clone(), message_item }
}

impl Clone for RefMessage {
    fn clone(&self) -> (r: Self)
        ensures
            r == *self,
    {
        copy_ref(self)
    }
}

impl Clone for WireMessageItem {
    fn clone(&self) -> (r: Self)
        ensures
            r == *self,
    {
        copy_item(self)
    }
}

impl WireMessage {
    /// The two messages hold the same fields and the same items in the same order.
    pub open spec fn same_as(self, other: WireMessage) -> bool {
        &&& self.from_user_id == other.from_user_id
        &&& self.to_user_id == other.to_user_id
        &&& self.client_id == other.client_id
        &&& self.create_time_ms == other.create_time_ms
        &&& self.message_type == other.message_type
        &&& self.message_state == other.message_state
        &&& self.context_token == other.context_token
        &&& self.item_list@ == other.item_list@
    }
}

impl Clone for WireMessage {
    fn clone(&self) -> (r: Self)
        ensures
            r.same_as(*self),
    {
        let mut items: Vec<WireMessageItem> = Vec::new();
        let n = self.item_list.len();
        for i in 0..n
            invariant
                n == self.item_list@.len(),
                items@ == self.item_list@.take(i as int),
        {
            items.push(copy_item(&self.item_list[i]));
            assert(items@ =~= self.item_list@.take(i + 1));
        }
        assert(items@ =~= self.item_list@);
        WireMessage {
            from_user_id: self.from_user_id.clone(),
            to_user_id: self.to_user_id.clone(),
            client_id: self.client_id.clone(),
            create_time_ms: self.create_time_ms,
            message_type: self.message_type,
            message_state: self.message_state,
            context_token: self.context_token.clone(),
            item_list: items,
        }
    }
}

impl Clone for Credentials {
    fn clone(&self) -> (r: Self)
        ensures
            r == *self,
    {
        Credentials {
            token: self.token.clone(),
            base_url: self.base_url.clone(),
            account_id: self.account_id.clone(),
            user_id: self.user_id.clone(),
            saved_at: self.saved_at.clone(),
        }
    }
}

} // verus!
