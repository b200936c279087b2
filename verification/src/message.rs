//! Turning a raw wire message into the parsed, user-facing `IncomingMessage`.

use crate::clock::{decimal, digit_char, time_after_epoch, time_from_unix_millis, time_representable};
use std::time::SystemTime;
use crate::types::{
    ContentType, FileContent, FileItem, ImageContent, ImageItem, IncomingMessage, MessageItemType,
    MessageType, QuotedMessage, RefMessage, VideoContent, VideoItem, VoiceContent, VoiceItem,
    WireMessage, WireMessageItem,
};
use vstd::prelude::*;

verus! {

// ---------------------------------------------------------------------------
// Decimal integers, as `str::parse::<i64>` reads them.
// ---------------------------------------------------------------------------

pub open spec fn is_digit(c: char) -> bool {
    '0' <= c <= '9'
}

pub open spec fn all_digits(d: Seq<char>) -> bool {
    forall|i: int| 0 <= i < d.len() ==> is_digit(#[trigger] d[i])
}

/// The value of a sequence of decimal digits.
pub open spec fn digits_value(d: Seq<char>) -> int
    decreases d.len(),
{
    if d.len() == 0 {
        0
    } else {
        digits_value(d.drop_last()) * 10 + (d.last() as int - '0' as int)
    }
}

/// What `s.parse::<i64>().ok()` gives: an optional sign, then one or more
/// ASCII digits, with a value that fits in an `i64`.
pub open spec fn parse_i64_spec(s: Seq<char>) -> Option<i64> {
    let signed = s.len() > 0 && (s[0] == '+' || s[0] == '-');
    let digits = if signed {
        s.drop_first()
    } else {
        s
    };
    let v = if signed && s[0] == '-' {
        -digits_value(digits)
    } else {
        digits_value(digits)
    };
    if digits.len() == 0 || !all_digits(digits) || v < i64::MIN || v > i64::MAX {
        None
    } else {
        Some(v as i64)
    }
}

proof fn lemma_digits_value_nonneg(d: Seq<char>)
    requires
        all_digits(d),
    ensures
        digits_value(d) >= 0,
    decreases d.len(),
{
    if d.len() > 0 {
        lemma_digits_value_nonneg(d.drop_last());
    }
}

/// More digits never make a smaller number.
proof fn lemma_digits_value_prefix(d: Seq<char>, k: int)
    requires
        all_digits(d),
        0 <= k <= d.len(),
    ensures
        digits_value(d.take(k)) <= digits_value(d),
    decreases d.len(),
{
    if k < d.len() {
        assert(d.drop_last().take(k) =~= d.take(k));
        lemma_digits_value_prefix(d.drop_last(), k);
        lemma_digits_value_nonneg(d.drop_last());
    } else {
        assert(d.take(k) =~= d);
    }
}

/// Reads a decimal `i64` from `s` as `str::parse::<i64>` does, `None` where it fails.
fn parse_i64(s: &String) -> (r: Option<i64>)
    ensures
        r == parse_i64_spec(s@),
{
    let text = s.as_str();
    let n = text.unicode_len();
    if n == 0 {
        return None;
    }
    let first = text.get_char(0);
    let signed = first == '+' || first == '-';
    let negative = first == '-';
    let start: usize = if signed {
        1
    } else {
        0
    };
    if start == n {
        return None;
    }
    let ghost digits = if signed {
        s@.drop_first()
    } else {
        s@
    };
    let mut acc: i128 = 0;
    let mut i = start;
    while i < n
        invariant
            n == s@.len(),
            text@ == s@,
            start <= i <= n,
            start == (if signed { 1int } else { 0int }),
            signed == (s@[0] == '+' || s@[0] == '-'),
            negative == (s@[0] == '-'),
            digits == s@.skip(start as int),
            all_digits(digits.take(i - start)),
            acc == (if negative { -digits_value(digits.take(i - start)) } else { digits_value(
                digits.take(i - start),
            ) }),
            i64::MIN <= acc <= i64::MAX,
        decreases n - i,
    {
        let c = text.get_char(i);
        if !('0' <= c && c <= '9') {
            assert(digits[i - start] == c);
            return None;
        }
        let d: i128 = (c as u32 - '0' as u32) as i128;
        let ghost prev = digits.take(i - start);
        let ghost next = digits.take(i - start + 1);
        assert(next.drop_last() =~= prev);
        assert(next.last() == c);
        assert(digits_value(next) == digits_value(prev) * 10 + d);
        assert(all_digits(next));
        acc = if negative {
            acc * 10 - d
        } else {
            acc * 10 + d
        };
        if acc < i64::MIN as i128 || acc > i64::MAX as i128 {
            proof {
                if all_digits(digits) {
                    lemma_digits_value_prefix(digits, i - start + 1);
                    lemma_digits_value_nonneg(next);
                    assert(digits.take(i - start + 1) == next);
                    if negative {
                        assert(acc == -digits_value(next));
                        assert(-digits_value(digits) < i64::MIN);
                    } else {
                        assert(acc == digits_value(next));
                        assert(digits_value(digits) > i64::MAX);
                    }
                }
                assert(signed ==> digits == s@.drop_first());
                assert(!signed ==> digits == s@);
                assert(parse_i64_spec(s@) is None);
            }
            return None;
        }
        i = i + 1;
    }
    assert(digits.take(n - start) =~= digits);
    Some(acc as i64)
}

// ---------------------------------------------------------------------------
// The model of a parsed message.
// ---------------------------------------------------------------------------

/// The content type of a message: that of its first item, text for none.
pub open spec fn detect_type_spec(items: Seq<WireMessageItem>) -> ContentType {
    if items.len() == 0 {
        ContentType::Text
    } else {
        match items[0].item_type {
            MessageItemType::Image => ContentType::Image,
            MessageItemType::Voice => ContentType::Voice,
            MessageItemType::File => ContentType::File,
            MessageItemType::Video => ContentType::Video,
            MessageItemType::Text => ContentType::Text,
        }
    }
}

/// The text that one item contributes to a message's text, if any.
pub open spec fn item_text(item: WireMessageItem) -> Option<Seq<char>> {
    match item.item_type {
        MessageItemType::Text => match item.text_item {
            Some(t) => Some(t.text@),
            None => None,
        },
        MessageItemType::Image => Some(
            match item.image_item {
                Some(i) => match i.url {
                    Some(u) => u@,
                    None => "[image]"@,
                },
                None => "[image]"@,
            },
        ),
        MessageItemType::Voice => Some(
            match item.voice_item {
                Some(v) => match v.text {
                    Some(t) => t@,
                    None => "[voice]"@,
                },
                None => "[voice]"@,
            },
        ),
        MessageItemType::File => Some(
            match item.file_item {
                Some(f) => match f.file_name {
                    Some(n) => n@,
                    None => "[file]"@,
                },
                None => "[file]"@,
            },
        ),
        MessageItemType::Video => Some("[video]"@),
    }
}

/// The texts that the items contribute, in order.
pub open spec fn item_texts(items: Seq<WireMessageItem>) -> Seq<Seq<char>>
    decreases items.len(),
{
    if items.len() == 0 {
        seq![]
    } else {
        let rest = item_texts(items.drop_last());
        match item_text(items.last()) {
            Some(t) => rest.push(t),
            None => rest,
        }
    }
}

/// The parts joined with a line break between each two.
pub open spec fn join_lines(parts: Seq<Seq<char>>) -> Seq<char>
    decreases parts.len(),
{
    if parts.len() == 0 {
        seq![]
    } else if parts.len() == 1 {
        parts[0]
    } else {
        join_lines(parts.drop_last()) + "\n"@ + parts.last()
    }
}

/// The text of a message made of `items`.
pub open spec fn extract_text_spec(items: Seq<WireMessageItem>) -> Seq<char> {
    join_lines(item_texts(items))
}

pub open spec fn image_content(img: ImageItem) -> ImageContent {
    ImageContent {
        media: img.media,
        thumb_media: img.thumb_media,
        aes_key: img.aeskey,
        url: img.url,
        width: img.thumb_width,
        height: img.thumb_height,
    }
}

pub open spec fn voice_content(voice: VoiceItem) -> VoiceContent {
    VoiceContent {
        media: voice.media,
        text: voice.text,
        duration_ms: voice.playtime,
        encode_type: voice.encode_type,
    }
}

pub open spec fn file_content(file: FileItem) -> FileContent {
    FileContent {
        media: file.media,
        file_name: file.file_name,
        md5: file.md5,
        size: match file.len {
            Some(s) => parse_i64_spec(s@),
            None => None,
        },
    }
}

pub open spec fn video_content(video: VideoItem) -> VideoContent {
    VideoContent {
        media: video.media,
        thumb_media: video.thumb_media,
        duration_ms: video.play_length,
    }
}

pub open spec fn quoted_message(refm: RefMessage) -> QuotedMessage {
    QuotedMessage {
        title: refm.title,
        text: match refm.message_item {
            Some(item) => match item.text_item {
                Some(t) => Some(t.text),
                None => None,
            },
            None => None,
        },
    }
}

/// The images of the items, in order.
pub open spec fn images_of(items: Seq<WireMessageItem>) -> Seq<ImageContent>
    decreases items.len(),
{
    if items.len() == 0 {
        seq![]
    } else {
        let rest = images_of(items.drop_last());
        match items.last().image_item {
            Some(i) => rest.push(image_content(i)),
            None => rest,
        }
    }
}

/// The voice notes of the items, in order.
pub open spec fn voices_of(items: Seq<WireMessageItem>) -> Seq<VoiceContent>
    decreases items.len(),
{
    if items.len() == 0 {
        seq![]
    } else {
        let rest = voices_of(items.drop_last());
        match items.last().voice_item {
            Some(v) => rest.push(voice_content(v)),
            None => rest,
        }
    }
}

/// The files of the items, in order.
pub open spec fn files_of(items: Seq<WireMessageItem>) -> Seq<FileContent>
    decreases items.len(),
{
    if items.len() == 0 {
        seq![]
    } else {
        let rest = files_of(items.drop_last());
        match items.last().file_item {
            Some(f) => rest.push(file_content(f)),
            None => rest,
        }
    }
}

/// The videos of the items, in order.
pub open spec fn videos_of(items: Seq<WireMessageItem>) -> Seq<VideoContent>
    decreases items.len(),
{
    if items.len() == 0 {
        seq![]
    } else {
        let rest = videos_of(items.drop_last());
        match items.last().video_item {
            Some(v) => rest.push(video_content(v)),
            None => rest,
        }
    }
}

/// The quote of the last item that quotes a message, if any.
pub open spec fn quoted_of(items: Seq<WireMessageItem>) -> Option<QuotedMessage>
    decreases items.len(),
{
    if items.len() == 0 {
        None
    } else {
        match items.last().ref_msg {
            Some(r) => Some(quoted_message(r)),
            None => quoted_of(items.drop_last()),
        }
    }
}

/// `m` is what parsing the user's message `wire` gives.
pub open spec fn parsed_from(m: IncomingMessage, wire: WireMessage) -> bool {
    parsed_at(m, wire, time_after_epoch(wire.create_time_ms as u64))
}

/// `m` is what parsing the user's message `wire` gives, with `timestamp` as
/// the instant at which it was sent.
pub open spec fn parsed_at(m: IncomingMessage, wire: WireMessage, timestamp: SystemTime) -> bool {
    let items = wire.item_list@;
    &&& m.user_id == wire.from_user_id
    &&& m.text@ == extract_text_spec(items)
    &&& m.content_type == detect_type_spec(items)
    &&& m.timestamp == timestamp
    &&& m.images@ == images_of(items)
    &&& m.voices@ == voices_of(items)
    &&& m.files@ == files_of(items)
    &&& m.videos@ == videos_of(items)
    &&& m.quoted == quoted_of(items)
    &&& m.raw.same_as(wire)
    &&& m.context_token == wire.context_token
}

proof fn lemma_item_texts_concat(a: Seq<WireMessageItem>, b: Seq<WireMessageItem>)
    ensures
        item_texts(a + b) == item_texts(a) + item_texts(b),
    decreases b.len(),
{
    if b.len() == 0 {
        assert(a + b =~= a);
        assert(item_texts(a) + item_texts(b) =~= item_texts(a));
    } else {
        lemma_item_texts_concat(a, b.drop_last());
        assert((a + b).drop_last() =~= a + b.drop_last());
        assert((a + b).last() == b.last());
        match item_text(b.last()) {
            Some(t) => {
                assert(item_texts(a) + item_texts(b) =~= (item_texts(a) + item_texts(
                    b.drop_last(),
                )).push(t));
            },
            None => {},
        }
    }
}

proof fn lemma_join_lines_concat(p: Seq<Seq<char>>, q: Seq<Seq<char>>)
    requires
        p.len() > 0,
        q.len() > 0,
    ensures
        join_lines(p + q) == join_lines(p) + "\n"@ + join_lines(q),
    decreases q.len(),
{
    if q.len() == 1 {
        assert((p + q).drop_last() =~= p);
        assert((p + q).last() == q[0]);
    } else {
        lemma_join_lines_concat(p, q.drop_last());
        assert((p + q).drop_last() =~= p + q.drop_last());
        assert((p + q).last() == q.last());
    }
}

/// The text of a message made of the items `a` then `b` is the text of `a`,
/// a line break, then the text of `b`; where either contributes no text, it
/// is the text of the other.
pub proof fn lemma_extract_text_concat(a: Seq<WireMessageItem>, b: Seq<WireMessageItem>)
    ensures
        item_texts(a).len() == 0 ==> extract_text_spec(a + b) == extract_text_spec(b),
        item_texts(b).len() == 0 ==> extract_text_spec(a + b) == extract_text_spec(a),
        item_texts(a).len() > 0 && item_texts(b).len() > 0 ==> extract_text_spec(a + b)
            == extract_text_spec(a) + "\n"@ + extract_text_spec(b),
{
    lemma_item_texts_concat(a, b);
    if item_texts(a).len() == 0 {
        assert(item_texts(a) + item_texts(b) =~= item_texts(b));
    } else if item_texts(b).len() == 0 {
        assert(item_texts(a) + item_texts(b) =~= item_texts(a));
    } else {
        lemma_join_lines_concat(item_texts(a), item_texts(b));
    }
}

/// What a parsed message collects of each item carries the item's own fields:
/// an image its media, thumbnail, key, address and thumbnail size; a voice
/// note its media, transcript, length and encoding; a file its media, name
/// and checksum; a video its media, thumbnail and length; a quote its title.
pub proof fn lemma_contents_keep_fields(
    img: ImageItem,
    voice: VoiceItem,
    file: FileItem,
    video: VideoItem,
    refm: RefMessage,
)
    ensures
        image_content(img).media == img.media,
        image_content(img).thumb_media == img.thumb_media,
        image_content(img).aes_key == img.aeskey,
        image_content(img).url == img.url,
        image_content(img).width == img.thumb_width,
        image_content(img).height == img.thumb_height,
        voice_content(voice).media == voice.media,
        voice_content(voice).text == voice.text,
        voice_content(voice).duration_ms == voice.playtime,
        voice_content(voice).encode_type == voice.encode_type,
        file_content(file).media == file.media,
        file_content(file).file_name == file.file_name,
        file_content(file).md5 == file.md5,
        file.len is None ==> file_content(file).size is None,
        video_content(video).media == video.media,
        video_content(video).thumb_media == video.thumb_media,
        video_content(video).duration_ms == video.play_length,
        quoted_message(refm).title == refm.title,
        refm.message_item is None ==> quoted_message(refm).text is None,
{
}

proof fn lemma_decimal_digits(n: nat)
    ensures
        decimal(n).len() > 0,
        all_digits(decimal(n)),
        digits_value(decimal(n)) == n,
    decreases n,
{
    let c = digit_char(n % 10);
    assert(((48 + n % 10) as u8) as int == 48 + n % 10);
    assert(c as int == 48 + n % 10);
    assert('0' as int == 48);
    if n >= 10 {
        lemma_decimal_digits(n / 10);
        let d = decimal(n);
        assert(d.drop_last() =~= decimal(n / 10));
        assert(d.last() == c);
        assert(n == (n / 10) * 10 + n % 10);
        assert(digits_value(d) == digits_value(decimal(n / 10)) * 10 + (c as int - '0' as int));
        assert(digits_value(d) == (n / 10) * 10 + n % 10);
        assert forall|i: int| 0 <= i < d.len() implies is_digit(#[trigger] d[i]) by {
            if i < d.len() - 1 {
                assert(d[i] == decimal(n / 10)[i]);
            }
        }
    } else {
        assert(decimal(n).drop_last() =~= Seq::<char>::empty());
        assert(decimal(n).last() == c);
        assert(n % 10 == n);
        assert(digits_value(Seq::<char>::empty()) == 0);
        assert(digits_value(decimal(n)) == digits_value(decimal(n).drop_last()) * 10 + (c as int
            - '0' as int));
    }
}

/// A file size written as the decimal digits of `n`, with or without a leading
/// `+` or `-`, is read as that number, where it fits in an `i64`.
pub proof fn lemma_decimal_size_is_read(n: nat)
    ensures
        n <= i64::MAX ==> parse_i64_spec(decimal(n)) == Some(n as i64),
        n <= i64::MAX ==> parse_i64_spec(seq!['+'] + decimal(n)) == Some(n as i64),
        n <= i64::MAX + 1 ==> parse_i64_spec(seq!['-'] + decimal(n)) == Some((-n) as i64),
        n > i64::MAX ==> parse_i64_spec(decimal(n)) is None,
{
    lemma_decimal_digits(n);
    let d = decimal(n);
    assert(is_digit(d[0]));
    assert((seq!['+'] + d).drop_first() =~= d);
    assert((seq!['-'] + d).drop_first() =~= d);
}

// ---------------------------------------------------------------------------
// Parsing.
// ---------------------------------------------------------------------------

/// The content type of a message made of `items`: that of the first item.
pub fn detect_type(items: &[WireMessageItem]) -> (t: ContentType)
    ensures
        t == detect_type_spec(items@),
{
    if items.len() == 0 {
        return ContentType::Text;
    }
    match items[0].item_type {
        MessageItemType::Image => ContentType::Image,
        MessageItemType::Voice => ContentType::Voice,
        MessageItemType::File => ContentType::File,
        MessageItemType::Video => ContentType::Video,
        _ => ContentType::Text,
    }
}

/// The text that one item contributes, if any.
fn text_of_item(item: &WireMessageItem) -> (r: Option<String>)
    ensures
        match r {
            Some(t) => item_text(*item) == Some(t@),
            None => item_text(*item) is None,
        },
{
    match item.item_type {
        MessageItemType::Text => match &item.text_item {
            Some(t) => Some(t.text.clone()),
            None => None,
        },
        MessageItemType::Image => Some(
            match &item.image_item {
                Some(i) => match &i.url {
                    Some(u) => u.clone(),
                    None => String::from_str("[image]"),
                },
                None => String::from_str("[image]"),
            },
        ),
        MessageItemType::Voice => Some(
            match &item.voice_item {
                Some(v) => match &v.text {
                    Some(t) => t.clone(),
                    None => String::from_str("[voice]"),
                },
                None => String::from_str("[voice]"),
            },
        ),
        MessageItemType::File => Some(
            match &item.file_item {
                Some(f) => match &f.file_name {
                    Some(n) => n.clone(),
                    None => String::from_str("[file]"),
                },
                None => String::from_str("[file]"),
            },
        ),
        MessageItemType::Video => Some(String::from_str("[video]")),
    }
}

/// The text of a message made of `items`: what each item contributes, one per line.
pub fn extract_text(items: &[WireMessageItem]) -> (text: String)
    ensures
        text@ == extract_text_spec(items@),
{
    let mut out = String::new();
    let mut first = true;
    let n = items.len();
    for i in 0..n
        invariant
            n == items@.len(),
            out@ == join_lines(item_texts(items@.take(i as int))),
            first == (item_texts(items@.take(i as int)).len() == 0),
    {
        let ghost before = items@.take(i as int);
        let ghost after = items@.take(i + 1);
        assert(after.drop_last() =~= before);
        assert(after.last() == items@[i as int]);
        match text_of_item(&items[i]) {
            Some(t) => {
                let ghost parts = item_texts(before);
                let ghost old_out = out@;
                assert(parts.push(t@).drop_last() =~= parts);
                if !first {
                    out.append("\n");
                }
                out.append(t.as_str());
                proof {
                    if parts.len() == 0 {
                        assert(out@ =~= t@);
                    } else {
                        assert(out@ =~= old_out + "\n"@ + t@);
                    }
                }
                first = false;
            },
            None => {},
        }
    }
    assert(items@.take(n as int) =~= items@);
    out
}

fn image_content_of(img: &ImageItem) -> (c: ImageContent)
    ensures
        c == image_content(*img),
{
    ImageContent {
        media: img.media.clone(),
        thumb_media: img.thumb_media.clone(),
        aes_key: img.aeskey.clone(),
        url: img.url.clone(),
        width: img.thumb_width,
        height: img.thumb_height,
    }
}

fn voice_content_of(voice: &VoiceItem) -> (c: VoiceContent)
    ensures
        c == voice_content(*voice),
{
    VoiceContent {
        media: voice.media.clone(),
        text: voice.text.clone(),
        duration_ms: voice.playtime,
        encode_type: voice.encode_type,
    }
}

fn file_content_of(file: &FileItem) -> (c: FileContent)
    ensures
        c == file_content(*file),
{
    FileContent {
        media: file.media.clone(),
        file_name: file.file_name.clone(),
        md5: file.md5.clone(),
        size: match &file.len {
            Some(s) => parse_i64(s),
            None => None,
        },
    }
}

fn video_content_of(video: &VideoItem) -> (c: VideoContent)
    ensures
        c == video_content(*video),
{
    VideoContent {
        media: video.media.clone(),
        thumb_media: video.thumb_media.clone(),
        duration_ms: video.play_length,
    }
}

fn quoted_message_of(refm: &RefMessage) -> (q: QuotedMessage)
    ensures
        q == quoted_message(*refm),
{
    let text = match &refm.message_item {
        Some(item) => match &item.text_item {
            Some(t) => Some(t.text.clone()),
            None => None,
        },
        None => None,
    };
    QuotedMessage { title: refm.title.clone(), text }
}

/// Parses a wire message into an `IncomingMessage`: `None` for the bot's own
/// messages, and where this platform's `SystemTime` cannot represent the
/// time at which the message was sent (see `incoming_message`, which builds
/// the message from that time).
pub fn parse_message(wire: &WireMessage) -> (r: Option<IncomingMessage>)
    ensures
        wire.message_type != MessageType::User ==> r is None,
        wire.message_type == MessageType::User && time_representable(wire.create_time_ms as u64)
            ==> r is Some,
        r matches Some(m) ==> parsed_from(m, *wire),
{
    if wire.message_type != MessageType::User {
        return None;
    }
    match time_from_unix_millis(wire.create_time_ms as u64) {
        Some(timestamp) => Some(incoming_message(wire, timestamp)),
        None => None,
    }
}

/// The parsed form of the user's message `wire`, sent at `timestamp`.
pub fn incoming_message(wire: &WireMessage, timestamp: SystemTime) -> (m: IncomingMessage)
    ensures
        parsed_at(m, *wire, timestamp),
{
    let items = &wire.item_list;
    let mut images: Vec<ImageContent> = Vec::new();
    let mut voices: Vec<VoiceContent> = Vec::new();
    let mut files: Vec<FileContent> = Vec::new();
    let mut videos: Vec<VideoContent> = Vec::new();
    let mut quoted: Option<QuotedMessage> = None;
    let n = items.len();
    for i in 0..n
        invariant
            n == items@.len(),
            images@ == images_of(items@.take(i as int)),
            voices@ == voices_of(items@.take(i as int)),
            files@ == files_of(items@.take(i as int)),
            videos@ == videos_of(items@.take(i as int)),
            quoted == quoted_of(items@.take(i as int)),
    {
        let item = &items[i];
        let ghost before = items@.take(i as int);
        let ghost after = items@.take(i + 1);
        assert(after.drop_last() =~= before);
        assert(after.last() == *item);
        if let Some(img) = &item.image_item {
            images.push(image_content_of(img));
        }
        if let Some(voice) = &item.voice_item {
            voices.push(voice_content_of(voice));
        }
        if let Some(file) = &item.file_item {
            files.push(file_content_of(file));
        }
        if let Some(video) = &item.video_item {
            videos.push(video_content_of(video));
        }
        if let Some(refm) = &item.ref_msg {
            quoted = Some(quoted_message_of(refm));
        }
    }
    assert(items@.take(n as int) =~= items@);
    IncomingMessage {
        user_id: wire.from_user_id.clone(),
        text: extract_text(items.as_slice()),
        content_type: detect_type(items.as_slice()),
        timestamp,
        images,
        voices,
        files,
        videos,
        quoted,
        raw: wire.clone(),
        context_token: wire.context_token.clone(),
    }
}

} // verus!
