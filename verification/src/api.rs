//! The values exchanged with a model provider: conversation messages and
//! their content blocks, tools, requests and responses.

use crate::text;
use vstd::prelude::*;

verus! {

/// The compact form of a JSON document, or nothing where the text is not
/// one JSON document.
pub uninterp spec fn json_compact(text: Seq<char>) -> Option<Seq<char>>;

/// The string under `key` in the JSON object that `text` holds, or nothing
/// where there is none.
pub uninterp spec fn json_string_member(text: Seq<char>, key: Seq<char>) -> Option<Seq<char>>;

/// Reads `text` with `serde_json::from_str` and writes the value back with
/// `serde_json::to_string`, which puts no white space between tokens. What
/// comes back depends on `text` alone; nothing comes back where `text` is
/// not one JSON document.
#[verifier::external_body]
fn compact_json(text: &str) -> (r: Option<String>)
    ensures
        match r {
            Some(t) => json_compact(text@) == Some(t@),
            None => json_compact(text@) is None,
        },
{
    let value: serde_json::Value = serde_json::from_str(text).ok()?;
    serde_json::to_string(&value).ok()
}

/// Reads `text` with `serde_json::from_str`, looks `key` up with
/// `Value::get` and takes what it finds with `Value::as_str`. What comes
/// back depends on the two texts alone; nothing comes back where `text` is
/// no JSON object, has no such key, or holds something else than a string
/// there.
#[verifier::external_body]
fn read_string_member(text: &str, key: &str) -> (r: Option<String>)
    ensures
        match r {
            Some(t) => json_string_member(text@, key@) == Some(t@),
            None => json_string_member(text@, key@) is None,
        },
{
    let value: serde_json::Value = serde_json::from_str(text).ok()?;
    Some(value.get(key)?.as_str()?.to_string())
}

/// A JSON value, held as its compact text.
#[derive(Debug)]
pub struct Json {
    pub text: String,
}

impl View for Json {
    type V = Seq<char>;

    open spec fn view(&self) -> Seq<char> {
        self.text@
    }
}

impl Json {
    /// The value that a JSON document denotes.
    pub fn parse(text: &str) -> (r: Option<Json>)
        ensures
            match r {
                Some(j) => json_compact(text@) == Some(j@),
                None => json_compact(text@) is None,
            },
    {
        match compact_json(text) {
            Some(text) => Some(Json { text }),
            None => None,
        }
    }

    /// The string under `key`, where the value is an object that has one.
    pub fn string_member(&self, key: &str) -> (r: Option<String>)
        ensures
            match r {
                Some(t) => json_string_member(self@, key@) == Some(t@),
                None => json_string_member(self@, key@) is None,
            },
    {
        read_string_member(self.text.as_str(), key)
    }

    /// The value in its compact form.
    pub fn as_str(&self) -> (s: &str)
        ensures
            s@ == self@,
    {
        self.text.as_str()
    }
}

impl Clone for Json {
    fn clone(&self) -> (r: Self)
        ensures
            r@ == self@,
    {
        Json { text: self.text.clone() }
    }
}

/// The texts of a list of JSON values.
pub open spec fn json_views(v: Seq<Json>) -> Seq<Seq<char>> {
    v.map_values(|j: Json| j@)
}

/// The compact form of a JSON array with the given elements.
pub open spec fn json_array(items: Seq<Seq<char>>) -> Seq<char> {
    seq!['['] + text::joined(items, seq![',']) + seq![']']
}

/// The compact form of a JSON array with the given elements.
pub fn array_text(items: &Vec<Json>) -> (r: String)
    ensures
        r@ == json_array(json_views(items@)),
{
    let mut parts: Vec<String> = Vec::new();
    let mut i: usize = 0;
    while i < items.len()
        invariant
            i <= items@.len(),
            text::views(parts@) =~= json_views(items@).take(i as int),
        decreases items@.len() - i,
    {
        let ghost before = parts@;
        parts.push(items[i].text.clone());
        assert(text::views(parts@) =~= text::views(before).push(json_views(items@)[i as int]));
        i = i + 1;
    }
    let mut comma = String::new();
    comma.push(',');
    let mut r = String::new();
    r.push('[');
    r.append(text::join(&parts, comma.as_str()).as_str());
    r.push(']');
    assert(comma@ =~= seq![',']);
    assert(text::views(parts@) =~= json_views(items@));
    assert(r@ =~= json_array(json_views(items@)));
    r
}

/// How long a provider keeps a cached prefix.
#[derive(Debug, Clone, Copy, PartialEq, Eq, Structural)]
pub enum CacheTtl {
    FiveMinutes,
    OneHour,
}

/// Marks the end of a prefix that the provider should cache. Without a
/// time to live the provider's default of five minutes holds.
#[derive(Debug, Clone, Copy, PartialEq, Eq, Structural)]
pub struct CacheControl {
    pub ttl: Option<CacheTtl>,
}

impl CacheControl {
    pub fn ephemeral(ttl: Option<CacheTtl>) -> (r: Self)
        ensures
            r.ttl == ttl,
    {
        CacheControl { ttl }
    }

    pub fn ephemeral_one_hour() -> (r: Self)
        ensures
            r.ttl == Some(CacheTtl::OneHour),
    {
        CacheControl { ttl: Some(CacheTtl::OneHour) }
    }
}

/// A part of the system prompt.
#[derive(Debug)]
pub struct SystemPrompt {
    pub text: String,
    pub cache_control: Option<CacheControl>,
}

#[verifier::ext_equal]
pub struct SystemView {
    pub text: Seq<char>,
    pub cache: Option<CacheControl>,
}

impl View for SystemPrompt {
    type V = SystemView;

    open spec fn view(&self) -> SystemView {
        SystemView { text: self.text@, cache: self.cache_control }
    }
}

impl SystemPrompt {
    pub fn new_cached_with_ttl(text: String, ttl: Option<CacheTtl>) -> (r: Self)
        ensures
            r@ == (SystemView { text: text@, cache: Some(CacheControl { ttl }) }),
    {
        SystemPrompt { text, cache_control: Some(CacheControl { ttl }) }
    }
}

impl Clone for SystemPrompt {
    fn clone(&self) -> (r: Self)
        ensures
            r@ == self@,
    {
        SystemPrompt { text: self.text.clone(), cache_control: self.cache_control }
    }
}

/// Where the bytes of an image are.
#[derive(Debug)]
pub enum ImageSource {
    Base64 { media_type: String, data: String },
    Url { url: String },
}

#[verifier::ext_equal]
pub enum ImageView {
    Base64 { media_type: Seq<char>, data: Seq<char> },
    Url { url: Seq<char> },
}

impl View for ImageSource {
    type V = ImageView;

    open spec fn view(&self) -> ImageView {
        match *self {
            ImageSource::Base64 { media_type, data } => ImageView::Base64 {
                media_type: media_type@,
                data: data@,
            },
            ImageSource::Url { url } => ImageView::Url { url: url@ },
        }
    }
}

impl Clone for ImageSource {
    fn clone(&self) -> (r: Self)
        ensures
            r@ == self@,
    {
        match self {
            ImageSource::Base64 { media_type, data } => ImageSource::Base64 {
                media_type: media_type.clone(),
                data: data.clone(),
            },
            ImageSource::Url { url } => ImageSource::Url { url: url.clone() },
        }
    }
}

/// What one content block says, apart from its cache marker.
#[verifier::ext_equal]
#[allow(inconsistent_fields)]
pub enum BodyView {
    Text { text: Seq<char> },
    Thinking { thinking: Seq<char>, signature: Seq<char> },
    Summary { summary: Seq<char> },
    Compaction { content: Seq<char> },
    Reasoning { id: Seq<char>, summary: Seq<Seq<char>>, encrypted: Option<Seq<char>> },
    ToolUse { id: Seq<char>, name: Seq<char>, input: Seq<char> },
    ToolResult { tool_use_id: Seq<char>, content: Seq<char> },
    ServerToolUse { id: Seq<char>, name: Seq<char>, input: Seq<char> },
    WebSearchToolResult { tool_use_id: Seq<char>, content: Seq<Seq<char>> },
    Image { source: ImageView },
}

/// One content block of a message.
#[verifier::ext_equal]
pub struct BlockView {
    pub body: BodyView,
    pub cache: Option<CacheControl>,
}

impl BodyView {
    /// The blocks that take part in a tool call on the assistant's side.
    pub open spec fn is_tool_call(self) -> bool {
        self is ToolUse || self is ServerToolUse || self is WebSearchToolResult
    }
}

impl BlockView {
    pub open spec fn text(text: Seq<char>) -> BlockView {
        BlockView { body: BodyView::Text { text }, cache: None }
    }

    pub open spec fn tool_result(tool_use_id: Seq<char>, content: Seq<char>) -> BlockView {
        BlockView { body: BodyView::ToolResult { tool_use_id, content }, cache: None }
    }
}

/// The text of an optional string.
pub open spec fn option_view(s: Option<String>) -> Option<Seq<char>> {
    match s {
        Some(s) => Some(s@),
        None => None,
    }
}

pub fn clone_option(s: &Option<String>) -> (r: Option<String>)
    ensures
        option_view(r) == option_view(*s),
{
    match s {
        Some(s) => Some(s.clone()),
        None => None,
    }
}

fn clone_jsons(v: &Vec<Json>) -> (r: Vec<Json>)
    ensures
        json_views(r@) == json_views(v@),
{
    let mut r: Vec<Json> = Vec::new();
    let mut i: usize = 0;
    while i < v.len()
        invariant
            i <= v@.len(),
            json_views(r@) =~= json_views(v@).take(i as int),
        decreases v@.len() - i,
    {
        let ghost before = r@;
        r.push(v[i].clone());
        assert(json_views(r@) =~= json_views(before).push(json_views(v@)[i as int]));
        i = i + 1;
    }
    r
}

/// One content block of a conversation message.
#[derive(Debug)]
#[allow(inconsistent_fields)]
pub enum MessageContentBlock {
    Text { text: String, cache_control: Option<CacheControl> },
    Thinking { thinking: String, signature: String, cache_control: Option<CacheControl> },
    Summary { summary: String, cache_control: Option<CacheControl> },
    Compaction { content: String, cache_control: Option<CacheControl> },
    Reasoning {
        id: String,
        summary: Vec<String>,
        encrypted_content: Option<String>,
        cache_control: Option<CacheControl>,
    },
    ToolUse { id: String, name: String, input: Json, cache_control: Option<CacheControl> },
    ToolResult { tool_use_id: String, content: String, cache_control: Option<CacheControl> },
    ServerToolUse { id: String, name: String, input: Json, cache_control: Option<CacheControl> },
    WebSearchToolResult {
        tool_use_id: String,
        content: Vec<Json>,
        cache_control: Option<CacheControl>,
    },
    Image { source: ImageSource, cache_control: Option<CacheControl> },
}

impl View for MessageContentBlock {
    type V = BlockView;

    open spec fn view(&self) -> BlockView {
        match *self {
            MessageContentBlock::Text { text, cache_control } => BlockView {
                body: BodyView::Text { text: text@ },
                cache: cache_control,
            },
            MessageContentBlock::Thinking { thinking, signature, cache_control } => BlockView {
                body: BodyView::Thinking { thinking: thinking@, signature: signature@ },
                cache: cache_control,
            },
            MessageContentBlock::Summary { summary, cache_control } => BlockView {
                body: BodyView::Summary { summary: summary@ },
                cache: cache_control,
            },
            MessageContentBlock::Compaction { content, cache_control } => BlockView {
                body: BodyView::Compaction { content: content@ },
                cache: cache_control,
            },
            MessageContentBlock::Reasoning {
                id,
                summary,
                encrypted_content,
                cache_control,
            } => BlockView {
                body: BodyView::Reasoning {
                    id: id@,
                    summary: text::views(summary@),
                    encrypted: option_view(encrypted_content),
                },
                cache: cache_control,
            },
            MessageContentBlock::ToolUse { id, name, input, cache_control } => BlockView {
                body: BodyView::ToolUse { id: id@, name: name@, input: input@ },
                cache: cache_control,
            },
            MessageContentBlock::ToolResult { tool_use_id, content, cache_control } => BlockView {
                body: BodyView::ToolResult { tool_use_id: tool_use_id@, content: content@ },
                cache: cache_control,
            },
            MessageContentBlock::ServerToolUse { id, name, input, cache_control } => BlockView {
                body: BodyView::ServerToolUse { id: id@, name: name@, input: input@ },
                cache: cache_control,
            },
            MessageContentBlock::WebSearchToolResult {
                tool_use_id,
                content,
                cache_control,
            } => BlockView {
                body: BodyView::WebSearchToolResult {
                    tool_use_id: tool_use_id@,
                    content: json_views(content@),
                },
                cache: cache_control,
            },
            MessageContentBlock::Image { source, cache_control } => BlockView {
                body: BodyView::Image { source: source@ },
                cache: cache_control,
            },
        }
    }
}

impl Clone for MessageContentBlock {
    fn clone(&self) -> (r: Self)
        ensures
            r@ == self@,
    {
        match self {
            MessageContentBlock::Text { text, cache_control } => MessageContentBlock::Text {
                text: text.clone(),
                cache_control: *cache_control,
            },
            MessageContentBlock::Thinking {
                thinking,
                signature,
                cache_control,
            } => MessageContentBlock::Thinking {
                thinking: thinking.clone(),
                signature: signature.clone(),
                cache_control: *cache_control,
            },
            MessageContentBlock::Summary { summary, cache_control } => MessageContentBlock::Summary {
                summary: summary.clone(),
                cache_control: *cache_control,
            },
            MessageContentBlock::Compaction {
                content,
                cache_control,
            } => MessageContentBlock::Compaction {
                content: content.clone(),
                cache_control: *cache_control,
            },
            MessageContentBlock::Reasoning {
                id,
                summary,
                encrypted_content,
                cache_control,
            } => MessageContentBlock::Reasoning {
                id: id.clone(),
                summary: text::clone_list(summary),
                encrypted_content: clone_option(encrypted_content),
                cache_control: *cache_control,
            },
            MessageContentBlock::ToolUse {
                id,
                name,
                input,
                cache_control,
            } => MessageContentBlock::ToolUse {
                id: id.clone(),
                name: name.clone(),
                input: input.clone(),
                cache_control: *cache_control,
            },
            MessageContentBlock::ToolResult {
                tool_use_id,
                content,
                cache_control,
            } => MessageContentBlock::ToolResult {
                tool_use_id: tool_use_id.clone(),
                content: content.clone(),
                cache_control: *cache_control,
            },
            MessageContentBlock::ServerToolUse {
                id,
                name,
                input,
                cache_control,
            } => MessageContentBlock::ServerToolUse {
                id: id.clone(),
                name: name.clone(),
                input: input.clone(),
                cache_control: *cache_control,
            },
            MessageContentBlock::WebSearchToolResult {
                tool_use_id,
                content,
                cache_control,
            } => MessageContentBlock::WebSearchToolResult {
                tool_use_id: tool_use_id.clone(),
                content: clone_jsons(content),
                cache_control: *cache_control,
            },
            MessageContentBlock::Image { source, cache_control } => MessageContentBlock::Image {
                source: source.clone(),
                cache_control: *cache_control,
            },
        }
    }
}

/// The views of a list of blocks.
pub open spec fn block_views(v: Seq<MessageContentBlock>) -> Seq<BlockView> {
    v.map_values(|b: MessageContentBlock| b@)
}

/// A copy of a list of blocks.
pub fn clone_blocks(v: &Vec<MessageContentBlock>) -> (r: Vec<MessageContentBlock>)
    ensures
        block_views(r@) == block_views(v@),
{
    let mut r: Vec<MessageContentBlock> = Vec::new();
    let mut i: usize = 0;
    while i < v.len()
        invariant
            i <= v@.len(),
            block_views(r@) =~= block_views(v@).take(i as int),
        decreases v@.len() - i,
    {
        let ghost before = r@;
        r.push(v[i].clone());
        assert(block_views(r@) =~= block_views(before).push(block_views(v@)[i as int]));
        i = i + 1;
    }
    r
}

impl MessageContentBlock {
    /// A text block without a cache marker.
    pub fn plain_text(text: String) -> (r: Self)
        ensures
            r@ == BlockView::text(text@),
    {
        MessageContentBlock::Text { text, cache_control: None }
    }

    /// Whether the block answers a tool call.
    pub fn is_tool_result(&self) -> (r: bool)
        ensures
            r == (self@.body is ToolResult),
    {
        matches!(self, MessageContentBlock::ToolResult { .. })
    }

    /// Whether the block takes part in a tool call on the assistant's side.
    pub fn is_tool_call(&self) -> (r: bool)
        ensures
            r == self@.body.is_tool_call(),
    {
        matches!(
            self,
            MessageContentBlock::ToolUse { .. }
            | MessageContentBlock::ServerToolUse { .. }
            | MessageContentBlock::WebSearchToolResult { .. }
        )
    }

    /// Sets the block's cache marker.
    pub fn set_cache_control(&mut self, control: CacheControl)
        ensures
            final(self)@ == (BlockView { body: old(self)@.body, cache: Some(control) }),
    {
        match self {
            MessageContentBlock::Text { cache_control, .. } => *cache_control = Some(control),
            MessageContentBlock::Thinking { cache_control, .. } => *cache_control = Some(control),
            MessageContentBlock::Summary { cache_control, .. } => *cache_control = Some(control),
            MessageContentBlock::Compaction { cache_control, .. } => *cache_control = Some(control),
            MessageContentBlock::Reasoning { cache_control, .. } => *cache_control = Some(control),
            MessageContentBlock::ToolUse { cache_control, .. } => *cache_control = Some(control),
            MessageContentBlock::ToolResult { cache_control, .. } => *cache_control = Some(control),
            MessageContentBlock::ServerToolUse { cache_control, .. } => *cache_control = Some(
                control,
            ),
            MessageContentBlock::WebSearchToolResult { cache_control, .. } => *cache_control = Some(
                control,
            ),
            MessageContentBlock::Image { cache_control, .. } => *cache_control = Some(control),
        }
    }
}

/// What a message says: one text, or a list of blocks.
#[derive(Debug)]
#[allow(inconsistent_fields)]
pub enum MessageContent {
    Text { content: String },
    Blocks { content: Vec<MessageContentBlock> },
}

#[verifier::ext_equal]
#[allow(inconsistent_fields)]
pub enum ContentView {
    Text { content: Seq<char> },
    Blocks { content: Seq<BlockView> },
}

impl View for MessageContent {
    type V = ContentView;

    open spec fn view(&self) -> ContentView {
        match *self {
            MessageContent::Text { content } => ContentView::Text { content: content@ },
            MessageContent::Blocks { content } => ContentView::Blocks {
                content: block_views(content@),
            },
        }
    }
}

impl Clone for MessageContent {
    fn clone(&self) -> (r: Self)
        ensures
            r@ == self@,
    {
        match self {
            MessageContent::Text { content } => MessageContent::Text { content: content.clone() },
            MessageContent::Blocks { content } => MessageContent::Blocks {
                content: clone_blocks(content),
            },
        }
    }
}

/// One turn of a conversation.
#[derive(Debug)]
pub struct Message {
    pub role: String,
    pub content: MessageContent,
}

#[verifier::ext_equal]
pub struct MessageView {
    pub role: Seq<char>,
    pub content: ContentView,
}

impl View for Message {
    type V = MessageView;

    open spec fn view(&self) -> MessageView {
        MessageView { role: self.role@, content: self.content@ }
    }
}

impl MessageView {
    pub open spec fn user(content: Seq<char>) -> MessageView {
        MessageView { role: "user"@, content: ContentView::Text { content } }
    }

    pub open spec fn user_blocks(content: Seq<BlockView>) -> MessageView {
        MessageView { role: "user"@, content: ContentView::Blocks { content } }
    }

    pub open spec fn assistant_blocks(content: Seq<BlockView>) -> MessageView {
        MessageView { role: "assistant"@, content: ContentView::Blocks { content } }
    }

    pub open spec fn is_user(self) -> bool {
        self.role == "user"@
    }
}

impl Message {
    /// A user turn made of one text.
    pub fn user(content: String) -> (r: Self)
        ensures
            r@ == MessageView::user(content@),
    {
        Message { role: "user".to_owned(), content: MessageContent::Text { content } }
    }

    /// A user turn made of blocks.
    pub fn user_with_blocks(blocks: Vec<MessageContentBlock>) -> (r: Self)
        ensures
            r@ == MessageView::user_blocks(block_views(blocks@)),
    {
        Message { role: "user".to_owned(), content: MessageContent::Blocks { content: blocks } }
    }

    /// A user turn that answers tool calls.
    pub fn user_with_tool_results(results: Vec<MessageContentBlock>) -> (r: Self)
        ensures
            r@ == MessageView::user_blocks(block_views(results@)),
    {
        Message { role: "user".to_owned(), content: MessageContent::Blocks { content: results } }
    }

    /// An assistant turn made of blocks.
    pub fn assistant_with_blocks(blocks: Vec<MessageContentBlock>) -> (r: Self)
        ensures
            r@ == MessageView::assistant_blocks(block_views(blocks@)),
    {
        Message {
            role: "assistant".to_owned(),
            content: MessageContent::Blocks { content: blocks },
        }
    }

    /// Whether this is a user turn.
    pub fn is_user(&self) -> (r: bool)
        ensures
            r == self@.is_user(),
    {
        text::same(self.role.as_str(), "user")
    }
}

impl Clone for Message {
    fn clone(&self) -> (r: Self)
        ensures
            r@ == self@,
    {
        Message { role: self.role.clone(), content: self.content.clone() }
    }
}

/// The views of a list of messages.
pub open spec fn message_views(v: Seq<Message>) -> Seq<MessageView> {
    v.map_values(|m: Message| m@)
}

/// A copy of a list of messages.
pub fn clone_messages(v: &[Message]) -> (r: Vec<Message>)
    ensures
        message_views(r@) == message_views(v@),
{
    let mut r: Vec<Message> = Vec::new();
    let mut i: usize = 0;
    while i < v.len()
        invariant
            i <= v@.len(),
            message_views(r@) =~= message_views(v@).take(i as int),
        decreases v@.len() - i,
    {
        let ghost before = r@;
        r.push(v[i].clone());
        assert(message_views(r@) =~= message_views(before).push(message_views(v@)[i as int]));
        i = i + 1;
    }
    r
}

/// The views of a list of system prompt parts.
pub open spec fn system_views(v: Seq<SystemPrompt>) -> Seq<SystemView> {
    v.map_values(|s: SystemPrompt| s@)
}

/// A copy of a list of system prompt parts.
pub fn clone_system(v: &Vec<SystemPrompt>) -> (r: Vec<SystemPrompt>)
    ensures
        system_views(r@) == system_views(v@),
{
    let mut r: Vec<SystemPrompt> = Vec::new();
    let mut i: usize = 0;
    while i < v.len()
        invariant
            i <= v@.len(),
            system_views(r@) =~= system_views(v@).take(i as int),
        decreases v@.len() - i,
    {
        let ghost before = r@;
        r.push(v[i].clone());
        assert(system_views(r@) =~= system_views(before).push(system_views(v@)[i as int]));
        i = i + 1;
    }
    r
}

/// One content block of a model's response.
#[derive(Debug)]
#[allow(inconsistent_fields)]
pub enum ContentBlock {
    Text { text: String },
    Thinking { thinking: String, signature: String },
    Summary { summary: String },
    Compaction { content: String },
    Reasoning { id: String, summary: Vec<String>, encrypted_content: Option<String> },
    ToolUse { id: String, name: String, input: Json },
    ServerToolUse { id: String, name: String, input: Json },
    WebSearchToolResult { tool_use_id: String, content: Vec<Json> },
}

impl View for ContentBlock {
    type V = BodyView;

    open spec fn view(&self) -> BodyView {
        match *self {
            ContentBlock::Text { text } => BodyView::Text { text: text@ },
            ContentBlock::Thinking { thinking, signature } => BodyView::Thinking {
                thinking: thinking@,
                signature: signature@,
            },
            ContentBlock::Summary { summary } => BodyView::Summary { summary: summary@ },
            ContentBlock::Compaction { content } => BodyView::Compaction { content: content@ },
            ContentBlock::Reasoning { id, summary, encrypted_content } => BodyView::Reasoning {
                id: id@,
                summary: text::views(summary@),
                encrypted: option_view(encrypted_content),
            },
            ContentBlock::ToolUse { id, name, input } => BodyView::ToolUse {
                id: id@,
                name: name@,
                input: input@,
            },
            ContentBlock::ServerToolUse { id, name, input } => BodyView::ServerToolUse {
                id: id@,
                name: name@,
                input: input@,
            },
            ContentBlock::WebSearchToolResult {
                tool_use_id,
                content,
            } => BodyView::WebSearchToolResult {
                tool_use_id: tool_use_id@,
                content: json_views(content@),
            },
        }
    }
}

/// The views of a response's blocks.
pub open spec fn body_views(v: Seq<ContentBlock>) -> Seq<BodyView> {
    v.map_values(|b: ContentBlock| b@)
}

/// The blocks of a response as they enter the conversation: the same
/// bodies, without cache markers.
pub open spec fn as_message_blocks(v: Seq<BodyView>) -> Seq<BlockView> {
    v.map_values(|b: BodyView| BlockView { body: b, cache: None })
}

impl MessageContentBlock {
    /// The block of a response as it enters the conversation.
    pub fn from_content_block_for_api(block: &ContentBlock) -> (r: Self)
        ensures
            r@ == (BlockView { body: block@, cache: None }),
    {
        match block {
            ContentBlock::Text { text } => MessageContentBlock::Text {
                text: text.clone(),
                cache_control: None,
            },
            ContentBlock::Thinking { thinking, signature } => MessageContentBlock::Thinking {
                thinking: thinking.clone(),
                signature: signature.clone(),
                cache_control: None,
            },
            ContentBlock::Summary { summary } => MessageContentBlock::Summary {
                summary: summary.clone(),
                cache_control: None,
            },
            ContentBlock::Compaction { content } => MessageContentBlock::Compaction {
                content: content.clone(),
                cache_control: None,
            },
            ContentBlock::Reasoning {
                id,
                summary,
                encrypted_content,
            } => MessageContentBlock::Reasoning {
                id: id.clone(),
                summary: text::clone_list(summary),
                encrypted_content: clone_option(encrypted_content),
                cache_control: None,
            },
            ContentBlock::ToolUse { id, name, input } => MessageContentBlock::ToolUse {
                id: id.clone(),
                name: name.clone(),
                input: input.clone(),
                cache_control: None,
            },
            ContentBlock::ServerToolUse { id, name, input } => MessageContentBlock::ServerToolUse {
                id: id.clone(),
                name: name.clone(),
                input: input.clone(),
                cache_control: None,
            },
            ContentBlock::WebSearchToolResult {
                tool_use_id,
                content,
            } => MessageContentBlock::WebSearchToolResult {
                tool_use_id: tool_use_id.clone(),
                content: clone_jsons(content),
                cache_control: None,
            },
        }
    }
}

/// The tokens that one response was billed for.
#[derive(Debug, Clone, Copy, PartialEq, Eq, Structural)]
pub struct Usage {
    pub input_tokens: u32,
    pub output_tokens: u32,
    pub cache_read_input_tokens: Option<u32>,
    pub cache_creation_input_tokens: Option<u32>,
}

/// A model's response.
#[derive(Debug)]
pub struct CreateMessageResponse {
    pub model: String,
    pub content: Vec<ContentBlock>,
    pub stop_reason: Option<String>,
    pub usage: Usage,
}

/// A tool that the model may call.
#[derive(Debug)]
pub enum Tool {
    Regular {
        name: String,
        description: String,
        input_schema: Json,
        cache_control: Option<CacheControl>,
    },
    AnthropicWebSearch { name: String, cache_control: Option<CacheControl> },
    OpenAIWebSearch { name: String },
}

#[verifier::ext_equal]
pub enum ToolView {
    Regular {
        name: Seq<char>,
        description: Seq<char>,
        input_schema: Seq<char>,
        cache: Option<CacheControl>,
    },
    AnthropicWebSearch { name: Seq<char>, cache: Option<CacheControl> },
    OpenAIWebSearch { name: Seq<char> },
}

impl View for Tool {
    type V = ToolView;

    open spec fn view(&self) -> ToolView {
        match *self {
            Tool::Regular { name, description, input_schema, cache_control } => ToolView::Regular {
                name: name@,
                description: description@,
                input_schema: input_schema@,
                cache: cache_control,
            },
            Tool::AnthropicWebSearch { name, cache_control } => ToolView::AnthropicWebSearch {
                name: name@,
                cache: cache_control,
            },
            Tool::OpenAIWebSearch { name } => ToolView::OpenAIWebSearch { name: name@ },
        }
    }
}

impl ToolView {
    /// The same tool with a cache marker, where it can carry one.
    pub open spec fn marked(self, control: CacheControl) -> ToolView {
        match self {
            ToolView::Regular { name, description, input_schema, cache } => ToolView::Regular {
                name,
                description,
                input_schema,
                cache: Some(control),
            },
            ToolView::AnthropicWebSearch { name, cache } => ToolView::AnthropicWebSearch {
                name,
                cache: Some(control),
            },
            ToolView::OpenAIWebSearch { name } => self,
        }
    }
}

impl Tool {
    /// Sets the tool's cache marker, where it can carry one.
    pub fn set_cache_control(&mut self, control: CacheControl)
        ensures
            final(self)@ == old(self)@.marked(control),
    {
        match self {
            Tool::Regular { cache_control, .. } => *cache_control = Some(control),
            Tool::AnthropicWebSearch { cache_control, .. } => *cache_control = Some(control),
            Tool::OpenAIWebSearch { .. } => {},
        }
    }
}

impl Clone for Tool {
    fn clone(&self) -> (r: Self)
        ensures
            r@ == self@,
    {
        match self {
            Tool::Regular { name, description, input_schema, cache_control } => Tool::Regular {
                name: name.clone(),
                description: description.clone(),
                input_schema: input_schema.clone(),
                cache_control: *cache_control,
            },
            Tool::AnthropicWebSearch { name, cache_control } => Tool::AnthropicWebSearch {
                name: name.clone(),
                cache_control: *cache_control,
            },
            Tool::OpenAIWebSearch { name } => Tool::OpenAIWebSearch { name: name.clone() },
        }
    }
}

/// The views of a list of tools.
pub open spec fn tool_views(v: Seq<Tool>) -> Seq<ToolView> {
    v.map_values(|t: Tool| t@)
}

/// A copy of a list of tools.
pub fn clone_tools(v: &Vec<Tool>) -> (r: Vec<Tool>)
    ensures
        tool_views(r@) == tool_views(v@),
{
    let mut r: Vec<Tool> = Vec::new();
    let mut i: usize = 0;
    while i < v.len()
        invariant
            i <= v@.len(),
            tool_views(r@) =~= tool_views(v@).take(i as int),
        decreases v@.len() - i,
    {
        let ghost before = r@;
        r.push(v[i].clone());
        assert(tool_views(r@) =~= tool_views(before).push(tool_views(v@)[i as int]));
        i = i + 1;
    }
    r
}

} // verus!
