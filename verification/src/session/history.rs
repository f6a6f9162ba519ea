//! Stored sessions: their names, the list that finds them again, and the
//! instructions that a workspace gives every session.

use super::model;
use super::model::{
    DisplayMessage, MetadataView, Session, SessionMetadata, SessionTokenCounters, SessionView,
};
use crate::api;
use crate::api::{
    BlockView, BodyView, ContentView, Message, MessageContent, MessageContentBlock, MessageView,
    SystemPrompt,
};
use crate::text;
use rand::RngExt;
use vstd::prelude::*;

verus! {

pub const SOFOS_DIR: &'static str = ".sofos";

pub const SESSIONS_DIR: &'static str = "sessions";

pub const INDEX_FILE: &'static str = "index.json";

/// Most characters of a message that the list of sessions shows.
pub const MAX_PREVIEW_LENGTH: usize = 120;

/// How often a new name is tried before one is taken unseen.
pub const SESSION_ID_UNIQUE_RETRIES: usize = 8;

/// A random number from `rand::rng()`, drawn with `random_range` from all
/// 32-bit numbers. Every one of them may come back.
#[verifier::external_body]
fn random_number() -> u32 {
    rand::rng().random_range(0..=u32::MAX)
}

/// The milliseconds since 1970 by `SystemTime::now`, or zero where the clock
/// is set before that. Nothing is promised of them.
#[verifier::external_body]
fn clock_millis() -> u128 {
    let now = std::time::SystemTime::now().duration_since(std::time::UNIX_EPOCH);
    now.unwrap_or(std::time::Duration::ZERO).as_millis()
}

/// The name of a session that started at the given millisecond.
pub open spec fn session_id_of(millis: u128, n: u32) -> Seq<char> {
    "session_"@ + text::decimal_of(millis as nat) + "_"@ + text::hex_of(n as nat, 8)
}

/// Whether a text is the name of some session.
pub open spec fn is_generated(id: Seq<char>) -> bool {
    exists|millis: u128, n: u32| id == #[trigger] session_id_of(millis, n)
}

/// The name of a session that started at the given millisecond.
pub fn session_id(millis: u128, n: u32) -> (r: String)
    ensures
        r@ == session_id_of(millis, n),
{
    let mut s = "session_".to_owned();
    s.append(text::decimal(millis).as_str());
    s.append("_");
    s.append(text::hex(n, 8).as_str());
    s
}

/// The first of the names that is free, or the last of them where none of
/// the others is.
pub open spec fn first_free(names: Seq<Seq<char>>, taken: Seq<Seq<char>>) -> Seq<char>
    recommends
        names.len() > 0,
    decreases names.len(),
{
    if names.len() <= 1 || !taken.contains(names[0]) {
        names[0]
    } else {
        first_free(names.drop_first(), taken)
    }
}

/// The first of the names that is free, or the last of them where none of
/// the others is.
pub fn pick_free(names: &Vec<String>, taken: &Vec<String>) -> (r: String)
    requires
        names@.len() > 0,
    ensures
        r@ == first_free(text::views(names@), text::views(taken@)),
{
    let ghost all = text::views(names@);
    let mut i: usize = 0;
    assert(all.skip(0) =~= all);
    while i < names.len() - 1 && text::list_contains(taken, names[i].as_str())
        invariant
            all == text::views(names@),
            i < names@.len(),
            first_free(all, text::views(taken@)) == first_free(
                all.skip(i as int),
                text::views(taken@),
            ),
        decreases names@.len() - i,
    {
        assert(all.skip(i as int).drop_first() =~= all.skip(i + 1));
        assert(all.skip(i as int)[0] == names@[i as int]@);
        i = i + 1;
    }
    assert(all.skip(i as int)[0] == names@[i as int]@);
    names[i].clone()
}

proof fn lemma_first_free(names: Seq<Seq<char>>, taken: Seq<Seq<char>>)
    requires
        names.len() > 0,
    ensures
        names.contains(first_free(names, taken)),
    decreases names.len(),
{
    if names.len() <= 1 || !taken.contains(names[0]) {
        assert(names[0] == first_free(names, taken));
    } else {
        let rest = names.drop_first();
        lemma_first_free(rest, taken);
        let i = choose|i: int| 0 <= i < rest.len() && rest[i] == first_free(rest, taken);
        assert(names[i + 1] == rest[i]);
    }
}

/// A name is taken only where all that came before it are.
pub proof fn free_name_is_preferred(names: Seq<Seq<char>>, taken: Seq<Seq<char>>)
    requires
        names.len() > 0,
        exists|i: int| 0 <= i < names.len() && !taken.contains(#[trigger] names[i]),
    ensures
        !taken.contains(first_free(names, taken)),
    decreases names.len(),
{
    if names.len() > 1 && taken.contains(names[0]) {
        let i = choose|i: int| 0 <= i < names.len() && !taken.contains(#[trigger] names[i]);
        assert(names.drop_first()[i - 1] == names[i]);
        free_name_is_preferred(names.drop_first(), taken);
    } else {
        let i = choose|i: int| 0 <= i < names.len() && !taken.contains(#[trigger] names[i]);
        if names.len() == 1 {
            assert(i == 0);
        }
    }
}

/// Whether a text can name a session: it is no directory name and leads to
/// none.
pub open spec fn valid_id(id: Seq<char>) -> bool {
    &&& id.len() > 0
    &&& id != "."@
    &&& id != ".."@
    &&& !id.contains('/')
    &&& !id.contains('\\')
}

/// Why something about a session was refused.
#[derive(Debug)]
pub enum SessionError {
    /// The name cannot name a session.
    InvalidId(String),
    /// There is no session of that name.
    NotFound(String),
}

impl SessionError {
    pub open spec fn message_text(self) -> Seq<char> {
        match self {
            SessionError::InvalidId(id) => "Invalid session id '"@ + id@ + "'"@,
            SessionError::NotFound(id) => "Session '"@ + id@ + "' not found"@,
        }
    }

    /// What the user is told.
    pub fn message(&self) -> (r: String)
        ensures
            r@ == self.message_text(),
    {
        match self {
            SessionError::InvalidId(id) => {
                let mut s = "Invalid session id '".to_owned();
                s.append(id.as_str());
                s.append("'");
                s
            },
            SessionError::NotFound(id) => {
                let mut s = "Session '".to_owned();
                s.append(id.as_str());
                s.append("' not found");
                s
            },
        }
    }
}

/// The first text that a turn holds.
pub open spec fn lead_text(m: MessageView) -> Seq<char> {
    match m.content {
        ContentView::Text { content } => content,
        ContentView::Blocks { content } => first_text(content),
    }
}

pub open spec fn first_text(blocks: Seq<BlockView>) -> Seq<char>
    decreases blocks.len(),
{
    if blocks.len() == 0 {
        Seq::empty()
    } else {
        match blocks[0].body {
            BodyView::Text { text } => text,
            _ => first_text(blocks.drop_first()),
        }
    }
}

/// A text cut after as many characters as the list of sessions shows.
pub open spec fn preview_cut(s: Seq<char>) -> Seq<char> {
    if s.len() > MAX_PREVIEW_LENGTH {
        s.take(MAX_PREVIEW_LENGTH as int) + "..."@
    } else {
        s
    }
}

/// What the list of sessions shows of a conversation: its first user turn
/// that is not blank.
pub open spec fn preview_of(ms: Seq<MessageView>) -> Seq<char>
    decreases ms.len(),
{
    if ms.len() == 0 {
        "Empty session"@
    } else if ms[0].is_user() && text::trimmed(lead_text(ms[0])).len() > 0 {
        preview_cut(text::trimmed(lead_text(ms[0])))
    } else {
        preview_of(ms.drop_first())
    }
}

/// The list with an entry put in the place of the one of the same name, or
/// at its end.
pub open spec fn upserted(v: Seq<MetadataView>, m: MetadataView) -> Seq<MetadataView>
    decreases v.len(),
{
    if v.len() == 0 {
        seq![m]
    } else if v[0].id == m.id {
        v.update(0, m)
    } else {
        seq![v[0]] + upserted(v.drop_first(), m)
    }
}

/// How many entries of a list that starts with the most recent ones are at
/// least as recent as the given time.
pub open spec fn recent_count(v: Seq<MetadataView>, time: u64) -> nat
    decreases v.len(),
{
    if v.len() == 0 || v[0].updated_at < time {
        0
    } else {
        1 + recent_count(v.drop_first(), time)
    }
}

/// The list with the most recent entries first. Entries of the same time
/// stay in the order in which they were.
pub open spec fn by_recency(v: Seq<MetadataView>) -> Seq<MetadataView>
    decreases v.len(),
{
    if v.len() == 0 {
        v
    } else {
        let before = by_recency(v.drop_last());
        before.insert(recent_count(before, v.last().updated_at) as int, v.last())
    }
}

/// The entry that the list of sessions has for a session.
pub open spec fn entry_of(s: SessionView) -> MetadataView {
    MetadataView {
        id: s.id,
        preview: preview_of(s.api_messages),
        created_at: s.created_at,
        updated_at: s.updated_at,
        message_count: s.api_messages.len(),
    }
}

/// The list without the entries of the given name.
pub open spec fn without_id(v: Seq<MetadataView>, id: Seq<char>) -> Seq<MetadataView> {
    v.filter(|m: MetadataView| m.id != id)
}

/// The sessions of a workspace.
pub struct HistoryManager {
    pub workspace: String,
}

/// `part` below the directory `base`.
pub open spec fn below(base: Seq<char>, part: Seq<char>) -> Seq<char> {
    if base.len() == 0 || base.last() == '/' {
        base + part
    } else {
        base + seq!['/'] + part
    }
}

fn join_path(base: &str, part: &str) -> (r: String)
    ensures
        r@ == below(base@, part@),
{
    let mut s = base.to_owned();
    let n = base.unicode_len();
    if n > 0 && base.get_char(n - 1) != '/' {
        s.push('/');
        assert(s@ =~= base@ + seq!['/']);
    }
    s.append(part);
    s
}

impl HistoryManager {
    /// The sessions of the given workspace.
    pub fn new(workspace: String) -> (r: Self)
        ensures
            r.workspace@ == workspace@,
    {
        HistoryManager { workspace }
    }

    pub open spec fn dir(self) -> Seq<char> {
        below(below(self.workspace@, SOFOS_DIR@), SESSIONS_DIR@)
    }

    /// The directory that the sessions are stored in.
    pub fn sessions_dir(&self) -> (r: String)
        ensures
            r@ == self.dir(),
    {
        join_path(join_path(self.workspace.as_str(), SOFOS_DIR).as_str(), SESSIONS_DIR)
    }

    /// The file that lists the sessions.
    pub fn index_path(&self) -> (r: String)
        ensures
            r@ == below(self.dir(), INDEX_FILE@),
    {
        join_path(self.sessions_dir().as_str(), INDEX_FILE)
    }

    /// The file that a session is stored in.
    pub fn session_path(&self, id: &str) -> (r: Result<String, SessionError>)
        ensures
            match r {
                Ok(p) => valid_id(id@) && p@ == below(self.dir(), id@ + ".json"@),
                Err(e) => !valid_id(id@) && e is InvalidId && e->InvalidId_0@ == id@,
            },
    {
        match Self::validate_session_id(id) {
            Err(e) => Err(e),
            Ok(()) => {
                let mut name = id.to_owned();
                name.append(".json");
                Ok(join_path(self.sessions_dir().as_str(), name.as_str()))
            },
        }
    }

    /// A name for a new session, from the clock and a random number.
    pub fn generate_session_id() -> (r: String)
        ensures
            is_generated(r@),
    {
        let millis: u128 = clock_millis();
        let n: u32 = random_number();
        let r = session_id(millis, n);
        assert(r@ == session_id_of(millis, n));
        r
    }

    /// A name for a new session that none of the stored ones has, where one
    /// of eight tries finds it.
    pub fn generate_unique_session_id(taken: &Vec<String>) -> (r: String)
        ensures
            is_generated(r@),
            exists|names: Seq<Seq<char>>|
                names.len() == SESSION_ID_UNIQUE_RETRIES + 1 && (forall|i: int|
                    0 <= i < names.len() ==> is_generated(#[trigger] names[i])) && r@
                    == #[trigger] first_free(names, text::views(taken@)),
    {
        let mut names: Vec<String> = Vec::new();
        let mut i: usize = 0;
        while i <= SESSION_ID_UNIQUE_RETRIES
            invariant
                i <= SESSION_ID_UNIQUE_RETRIES + 1,
                names@.len() == i,
                forall|k: int| 0 <= k < i ==> is_generated(#[trigger] names@[k]@),
            decreases SESSION_ID_UNIQUE_RETRIES + 1 - i,
        {
            names.push(Self::generate_session_id());
            i = i + 1;
        }
        let r = pick_free(&names, taken);
        proof {
            let v = text::views(names@);
            assert forall|k: int| 0 <= k < v.len() implies is_generated(#[trigger] v[k]) by {
                assert(is_generated(names@[k]@));
            }
            assert(r@ == first_free(v, text::views(taken@)));
            lemma_first_free(v, text::views(taken@));
        }
        r
    }

    /// Refuses a name that could lead out of the directory of sessions.
    pub fn validate_session_id(session_id: &str) -> (r: Result<(), SessionError>)
        ensures
            match r {
                Ok(_) => valid_id(session_id@),
                Err(e) => !valid_id(session_id@) && e is InvalidId && e->InvalidId_0@
                    == session_id@,
            },
    {
        if session_id.is_empty() || text::same(session_id, ".") || text::same(session_id, "..")
            || text::contains_char(session_id, '/') || text::contains_char(session_id, '\\') {
            Err(SessionError::InvalidId(session_id.to_owned()))
        } else {
            Ok(())
        }
    }

    /// The session as it is stored. The time of its first save is kept where
    /// it is known.
    pub fn build_session(
        session_id: &str,
        messages: &[Message],
        display_messages: &Vec<DisplayMessage>,
        system_prompt: &Vec<SystemPrompt>,
        token_counters: SessionTokenCounters,
        model: &str,
        readonly: bool,
        permission_preset: Option<String>,
        saved_before: Option<u64>,
        now: u64,
    ) -> (r: Result<Session, SessionError>)
        ensures
            match r {
                Ok(s) => valid_id(session_id@) && s@ == (SessionView {
                    id: session_id@,
                    api_messages: api::message_views(messages@),
                    display_messages: model::display_views(display_messages@),
                    system_prompt: api::system_views(system_prompt@),
                    created_at: match saved_before {
                        Some(t) => t,
                        None => now,
                    },
                    updated_at: now,
                    token_counters,
                    model: Some(model@),
                    readonly: Some(readonly),
                    permission_preset: api::option_view(permission_preset),
                }),
                Err(e) => !valid_id(session_id@) && e is InvalidId && e->InvalidId_0@
                    == session_id@,
            },
    {
        match Self::validate_session_id(session_id) {
            Err(e) => Err(e),
            Ok(()) => Ok(
                Session {
                    id: session_id.to_owned(),
                    api_messages: api::clone_messages(messages),
                    display_messages: model::clone_display(display_messages),
                    system_prompt: api::clone_system(system_prompt),
                    created_at: match saved_before {
                        Some(t) => t,
                        None => now,
                    },
                    updated_at: now,
                    token_counters,
                    model: Some(model.to_owned()),
                    readonly: Some(readonly),
                    permission_preset,
                },
            ),
        }
    }

    /// What the list of sessions shows of a conversation.
    pub fn extract_preview(messages: &[Message]) -> (r: String)
        ensures
            r@ == preview_of(api::message_views(messages@)),
    {
        let ghost ms = api::message_views(messages@);
        let mut i: usize = 0;
        assert(ms.skip(0) =~= ms);
        while i < messages.len()
            invariant
                ms == api::message_views(messages@),
                i <= messages@.len(),
                preview_of(ms) == preview_of(ms.skip(i as int)),
            decreases messages@.len() - i,
        {
            proof {
                assert(ms.skip(i as int)[0] == messages@[i as int]@);
                assert(ms.skip(i as int).drop_first() =~= ms.skip(i + 1));
            }
            if messages[i].is_user() {
                let preview = text::trim(Self::message_lead(&messages[i]).as_str());
                let n = preview.as_str().unicode_len();
                if n > 0 {
                    return if n > MAX_PREVIEW_LENGTH {
                        let mut s = preview.as_str().substring_char(
                            0,
                            MAX_PREVIEW_LENGTH,
                        ).to_owned();
                        assert(s@ =~= preview@.take(MAX_PREVIEW_LENGTH as int));
                        s.append("...");
                        s
                    } else {
                        preview
                    };
                }
            }
            i = i + 1;
        }
        "Empty session".to_owned()
    }

    fn message_lead(msg: &Message) -> (r: String)
        ensures
            r@ == lead_text(msg@),
    {
        match &msg.content {
            MessageContent::Text { content } => content.clone(),
            MessageContent::Blocks { content } => {
                let ghost all = api::block_views(content@);
                let mut j: usize = 0;
                assert(all.skip(0) =~= all);
                while j < content.len()
                    invariant
                        all == api::block_views(content@),
                        msg@.content == (ContentView::Blocks { content: all }),
                        j <= content@.len(),
                        first_text(all) == first_text(all.skip(j as int)),
                    decreases content@.len() - j,
                {
                    proof {
                        assert(all.skip(j as int)[0] == content@[j as int]@);
                        assert(all.skip(j as int).drop_first() =~= all.skip(j + 1));
                    }
                    if let MessageContentBlock::Text { text, .. } = &content[j] {
                        return text.clone();
                    }
                    j = j + 1;
                }
                String::new()
            },
        }
    }

    fn upsert(sessions: &mut Vec<SessionMetadata>, m: SessionMetadata)
        ensures
            model::metadata_views(final(sessions)@) == upserted(
                model::metadata_views(old(sessions)@),
                m@,
            ),
    {
        let ghost all = model::metadata_views(sessions@);
        let mut i: usize = 0;
        assert(all.skip(0) =~= all);
        assert(all.take(0) + upserted(all, m@) =~= upserted(all, m@));
        while i < sessions.len()
            invariant
                all == model::metadata_views(sessions@),
                all == model::metadata_views(old(sessions)@),
                i <= sessions@.len(),
                upserted(all, m@) == all.take(i as int) + upserted(all.skip(i as int), m@),
            decreases sessions@.len() - i,
        {
            let ghost rest = all.skip(i as int);
            assert(rest[0] == sessions@[i as int]@);
            if text::same(sessions[i].id.as_str(), m.id.as_str()) {
                sessions[i] = m;
                assert(model::metadata_views(sessions@) =~= all.take(i as int) + rest.update(
                    0,
                    m@,
                ));
                return;
            }
            proof {
                assert(rest.drop_first() =~= all.skip(i + 1));
                assert(all.take(i as int) + (seq![rest[0]] + upserted(rest.drop_first(), m@))
                    =~= all.take(i + 1) + upserted(all.skip(i + 1), m@));
            }
            i = i + 1;
        }
        sessions.push(m);
        assert(all.skip(i as int) =~= Seq::<MetadataView>::empty());
        assert(model::metadata_views(sessions@) =~= all.take(i as int) + seq![m@]);
    }

    fn count_recent(v: &Vec<SessionMetadata>, time: u64) -> (n: usize)
        ensures
            n == recent_count(model::metadata_views(v@), time),
            n <= v@.len(),
    {
        let ghost all = model::metadata_views(v@);
        let mut i: usize = 0;
        assert(all.skip(0) =~= all);
        while i < v.len() && v[i].updated_at >= time
            invariant
                all == model::metadata_views(v@),
                i <= v@.len(),
                recent_count(all, time) == i + recent_count(all.skip(i as int), time),
            decreases v@.len() - i,
        {
            assert(all.skip(i as int)[0] == v@[i as int]@);
            assert(all.skip(i as int).drop_first() =~= all.skip(i + 1));
            i = i + 1;
        }
        proof {
            if i < v@.len() {
                assert(all.skip(i as int)[0] == v@[i as int]@);
            }
        }
        i
    }

    /// The list with the most recent entries first.
    pub fn sort_by_recency(v: &Vec<SessionMetadata>) -> (r: Vec<SessionMetadata>)
        ensures
            model::metadata_views(r@) == by_recency(model::metadata_views(v@)),
    {
        let ghost all = model::metadata_views(v@);
        let mut r: Vec<SessionMetadata> = Vec::new();
        let mut i: usize = 0;
        assert(all.take(0) =~= Seq::<MetadataView>::empty());
        assert(model::metadata_views(r@) =~= by_recency(all.take(0)));
        while i < v.len()
            invariant
                all == model::metadata_views(v@),
                i <= v@.len(),
                model::metadata_views(r@) == by_recency(all.take(i as int)),
            decreases v@.len() - i,
        {
            proof {
                assert(all.take(i + 1).drop_last() =~= all.take(i as int));
                assert(all.take(i + 1).last() == v@[i as int]@);
            }
            let ghost before = r@;
            let at = Self::count_recent(&r, v[i].updated_at);
            r.insert(at, v[i].clone());
            assert(model::metadata_views(r@) =~= model::metadata_views(before).insert(
                at as int,
                v@[i as int]@,
            ));
            i = i + 1;
        }
        assert(all.take(i as int) =~= all);
        r
    }

    /// The list of sessions after a session was stored.
    pub fn update_index(sessions: Vec<SessionMetadata>, session: &Session) -> (r: Vec<
        SessionMetadata,
    >)
        ensures
            model::metadata_views(r@) == by_recency(
                upserted(model::metadata_views(sessions@), entry_of(session@)),
            ),
    {
        let mut sessions = sessions;
        let metadata = SessionMetadata {
            id: session.id.clone(),
            preview: Self::extract_preview(session.api_messages.as_slice()),
            created_at: session.created_at,
            updated_at: session.updated_at,
            message_count: session.api_messages.len(),
        };
        assert(metadata@ =~= entry_of(session@));
        Self::upsert(&mut sessions, metadata);
        Self::sort_by_recency(&sessions)
    }

    /// The list of sessions after a session was deleted.
    pub fn remove_from_index(sessions: &Vec<SessionMetadata>, session_id: &str) -> (r: Vec<
        SessionMetadata,
    >)
        ensures
            model::metadata_views(r@) == without_id(
                model::metadata_views(sessions@),
                session_id@,
            ),
    {
        let ghost all = model::metadata_views(sessions@);
        let mut r: Vec<SessionMetadata> = Vec::new();
        let mut i: usize = 0;
        assert(all.take(0) =~= Seq::<MetadataView>::empty());
        proof {
            reveal(Seq::filter);
        }
        while i < sessions.len()
            invariant
                all == model::metadata_views(sessions@),
                i <= sessions@.len(),
                model::metadata_views(r@) == without_id(all.take(i as int), session_id@),
            decreases sessions@.len() - i,
        {
            let ghost before = r@;
            proof {
                reveal(Seq::filter);
                assert(all.take(i + 1).drop_last() =~= all.take(i as int));
                assert(all.take(i + 1).last() == sessions@[i as int]@);
            }
            if !text::same(sessions[i].id.as_str(), session_id) {
                r.push(sessions[i].clone());
                assert(model::metadata_views(r@) =~= model::metadata_views(before).push(
                    sessions@[i as int]@,
                ));
            }
            i = i + 1;
        }
        assert(all.take(i as int) =~= all);
        r
    }

    /// The instructions of a workspace: those of the project, then those of
    /// the user, each where there are any.
    pub fn load_custom_instructions(project: Option<String>, personal: Option<String>) -> (r:
        Option<String>)
        ensures
            api::option_view(r) == combined(
                api::option_view(project),
                api::option_view(personal),
            ),
    {
        let mut s = String::new();
        if let Some(p) = project {
            s.append(p.as_str());
            assert(s@ =~= p@);
        }
        let ghost first = s@;
        if let Some(p) = personal {
            if !s.as_str().is_empty() {
                s.append("\n\n");
            }
            s.append(p.as_str());
            proof {
                if first.len() == 0 {
                    assert(s@ =~= p@);
                }
            }
        }
        if s.as_str().is_empty() {
            None
        } else {
            Some(s)
        }
    }
}

/// The two instructions, one after the other.
pub open spec fn combined(project: Option<Seq<char>>, personal: Option<Seq<char>>) -> Option<
    Seq<char>,
> {
    let first = match project {
        Some(p) => p,
        None => Seq::empty(),
    };
    let all = match personal {
        Some(p) => if first.len() == 0 {
            p
        } else {
            first + "\n\n"@ + p
        },
        None => first,
    };
    if all.len() == 0 {
        None
    } else {
        Some(all)
    }
}

} // verus!
