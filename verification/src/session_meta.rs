//! A session's `meta.json`: title, system prompt, last model used; the changes made to
//! it and the order in which sessions are listed.
//!
//! Ids are UUIDs as `u128`; times are Unix timestamps in nanoseconds, read by the caller.

use vstd::prelude::*;

use crate::app_error::StorageError;
use crate::chat_request::is_storage_validation;
use crate::settings_doc::{doc_err_is, next_revision, uuid_text, DocErr};
use crate::stored::{char_len, schema_error, SCHEMA_VERSION};
use crate::text::{chars_of, owned, push_str, string_of_range, trim, trim_str};
use crate::wire::opt_seq;

verus! {

/// Title of a session nobody has named yet.
pub const DEFAULT_SESSION_TITLE: &'static str = "新会话";

/// Longest session title, in characters.
pub const MAX_SESSION_TITLE_CHARS: usize = 120;

/// Longest system prompt, in characters.
pub const MAX_SYSTEM_PROMPT_CHARS: usize = 32_000;

/// Length of an automatic title, in characters.
pub const AUTO_TITLE_CHARS: usize = 30;

/// Where a session's title came from.
#[derive(Debug, Clone, Copy, PartialEq, Eq, Structural)]
pub enum TitleSource {
    Default,
    Auto,
    User,
}

/// A session's metadata.
#[derive(Debug)]
pub struct SessionMeta {
    pub schema_version: u32,
    pub id: u128,
    pub title: String,
    pub title_source: TitleSource,
    pub system_prompt: String,
    pub last_provider_id: Option<u128>,
    pub last_model_id: Option<String>,
    pub created_by_device_id: u128,
    pub created_at: i128,
    pub updated_at: i128,
    pub revision: u64,
    pub deleted_at: Option<i128>,
}

/// The rule a session's metadata breaks: a trimmed title of 1 to 120 characters, a system
/// prompt of at most 32000.
pub open spec fn meta_error(m: SessionMeta) -> Option<Seq<char>> {
    let t = trim(m.title@);
    if t.len() == 0 || t.len() > MAX_SESSION_TITLE_CHARS {
        Some("会话标题长度须为 1–120 个字符"@)
    } else if m.system_prompt@.len() > MAX_SYSTEM_PROMPT_CHARS {
        Some("system prompt 最长 32000 个字符"@)
    } else {
        None
    }
}

/// The automatic title for a first user message: its first 30 characters after trimming.
pub open spec fn auto_title(content: Seq<char>) -> Seq<char> {
    let t = trim(content);
    if t.len() > AUTO_TITLE_CHARS {
        t.take(AUTO_TITLE_CHARS as int)
    } else {
        t
    }
}

impl SessionMeta {
    /// A new session of `device_id`: the default title, no system prompt, revision 1.
    pub fn new(device_id: u128, id: u128, now: i128) -> (m: Self)
        ensures
            m.schema_version == SCHEMA_VERSION,
            m.id == id,
            m.title@ == DEFAULT_SESSION_TITLE@,
            m.title_source == TitleSource::Default,
            m.system_prompt@.len() == 0,
            m.last_provider_id is None,
            m.last_model_id is None,
            m.created_by_device_id == device_id,
            m.created_at == now,
            m.updated_at == now,
            m.revision == 1,
            m.deleted_at is None,
    {
        SessionMeta {
            schema_version: SCHEMA_VERSION,
            id,
            title: owned(DEFAULT_SESSION_TITLE),
            title_source: TitleSource::Default,
            system_prompt: String::new(),
            last_provider_id: None,
            last_model_id: None,
            created_by_device_id: device_id,
            created_at: now,
            updated_at: now,
            revision: 1,
            deleted_at: None,
        }
    }

    /// Record a change: the revision goes up by one (saturating) and the time is `now`.
    pub fn touch(&mut self, now: i128)
        ensures
            final(self).revision == next_revision(old(self).revision),
            final(self).updated_at == now,
            final(self).title == old(self).title,
            final(self).title_source == old(self).title_source,
            final(self).system_prompt == old(self).system_prompt,
            final(self).last_provider_id == old(self).last_provider_id,
            final(self).last_model_id == old(self).last_model_id,
            final(self).deleted_at == old(self).deleted_at,
            final(self).id == old(self).id,
            final(self).schema_version == old(self).schema_version,
            final(self).created_at == old(self).created_at,
            final(self).created_by_device_id == old(self).created_by_device_id,
    {
        self.revision = self.revision.saturating_add(1);
        self.updated_at = now;
    }

    /// Check the title and system prompt lengths.
    pub fn validate(&self) -> (r: Result<(), StorageError>)
        ensures
            crate::chat_request::storage_check_is(r, meta_error(*self)),
    {
        let title = trim_str(self.title.as_str());
        let chars = char_len(title.as_str());
        if chars == 0 || chars > MAX_SESSION_TITLE_CHARS {
            return Err(StorageError::validation(owned("会话标题长度须为 1–120 个字符")));
        }
        if char_len(self.system_prompt.as_str()) > MAX_SYSTEM_PROMPT_CHARS {
            return Err(StorageError::validation(owned("system prompt 最长 32000 个字符")));
        }
        Ok(())
    }

    /// Title the session from its first non-blank user message while it still has the
    /// default title.
    pub fn maybe_auto_title(&mut self, user_content: &str)
        ensures
            (old(self).title_source == TitleSource::Default && trim(user_content@).len() > 0) ==> {
                &&& final(self).title@ == auto_title(user_content@)
                &&& final(self).title_source == TitleSource::Auto
            },
            !(old(self).title_source == TitleSource::Default && trim(user_content@).len() > 0)
                ==> final(self).title == old(self).title && final(self).title_source == old(
                self,
            ).title_source,
            final(self).system_prompt == old(self).system_prompt,
            final(self).revision == old(self).revision,
            final(self).updated_at == old(self).updated_at,
            final(self).id == old(self).id,
            final(self).deleted_at == old(self).deleted_at,
            final(self).last_provider_id == old(self).last_provider_id,
            final(self).last_model_id == old(self).last_model_id,
    {
        if self.title_source != TitleSource::Default {
            return;
        }
        let trimmed = trim_str(user_content);
        let v = chars_of(trimmed.as_str());
        if v.len() == 0 {
            return;
        }
        let n = if v.len() > AUTO_TITLE_CHARS {
            AUTO_TITLE_CHARS
        } else {
            v.len()
        };
        let title = string_of_range(v.as_slice(), 0, n);
        proof {
            if v@.len() <= AUTO_TITLE_CHARS {
                assert(v@.subrange(0, n as int) == v@);
            }
        }
        self.title = title;
        self.title_source = TitleSource::Auto;
    }
}

/// The metadata of a new session: a given title (trimmed, when not blank) is the user's,
/// otherwise the default; then checked.
pub fn new_session(device_id: u128, id: u128, title: Option<String>, now: i128) -> (r: Result<
    SessionMeta,
    StorageError,
>)
    ensures
        ({
            let given = match title {
                Some(t) => if trim(t@).len() > 0 {
                    Some(trim(t@))
                } else {
                    None
                },
                None => None,
            };
            let t = match given {
                Some(g) => g,
                None => DEFAULT_SESSION_TITLE@,
            };
            match r {
                Ok(m) => {
                    &&& m.id == id
                    &&& m.title@ == t
                    &&& m.title_source == (if given is Some {
                        TitleSource::User
                    } else {
                        TitleSource::Default
                    })
                    &&& m.created_by_device_id == device_id
                    &&& m.created_at == now
                    &&& m.updated_at == now
                    &&& m.revision == 1
                    &&& m.deleted_at is None
                    &&& meta_error(m) is None
                },
                Err(e) => given is Some && t.len() > MAX_SESSION_TITLE_CHARS && is_storage_validation(
                    e,
                    "会话标题长度须为 1–120 个字符"@,
                ),
            }
        }),
{
    let mut meta = SessionMeta::new(device_id, id, now);
    proof {
        reveal_strlit("新会话");
        assert(trim(DEFAULT_SESSION_TITLE@) == DEFAULT_SESSION_TITLE@) by {
            assert(!crate::text::is_ws(DEFAULT_SESSION_TITLE@[0]));
            assert(!crate::text::is_ws(DEFAULT_SESSION_TITLE@.last()));
            crate::text::lemma_trim_unchanged(DEFAULT_SESSION_TITLE@);
        }
    }
    if let Some(t) = title {
        proof {
            crate::text::lemma_trim_idempotent_len(t@);
        }
        let t = trim_str(t.as_str());
        if !t.as_str().is_empty() {
            meta.title = t;
            meta.title_source = TitleSource::User;
        }
    }
    match meta.validate() {
        Ok(()) => Ok(meta),
        Err(e) => Err(e),
    }
}

/// The changes asked of a session; `None` leaves a field as it is.
pub struct SessionUpdate {
    pub title: Option<String>,
    pub system_prompt: Option<String>,
    pub last_provider_id: Option<Option<u128>>,
    pub last_model_id: Option<Option<String>>,
}

/// The title a session update sets: the trimmed text, or the default when it is blank.
pub open spec fn updated_title(t: Seq<char>) -> Seq<char> {
    if trim(t).len() == 0 {
        DEFAULT_SESSION_TITLE@
    } else {
        trim(t)
    }
}

/// The last model an update leaves.
pub open spec fn updated_model(old: Option<String>, u: Option<Option<String>>) -> Option<Seq<char>> {
    match u {
        Some(m) => opt_seq(m),
        None => opt_seq(old),
    }
}

impl SessionMeta {
    /// Apply an update to a live session and touch it; a deleted session is `NotFound`,
    /// and the result must still be valid. On an error the stored session stays as it was
    /// (the caller does not write it).
    pub fn apply_update(&mut self, update: SessionUpdate, now: i128) -> (r: Result<(), StorageError>)
        ensures
            old(self).deleted_at is Some ==> (r matches Err(e) && doc_err_is(
                e,
                (true, "会话已删除: "@ + uuid_text(old(self).id)),
            )),
            old(self).deleted_at is None ==> {
                &&& final(self).title@ == (match update.title {
                    Some(t) => updated_title(t@),
                    None => old(self).title@,
                })
                &&& final(self).title_source == (if update.title is Some {
                    TitleSource::User
                } else {
                    old(self).title_source
                })
                &&& final(self).system_prompt@ == (match update.system_prompt {
                    Some(sp) => sp@,
                    None => old(self).system_prompt@,
                })
                &&& final(self).last_provider_id == (match update.last_provider_id {
                    Some(p) => p,
                    None => old(self).last_provider_id,
                })
                &&& opt_seq(final(self).last_model_id) == updated_model(
                    old(self).last_model_id,
                    update.last_model_id,
                )
                &&& final(self).revision == next_revision(old(self).revision)
                &&& final(self).updated_at == now
                &&& final(self).id == old(self).id
                &&& final(self).deleted_at is None
                &&& crate::chat_request::storage_check_is(r, meta_error(*final(self)))
            },
    {
        if self.deleted_at.is_some() {
            let mut m = owned("会话已删除: ");
            let u = crate::settings_doc::uuid_string_of(self.id);
            push_str(&mut m, u.as_str());
            return Err(StorageError::not_found(m));
        }
        let SessionUpdate { title, system_prompt, last_provider_id, last_model_id } = update;
        if let Some(t) = title {
            let t = trim_str(t.as_str());
            self.title = if t.as_str().is_empty() {
                owned(DEFAULT_SESSION_TITLE)
            } else {
                t
            };
            self.title_source = TitleSource::User;
        }
        if let Some(sp) = system_prompt {
            self.system_prompt = sp;
        }
        if let Some(pid) = last_provider_id {
            self.last_provider_id = pid;
        }
        if let Some(mid) = last_model_id {
            self.last_model_id = mid;
        }
        self.touch(now);
        self.validate()
    }

    /// Mark the session deleted at `now` (touching it); an already deleted session stays
    /// as it is.
    pub fn soft_delete(&mut self, now: i128)
        ensures
            old(self).deleted_at is Some ==> *final(self) == *old(self),
            old(self).deleted_at is None ==> {
                &&& final(self).deleted_at == Some(now)
                &&& final(self).revision == next_revision(old(self).revision)
                &&& final(self).updated_at == now
                &&& final(self).title == old(self).title
                &&& final(self).id == old(self).id
            },
    {
        if self.deleted_at.is_some() {
            return;
        }
        self.deleted_at = Some(now);
        self.touch(now);
    }
}

/// Check metadata read from the directory of session `session_id`.
pub fn check_loaded_meta(m: &SessionMeta, session_id: u128) -> (r: Result<(), StorageError>)
    ensures
        match schema_error(m.schema_version) {
            Some(e) => r == Err::<(), StorageError>(e),
            None => if m.id != session_id {
                r matches Err(StorageError::Conflict(msg)) && msg@ == "会话 id 与目录不一致: meta="@
                    + uuid_text(m.id) + " dir="@ + uuid_text(session_id)
            } else {
                r is Ok
            },
        },
{
    match crate::stored::check_schema_version(m.schema_version) {
        Ok(()) => {},
        Err(e) => {
            return Err(e);
        },
    }
    if m.id != session_id {
        let mut msg = owned("会话 id 与目录不一致: meta=");
        push_str(&mut msg, crate::settings_doc::uuid_string_of(m.id).as_str());
        push_str(&mut msg, " dir=");
        push_str(&mut msg, crate::settings_doc::uuid_string_of(session_id).as_str());
        return Err(StorageError::Conflict(msg));
    }
    Ok(())
}

// ---------------------------------------------------------------------------
// Listing order
// ---------------------------------------------------------------------------

/// `a` is listed no later than `b`: newer first, then the greater id first.
pub open spec fn listed_before(a: SessionMeta, b: SessionMeta) -> bool {
    a.updated_at > b.updated_at || (a.updated_at == b.updated_at && a.id >= b.id)
}

/// Sessions in listing order.
pub open spec fn in_listing_order(s: Seq<SessionMeta>) -> bool {
    forall|i: int, j: int| 0 <= i < j < s.len() ==> listed_before(#[trigger] s[i], #[trigger] s[j])
}

/// Order live sessions for the list: most recently updated first, then by id,
/// descending.
pub fn sort_sessions(sessions: Vec<SessionMeta>) -> (r: Vec<SessionMeta>)
    ensures
        r@.to_multiset() == sessions@.to_multiset(),
        in_listing_order(r@),
{
    let mut rest = sessions;
    let mut out: Vec<SessionMeta> = Vec::new();
    proof {
        vstd::seq_lib::lemma_seq_union_to_multiset_commutative(out@, rest@);
        assert(out@ + rest@ =~= rest@);
    }
    while rest.len() > 0
        invariant
            (out@ + rest@).to_multiset() == sessions@.to_multiset(),
            in_listing_order(out@),
        decreases rest.len(),
    {
        let ghost prev_rest = rest@;
        let e = rest.pop().unwrap();
        let mut p: usize = 0;
        while p < out.len() && listed_before_exec(&out[p], &e)
            invariant
                0 <= p <= out@.len(),
                forall|j: int| 0 <= j < p ==> listed_before(#[trigger] out@[j], e),
            decreases out.len() - p,
        {
            p = p + 1;
        }
        proof {
            assert(p < out@.len() ==> !listed_before(out@[p as int], e));
        }
        let ghost before_out = out@;
        let ghost before_rest = rest@;
        out.insert(p, e);
        proof {
            assert(prev_rest == before_rest.push(e));
            vstd::seq_lib::to_multiset_insert(before_out, p as int, e);
            vstd::seq_lib::lemma_multiset_commutative(out@, rest@);
            vstd::seq_lib::lemma_multiset_commutative(before_out, prev_rest);
            vstd::seq_lib::to_multiset_build(before_rest, e);
            assert((out@ + rest@).to_multiset() =~= (before_out + prev_rest).to_multiset());
            assert forall|i: int, j: int| 0 <= i < j < out@.len() implies listed_before(
                #[trigger] out@[i],
                #[trigger] out@[j],
            ) by {
                if j < p {
                    assert(out@[i] == before_out[i] && out@[j] == before_out[j]);
                } else if j == p {
                    assert(out@[i] == before_out[i]);
                } else if i < p {
                    assert(out@[i] == before_out[i] && out@[j] == before_out[j - 1]);
                } else if i == p {
                    assert(out@[j] == before_out[j - 1]);
                    assert(!listed_before(before_out[p as int], e));
                    assert(listed_before(before_out[p as int], before_out[j - 1]) || j - 1 == p);
                } else {
                    assert(out@[i] == before_out[i - 1] && out@[j] == before_out[j - 1]);
                }
            }
        }
    }
    proof {
        assert(out@ + rest@ =~= out@);
    }
    out
}

/// `listed_before` on two sessions.
fn listed_before_exec(a: &SessionMeta, b: &SessionMeta) -> (r: bool)
    ensures
        r == listed_before(*a, *b),
{
    a.updated_at > b.updated_at || (a.updated_at == b.updated_at && a.id >= b.id)
}

} // verus!
