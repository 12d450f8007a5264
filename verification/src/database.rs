//! The records of the relational store and how new ones are made. Reading
//! and writing them is the caller's.

use vstd::prelude::*;
use crate::fresh::{new_id, now_rfc3339};
use crate::text::{push_str_chars, string_from_chars};

verus! {

/// A model as it is stored.
#[derive(Debug, Clone, PartialEq, Eq)]
pub struct Model {
    pub id: String,
    pub user_id: String,
    pub name: String,
    pub description: String,
    pub system_prompt: Option<String>,
    pub created_at: String,
    pub updated_at: String,
}

/// A model that is yet to be stored.
#[derive(Debug, Clone, PartialEq, Eq)]
pub struct NewModel {
    pub user_id: String,
    pub name: String,
    pub description: String,
    pub system_prompt: Option<String>,
}

/// The fields of a model that an update sets; the others stay.
#[derive(Debug, Clone, PartialEq, Eq)]
pub struct ModelUpdate {
    pub name: Option<String>,
    pub description: Option<String>,
    pub system_prompt: Option<String>,
}

/// A file that a model was trained on, as it is stored.
#[derive(Debug, Clone, PartialEq, Eq)]
pub struct TrainingData {
    pub id: String,
    pub model_id: String,
    pub file_name: String,
    pub file_path: String,
    pub file_type: String,
    pub chunks_count: i32,
    pub created_at: String,
}

/// A training file that is yet to be stored.
#[derive(Debug, Clone, PartialEq, Eq)]
pub struct NewTrainingData {
    pub model_id: String,
    pub file_name: String,
    pub file_path: String,
    pub file_type: String,
    pub chunks_count: i32,
}

/// A chat session as it is stored.
#[derive(Debug, Clone, PartialEq, Eq)]
pub struct ChatSession {
    pub id: String,
    pub model_id: String,
    pub title: String,
    pub created_at: String,
    pub updated_at: String,
}

/// A chat session that is yet to be stored.
#[derive(Debug, Clone, PartialEq, Eq)]
pub struct NewChatSession {
    pub model_id: String,
    pub title: String,
}

/// A message of a chat session as it is stored. The role is `user`,
/// `assistant` or `system`.
#[derive(Debug, Clone, PartialEq, Eq)]
pub struct ChatMessage {
    pub id: String,
    pub session_id: String,
    pub role: String,
    pub content: String,
    pub created_at: String,
}

/// A message that is yet to be stored.
#[derive(Debug, Clone, PartialEq, Eq)]
pub struct NewChatMessage {
    pub session_id: String,
    pub role: String,
    pub content: String,
}

impl Model {
    /// The record for a new model under a given id, made at the given time.
    pub fn with_id(model: NewModel, id: String, now: String) -> (m: Model)
        ensures
            m.id == id,
            m.user_id == model.user_id,
            m.name == model.name,
            m.description == model.description,
            m.system_prompt == model.system_prompt,
            m.created_at@ == now@,
            m.updated_at == now,
    {
        Model {
            id,
            user_id: model.user_id,
            name: model.name,
            description: model.description,
            system_prompt: model.system_prompt,
            created_at: now.clone(),
            updated_at: now,
        }
    }

    /// The record for a new model, with a fresh id, made now.
    pub fn from_new(model: NewModel) -> (m: Model)
        ensures
            m.user_id == model.user_id,
            m.name == model.name,
            m.description == model.description,
            m.system_prompt == model.system_prompt,
            m.created_at@ == m.updated_at@,
    {
        Model::with_id(model, new_id(), now_rfc3339())
    }
}

impl TrainingData {
    /// The record for a new training file under a given id, made at the
    /// given time.
    pub fn with_id(data: NewTrainingData, id: String, now: String) -> (d: TrainingData)
        ensures
            d.id == id,
            d.model_id == data.model_id,
            d.file_name == data.file_name,
            d.file_path == data.file_path,
            d.file_type == data.file_type,
            d.chunks_count == data.chunks_count,
            d.created_at == now,
    {
        TrainingData {
            id,
            model_id: data.model_id,
            file_name: data.file_name,
            file_path: data.file_path,
            file_type: data.file_type,
            chunks_count: data.chunks_count,
            created_at: now,
        }
    }

    /// The record for a new training file, with a fresh id, made now.
    pub fn from_new(data: NewTrainingData) -> (d: TrainingData)
        ensures
            d.model_id == data.model_id,
            d.file_name == data.file_name,
            d.file_path == data.file_path,
            d.file_type == data.file_type,
            d.chunks_count == data.chunks_count,
    {
        TrainingData::with_id(data, new_id(), now_rfc3339())
    }
}

impl ChatSession {
    /// The record for a new chat session under a given id, made at the given
    /// time.
    pub fn with_id(session: NewChatSession, id: String, now: String) -> (s: ChatSession)
        ensures
            s.id == id,
            s.model_id == session.model_id,
            s.title == session.title,
            s.created_at@ == now@,
            s.updated_at == now,
    {
        ChatSession {
            id,
            model_id: session.model_id,
            title: session.title,
            created_at: now.clone(),
            updated_at: now,
        }
    }

    /// The record for a new chat session, with a fresh id, made now.
    pub fn from_new(session: NewChatSession) -> (s: ChatSession)
        ensures
            s.model_id == session.model_id,
            s.title == session.title,
            s.created_at@ == s.updated_at@,
    {
        ChatSession::with_id(session, new_id(), now_rfc3339())
    }
}

impl ChatMessage {
    /// The record for a new message under a given id, made at the given
    /// time.
    pub fn with_id(message: NewChatMessage, id: String, now: String) -> (m: ChatMessage)
        ensures
            m.id == id,
            m.session_id == message.session_id,
            m.role == message.role,
            m.content == message.content,
            m.created_at == now,
    {
        ChatMessage {
            id,
            session_id: message.session_id,
            role: message.role,
            content: message.content,
            created_at: now,
        }
    }

    /// The record for a new message, with a fresh id, made now.
    pub fn from_new(message: NewChatMessage) -> (m: ChatMessage)
        ensures
            m.session_id == message.session_id,
            m.role == message.role,
            m.content == message.content,
    {
        ChatMessage::with_id(message, new_id(), now_rfc3339())
    }
}

/// The text of the statement that updates a model: the time of the update
/// is always set, then each field that the update names, in the order
/// name, description, system prompt.
pub open spec fn update_statement(update: ModelUpdate) -> Seq<char> {
    "UPDATE models SET updated_at = ?"@ + (if update.name is Some {
        ", name = ?"@
    } else {
        Seq::empty()
    }) + (if update.description is Some {
        ", description = ?"@
    } else {
        Seq::empty()
    }) + (if update.system_prompt is Some {
        ", system_prompt = ?"@
    } else {
        Seq::empty()
    }) + " WHERE id = ?"@
}

/// The values for the placeholders of `update_statement`, in their order:
/// the time, the fields that the update names, and the id of the model.
pub open spec fn update_parameters(
    id: Seq<char>,
    update: ModelUpdate,
    now: Seq<char>,
) -> Seq<Seq<char>> {
    seq![now] + (match update.name {
        Some(name) => seq![name@],
        None => Seq::empty(),
    }) + (match update.description {
        Some(description) => seq![description@],
        None => Seq::empty(),
    }) + (match update.system_prompt {
        Some(prompt) => seq![prompt@],
        None => Seq::empty(),
    }) + seq![id]
}

/// The statement that updates model `id` at time `now`, and the values for
/// its placeholders.
pub fn model_update(id: &str, update: &ModelUpdate, now: &str) -> (r: (String, Vec<String>))
    ensures
        r.0@ == update_statement(*update),
        r.1.deep_view() == update_parameters(id@, *update, now@),
{
    let mut query: Vec<char> = Vec::new();
    let mut params: Vec<String> = Vec::new();
    push_str_chars(&mut query, "UPDATE models SET updated_at = ?");
    params.push(now.to_owned());
    if let Some(name) = &update.name {
        push_str_chars(&mut query, ", name = ?");
        params.push(name.clone());
    }
    if let Some(description) = &update.description {
        push_str_chars(&mut query, ", description = ?");
        params.push(description.clone());
    }
    if let Some(prompt) = &update.system_prompt {
        push_str_chars(&mut query, ", system_prompt = ?");
        params.push(prompt.clone());
    }
    push_str_chars(&mut query, " WHERE id = ?");
    params.push(id.to_owned());
    (string_from_chars(&query), params)
}

/// The address under which the database file at `path` is opened, to be
/// created if it is missing.
pub fn database_url(path: &str) -> (url: String)
    ensures
        url@ == "sqlite:"@ + path@ + "?mode=rwc"@,
{
    let mut out: Vec<char> = Vec::new();
    push_str_chars(&mut out, "sqlite:");
    push_str_chars(&mut out, path);
    push_str_chars(&mut out, "?mode=rwc");
    string_from_chars(&out)
}

} // verus!
