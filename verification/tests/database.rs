use mydistinctai::database::{
    database_url, model_update, ChatMessage, ChatSession, Model, ModelUpdate, NewChatMessage,
    NewChatSession, NewModel, NewTrainingData, TrainingData,
};

fn new_model() -> NewModel {
    NewModel {
        user_id: "u1".to_string(),
        name: "Model".to_string(),
        description: "about".to_string(),
        system_prompt: Some("be kind".to_string()),
    }
}

#[test]
fn a_new_model_becomes_a_record() {
    assert_eq!(
        Model::with_id(new_model(), "id-1".to_string(), "now".to_string()),
        Model {
            id: "id-1".to_string(),
            user_id: "u1".to_string(),
            name: "Model".to_string(),
            description: "about".to_string(),
            system_prompt: Some("be kind".to_string()),
            created_at: "now".to_string(),
            updated_at: "now".to_string(),
        }
    );
    let a = Model::from_new(new_model());
    let b = Model::from_new(new_model());
    assert_eq!(a.name, "Model");
    assert_eq!(a.created_at, a.updated_at);
    assert_eq!(a.id.len(), 36);
    assert_ne!(a.id, b.id);
    assert!(a.created_at.contains('T'));
}

#[test]
fn a_new_training_file_becomes_a_record() {
    let data = NewTrainingData {
        model_id: "m".to_string(),
        file_name: "f.pdf".to_string(),
        file_path: "/tmp/f.pdf".to_string(),
        file_type: "Pdf".to_string(),
        chunks_count: 12,
    };
    assert_eq!(
        TrainingData::with_id(data.clone(), "id".to_string(), "now".to_string()),
        TrainingData {
            id: "id".to_string(),
            model_id: "m".to_string(),
            file_name: "f.pdf".to_string(),
            file_path: "/tmp/f.pdf".to_string(),
            file_type: "Pdf".to_string(),
            chunks_count: 12,
            created_at: "now".to_string(),
        }
    );
    let d = TrainingData::from_new(data);
    assert_eq!(d.chunks_count, 12);
    assert_eq!(d.id.len(), 36);
}

#[test]
fn a_new_session_and_a_new_message_become_records() {
    let s = ChatSession::with_id(
        NewChatSession { model_id: "m".to_string(), title: "Talk".to_string() },
        "s1".to_string(),
        "now".to_string(),
    );
    assert_eq!(
        s,
        ChatSession {
            id: "s1".to_string(),
            model_id: "m".to_string(),
            title: "Talk".to_string(),
            created_at: "now".to_string(),
            updated_at: "now".to_string(),
        }
    );
    let m = ChatMessage::with_id(
        NewChatMessage { session_id: "s1".to_string(), role: "user".to_string(), content: "hi".to_string() },
        "m1".to_string(),
        "later".to_string(),
    );
    assert_eq!(
        m,
        ChatMessage {
            id: "m1".to_string(),
            session_id: "s1".to_string(),
            role: "user".to_string(),
            content: "hi".to_string(),
            created_at: "later".to_string(),
        }
    );
    let s = ChatSession::from_new(NewChatSession { model_id: "m".to_string(), title: "Talk".to_string() });
    assert_eq!(s.created_at, s.updated_at);
    let m = ChatMessage::from_new(NewChatMessage {
        session_id: s.id.clone(),
        role: "assistant".to_string(),
        content: "hello".to_string(),
    });
    assert_eq!(m.session_id, s.id);
    assert_ne!(m.id, s.id);
}

#[test]
fn an_update_sets_the_time_and_what_it_names() {
    let none = ModelUpdate { name: None, description: None, system_prompt: None };
    assert_eq!(
        model_update("id-1", &none, "now"),
        (
            "UPDATE models SET updated_at = ? WHERE id = ?".to_string(),
            vec!["now".to_string(), "id-1".to_string()]
        )
    );
    let all = ModelUpdate {
        name: Some("n".to_string()),
        description: Some("d".to_string()),
        system_prompt: Some("p".to_string()),
    };
    assert_eq!(
        model_update("id-1", &all, "now"),
        (
            "UPDATE models SET updated_at = ?, name = ?, description = ?, system_prompt = ? WHERE id = ?"
                .to_string(),
            vec!["now".to_string(), "n".to_string(), "d".to_string(), "p".to_string(), "id-1".to_string()]
        )
    );
    let some = ModelUpdate { name: None, description: Some("d".to_string()), system_prompt: None };
    assert_eq!(
        model_update("x", &some, "t"),
        (
            "UPDATE models SET updated_at = ?, description = ? WHERE id = ?".to_string(),
            vec!["t".to_string(), "d".to_string(), "x".to_string()]
        )
    );
}

#[test]
fn the_database_is_opened_for_reading_writing_and_creation() {
    assert_eq!(database_url("/data/app.db"), "sqlite:/data/app.db?mode=rwc");
}
