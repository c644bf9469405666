use signal_rag::embed::EmbedError;
use signal_rag::embed::ResponseBody;
use signal_rag::embed::embed_prompt;
use signal_rag::embed::embed_request_json;
use signal_rag::embed::embedding_model_name;
use signal_rag::embed::interpret_response;
use signal_rag::embed::no_response;
use signal_rag::embed::retry_backoff_ms;
use signal_rag::ingest::Ingestion;
use signal_rag::ingest::SignalMessageWithEmbedding;
use signal_rag::message::Direction;
use signal_rag::message::MessageKind;
use signal_rag::message::ProcessedMessage;
use signal_rag::prompt_template::llama3;
use signal_rag::store::EMBEDDING_DIM;
use signal_rag::store::VectorStore;
use signal_rag::store::WriteError;
use signal_rag::store::get_all_embeddings_from_db;
use signal_rag::store::insert_embeddings_into_db;
use signal_rag::tokens::num_tokens_from_str;

fn content_msg(body: &str) -> ProcessedMessage {
    ProcessedMessage {
        kind: MessageKind::UserText,
        direction: Some(Direction::From),
        contact: Some("alice".to_string()),
        sender: Some("bob".to_string()),
        group: None,
        body: Some(body.to_string()),
        attachments: Some(vec!["photo.jpg".to_string()]),
    }
}

fn vector_of(dim: usize) -> Vec<u32> {
    (0..dim).map(|i| ((i % 13) as f32 * 0.25).to_bits()).collect()
}

fn record(id: u64, idx: usize, dim: usize) -> SignalMessageWithEmbedding {
    SignalMessageWithEmbedding {
        message_id: id,
        chunk_index: idx,
        body: "hello".to_string(),
        direction: "from".to_string(),
        receiver: Some("alice".to_string()),
        sender: None,
        group_name: None,
        attachments: None,
        tokens: 1,
        embedding: vector_of(dim),
    }
}

#[test]
fn under_budget_message_yields_one_record() {
    let body = "one two three four five six seven eight nine ten";
    let msg = content_msg(body);
    let mut ing = Ingestion::start(&msg, 7).expect("content must start a pass");
    let req = ing.next_request().expect("one chunk to embed");
    assert_eq!(req.chunk_index, 0);
    assert_eq!(req.attempts_made, 0);
    assert_eq!(req.prompt, body);
    ing.on_outcome(interpret_response(200, ResponseBody::Vector(vector_of(EMBEDDING_DIM))));
    assert!(ing.is_done());
    let (records, skipped) = ing.finish();
    assert_eq!(records.len(), 1);
    assert_eq!(skipped.len(), 0);
    let rec = &records[0];
    assert_eq!(rec.message_id, 7);
    assert_eq!(rec.chunk_index, 0);
    assert_eq!(rec.body, body);
    assert_eq!(rec.tokens, num_tokens_from_str(body));
    assert_eq!(rec.embedding.len(), 768);
    assert_eq!(rec.direction, "from");
    assert_eq!(rec.receiver.as_deref(), Some("alice"));
    assert_eq!(rec.sender.as_deref(), Some("bob"));
    assert_eq!(rec.group_name, None);
    assert_eq!(rec.attachments, Some(vec!["photo.jpg".to_string()]));

    let mut db = VectorStore::new();
    let report = insert_embeddings_into_db(&mut db, records);
    assert_eq!(report.inserted, 1);
    assert_eq!(report.failures.len(), 0);
    assert_eq!(get_all_embeddings_from_db(&db).len(), 1);
}

#[test]
fn long_message_yields_three_records_in_order() {
    let mut words = Vec::new();
    for i in 0..1000 {
        words.push(format!("word{}", i));
    }
    let body = words.join(" ");
    let msg = content_msg(&body);
    let mut ing = Ingestion::start(&msg, 42).expect("content must start a pass");
    let mut calls = 0;
    while let Some(req) = ing.next_request() {
        assert_eq!(req.chunk_index, calls);
        calls += 1;
        ing.on_outcome(Ok(vector_of(EMBEDDING_DIM)));
    }
    assert_eq!(calls, 3);
    let (records, skipped) = ing.finish();
    assert_eq!(records.len(), 3);
    assert_eq!(skipped.len(), 0);
    for (j, rec) in records.iter().enumerate() {
        assert_eq!(rec.chunk_index, j);
        assert_eq!(rec.tokens, num_tokens_from_str(&rec.body));
        assert_eq!(rec.message_id, 42);
    }
    assert_eq!(records[0].body.split_whitespace().count(), 384);
    assert_eq!(records[1].body.split_whitespace().count(), 384);
    assert_eq!(records[2].body.split_whitespace().count(), 232);

    let mut db = VectorStore::new();
    let report = insert_embeddings_into_db(&mut db, records);
    assert_eq!(report.inserted, 3);
    assert_eq!(report.failures.len(), 0);
    let rows = get_all_embeddings_from_db(&db);
    assert_eq!(rows.len(), 3);
    assert_eq!(rows[0].chunk_index, 0);
    assert_eq!(rows[1].chunk_index, 1);
    assert_eq!(rows[2].chunk_index, 2);
}

#[test]
fn absent_direction_is_recorded_as_empty() {
    let mut msg = content_msg("a body");
    msg.direction = None;
    let mut ing = Ingestion::start(&msg, 3).expect("content must start a pass");
    while let Some(_req) = ing.next_request() {
        ing.on_outcome(Ok(vector_of(EMBEDDING_DIM)));
    }
    let (records, _) = ing.finish();
    assert_eq!(records.len(), 1);
    assert_eq!(records[0].direction, "");
}

#[test]
fn typing_indicator_produces_nothing() {
    let msg = ProcessedMessage {
        kind: MessageKind::TypingIndicator,
        direction: Some(Direction::From),
        contact: Some("alice".to_string()),
        sender: None,
        group: None,
        body: Some("is typing...".to_string()),
        attachments: None,
    };
    // No pass starts, so no embedding call is ever requested.
    assert!(Ingestion::start(&msg, 1).is_none());
}

#[test]
fn transient_failure_is_retried_once_then_succeeds() {
    let msg = content_msg("a short message");
    let mut ing = Ingestion::start(&msg, 9).expect("content must start a pass");

    let req1 = ing.next_request().expect("first attempt");
    assert_eq!(req1.attempts_made, 0);
    ing.on_outcome(interpret_response(500, ResponseBody::NotJson));
    assert!(!ing.is_done());

    let req2 = ing.next_request().expect("one retry after the transient fault");
    assert_eq!(req2.chunk_index, 0);
    assert_eq!(req2.attempts_made, 1);
    assert!(retry_backoff_ms(req2.attempts_made) > 0);
    ing.on_outcome(interpret_response(200, ResponseBody::Vector(vector_of(EMBEDDING_DIM))));

    assert!(ing.is_done());
    let (records, skipped) = ing.finish();
    assert_eq!(records.len(), 1);
    assert_eq!(skipped.len(), 0);
}

#[test]
fn exhausted_retries_skip_the_chunk() {
    let msg = content_msg("a short message");
    let mut ing = Ingestion::start(&msg, 9).expect("content must start a pass");
    let mut calls = 0;
    while let Some(_req) = ing.next_request() {
        calls += 1;
        ing.on_outcome(no_response());
    }
    assert_eq!(calls, 3);
    let (records, skipped) = ing.finish();
    assert_eq!(records.len(), 0);
    assert_eq!(skipped.len(), 1);
    assert_eq!(skipped[0].chunk_index, 0);
    assert!(matches!(skipped[0].reason, EmbedError::Transient));
}

#[test]
fn missing_embedding_field_skips_and_the_pipeline_goes_on() {
    let first = content_msg("first message");
    let mut ing = Ingestion::start(&first, 1).expect("content must start a pass");
    let mut calls = 0;
    while let Some(_req) = ing.next_request() {
        calls += 1;
        ing.on_outcome(interpret_response(200, ResponseBody::MissingEmbedding));
    }
    // A protocol fault is not retried.
    assert_eq!(calls, 1);
    let (records, skipped) = ing.finish();
    assert_eq!(records.len(), 0);
    assert_eq!(skipped.len(), 1);
    assert!(matches!(skipped[0].reason, EmbedError::Protocol));

    let mut db = VectorStore::new();
    let report = insert_embeddings_into_db(&mut db, records);
    assert_eq!(report.inserted, 0);

    // The next message is unaffected.
    let second = content_msg("second message");
    let mut ing2 = Ingestion::start(&second, 2).expect("content must start a pass");
    while let Some(_req) = ing2.next_request() {
        ing2.on_outcome(Ok(vector_of(EMBEDDING_DIM)));
    }
    let (records2, _) = ing2.finish();
    let report2 = insert_embeddings_into_db(&mut db, records2);
    assert_eq!(report2.inserted, 1);
    assert_eq!(get_all_embeddings_from_db(&db).len(), 1);
}

#[test]
fn non_numeric_element_is_a_protocol_fault() {
    let r = interpret_response(200, ResponseBody::NotNumeric);
    assert!(matches!(r, Err(EmbedError::Protocol)));
}

#[test]
fn non_2xx_status_is_transient_whatever_the_body() {
    let r = interpret_response(503, ResponseBody::Vector(vector_of(EMBEDDING_DIM)));
    assert!(matches!(r, Err(EmbedError::Transient)));
}

#[test]
fn duplicate_key_is_stored_once() {
    let mut db = VectorStore::new();
    let report = insert_embeddings_into_db(&mut db, vec![record(5, 0, EMBEDDING_DIM)]);
    assert_eq!(report.inserted, 1);

    // The same (message identity, chunk index) arrives again.
    let report2 = insert_embeddings_into_db(&mut db, vec![record(5, 0, EMBEDDING_DIM)]);
    assert_eq!(report2.inserted, 0);
    assert_eq!(report2.failures.len(), 1);
    assert_eq!(report2.failures[0].record_position, 0);
    assert!(matches!(report2.failures[0].reason, WriteError::DuplicateKey));
    assert_eq!(get_all_embeddings_from_db(&db).len(), 1);
}

#[test]
fn duplicate_inside_one_batch_is_stored_once() {
    let mut db = VectorStore::new();
    let batch = vec![
        record(5, 0, EMBEDDING_DIM),
        record(5, 1, EMBEDDING_DIM),
        record(5, 0, EMBEDDING_DIM),
    ];
    let report = insert_embeddings_into_db(&mut db, batch);
    assert_eq!(report.inserted, 2);
    assert_eq!(report.failures.len(), 1);
    assert_eq!(report.failures[0].record_position, 2);
    assert!(matches!(report.failures[0].reason, WriteError::DuplicateKey));
}

#[test]
fn wrong_dimension_is_refused_without_stopping_the_batch() {
    let mut db = VectorStore::new();
    let batch = vec![record(1, 0, 5), record(1, 1, EMBEDDING_DIM)];
    let report = insert_embeddings_into_db(&mut db, batch);
    assert_eq!(report.inserted, 1);
    assert_eq!(report.failures.len(), 1);
    assert_eq!(report.failures[0].record_position, 0);
    assert!(matches!(report.failures[0].reason, WriteError::DimensionMismatch));
    let rows = get_all_embeddings_from_db(&db);
    assert_eq!(rows.len(), 1);
    assert_eq!(rows[0].chunk_index, 1);
}

#[test]
fn prompt_replaces_newlines_with_spaces() {
    assert_eq!(embed_prompt("line one\nline two\n"), "line one line two ");
    assert_eq!(embed_prompt("untouched"), "untouched");
}

#[test]
fn model_name_is_fixed() {
    assert_eq!(embedding_model_name(), "nomic-embed-text");
}

#[test]
fn request_payload_is_exact() {
    let payload = embed_request_json("hello world");
    assert_eq!(
        payload,
        "{\"model\":\"nomic-embed-text\",\"prompt\":\"hello world\"}"
    );
}

#[test]
fn request_payload_escapes_the_prompt() {
    let payload = embed_request_json("say \"hi\" \\ twice\tnow\u{1}");
    assert_eq!(
        payload,
        "{\"model\":\"nomic-embed-text\",\"prompt\":\"say \\\"hi\\\" \\\\ twice\\tnow\\u0001\"}"
    );
}

#[test]
fn request_payload_round_trips_through_a_json_parser() {
    let prompt = "a \"quoted\" piece\twith a \\ backslash and \u{2} control";
    let payload = embed_request_json(prompt);
    let value: serde_json::Value = serde_json::from_str(&payload).expect("payload must be JSON");
    assert_eq!(value.get("model").and_then(|m| m.as_str()), Some("nomic-embed-text"));
    assert_eq!(value.get("prompt").and_then(|p| p.as_str()), Some(prompt));
}

#[test]
fn backoff_grows_with_failures() {
    assert_eq!(retry_backoff_ms(0), 0);
    assert_eq!(retry_backoff_ms(1), 500);
    assert_eq!(retry_backoff_ms(2), 1000);
}

#[test]
fn llama3_wraps_the_user_message() {
    let p = llama3("What is for lunch?");
    let expected = "\n<|begin_of_text|>\n<|start_header_id|>system<|end_header_id|>\nYou are a friendly and useful Chatbot. Be of assistance the best you can.\n<|eot_id|>\n\n<|start_header_id|>user<|end_header_id|>\nWhat is for lunch?<|eot_id|>\n\n<|start_header_id|>assistant<|end_header_id|>";
    assert_eq!(p, expected);
}
