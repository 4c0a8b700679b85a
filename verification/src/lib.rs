pub mod seqs;
pub mod text;
pub mod weixin_types;
pub mod weixin_snapshot;
pub mod weixin_validate;
pub mod weixin_trace;
pub mod weixin_prune;
pub mod weixin_binding;
pub mod weixin_store;
pub mod weixin_queue;
pub mod weixin_commit;
pub mod weixin_delivery;
pub mod speech_text;
pub mod speech;
pub mod speech_laws;
pub mod voice_live;
pub mod frame;
pub mod presentation;
pub mod host;
pub mod fingerprint;
pub mod timeline_order;
pub mod timeline_store;
pub mod text_layout;
pub mod input_map;
pub mod bottom_pane;
pub mod json_value;
pub mod weixin_migrate;
pub mod storage;
pub mod tools;
pub mod voice_config;
pub mod weixin_laws;
pub mod presentation_state;
pub mod voice_client;
pub mod voice_capture;
pub mod companion;
pub mod conversation_state;
pub mod session_graph;
pub mod memory_vector;
pub mod debug_buffer;
