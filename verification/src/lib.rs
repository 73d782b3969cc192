use vstd::prelude::*;

pub mod text;
pub mod json;
pub mod error;
pub mod list_paging;
pub mod select;
pub mod fs;
pub mod fs_paging;
pub mod urlenc;
pub mod numfmt;
pub mod command_center;
pub mod command_center_sections;
pub mod readiness;
pub mod agents;
pub mod enrollment;
pub mod agents_admin;
pub mod fleet;
pub mod sorted_text;
pub mod labels;
pub mod byte_cut;
pub mod agent_ws;
pub mod failure_fields;
pub mod bulk_operations;
pub mod docs;
pub mod integrations;
pub mod jobs_crud;
pub mod incomplete_cleanup;
pub mod retention;
pub mod stage_events;
pub mod agents_ingest;
pub mod operations;
pub mod int_parse;
pub mod notification_settings;
pub mod dashboard;
pub mod ws_origin;
pub mod sql_filters;
pub mod archive_cascade;
pub mod notifications_queue;
pub mod artifact_stream_authz;
pub mod notification_destinations;
pub mod artifact_reader;
pub mod access;
pub mod run_stream;
pub mod run_digests;
pub mod artifact_location;
pub mod webdav_url;

verus! {
} // verus!
