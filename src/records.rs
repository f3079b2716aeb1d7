//! The records the application stores: manuscripts, scenes and module status,
//! and the requests that change them.

use vstd::prelude::*;

verus! {

#[derive(Debug, Clone)]
pub struct Manuscript {
    pub id: String,
    pub title: String,
    pub author: Option<String>,
    pub genre: Option<String>,
    pub target_audience: Option<String>,
    pub comp_titles: Option<String>,
    pub created_at: i64,
    pub updated_at: i64,
    pub total_word_count: u32,
    pub opening_strength_score: Option<u32>,
    pub hook_effectiveness: Option<u32>,
}

#[derive(Debug, Clone)]
pub struct Scene {
    pub id: String,
    pub manuscript_id: String,
    pub chapter_number: Option<i32>,
    pub scene_number_in_chapter: Option<i32>,
    pub index_in_manuscript: u32,
    pub title: Option<String>,
    pub raw_text: String,
    pub word_count: u32,
    pub is_opening: bool,
    pub is_chapter_end: bool,
    pub opens_with_hook: bool,
    pub ends_with_hook: bool,
    pub pov_character: Option<String>,
    pub location: Option<String>,
    pub time_marker: Option<String>,
    pub created_at: i64,
    pub updated_at: i64,
}

/// Versions and dirty flags of the analysis modules of one scene.
#[derive(Debug, Clone)]
pub struct ModuleStatus {
    pub scene_id: String,
    pub events_v: Option<String>,
    pub events_dirty: i32,
    pub plants_v: Option<String>,
    pub plants_dirty: i32,
    pub state_v: Option<String>,
    pub state_dirty: i32,
    pub beats_v: Option<String>,
    pub beats_dirty: i32,
    pub last_processed: String,
}

#[derive(Debug, Clone)]
pub struct UpdateModuleStatusRequest {
    pub scene_id: String,
    pub module: String,
    pub version: String,
    pub dirty: bool,
}

#[derive(Debug, Clone)]
pub struct SearchRequest {
    pub query: String,
    pub manuscript_id: Option<String>,
    pub case_sensitive: bool,
    pub whole_words: bool,
    pub regex: bool,
}

#[derive(Debug, Clone)]
pub struct SearchMatch {
    pub start_offset: u32,
    pub end_offset: u32,
    pub context_before: String,
    pub matched_text: String,
    pub context_after: String,
    pub line_number: u32,
}

#[derive(Debug, Clone)]
pub struct SearchResult {
    pub scene_id: String,
    pub scene_title: Option<String>,
    pub manuscript_id: String,
    pub manuscript_title: String,
    pub matches: Vec<SearchMatch>,
    pub total_matches: u32,
}

#[derive(Debug, Clone)]
pub struct BatchSceneRequest {
    pub scenes: Vec<Scene>,
}

#[derive(Debug, Clone)]
pub struct ReorderRequest {
    pub manuscript_id: String,
    pub scene_id: String,
    pub new_index: u32,
}

#[derive(Debug, Clone)]
pub struct RenameRequest {
    pub scene_id: String,
    pub new_title: String,
}

} // verus!
