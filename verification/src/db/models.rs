//! Records stored for meetings.
use vstd::prelude::*;

verus! {

/// A meeting.
#[derive(Debug)]
pub struct Meeting {
    pub id: i64,
    pub title: String,
    pub start_time: String,
    pub end_time: Option<String>,
    pub status: String,
    pub summary: Option<String>,
    pub report: Option<String>,
    pub audio_path: Option<String>,
    pub auto_titled: bool,
    pub created_at: String,
    pub updated_at: String,
}

/// An action item of a meeting.
#[derive(Debug)]
pub struct ActionItem {
    pub id: i64,
    pub meeting_id: i64,
    pub task: String,
    pub owner: Option<String>,
    pub deadline: Option<String>,
    pub status: String,
    pub created_at: String,
}

/// The structured information extracted from a meeting.
#[derive(Debug)]
pub struct MeetingStructure {
    pub id: i64,
    pub meeting_id: i64,
    pub topic: Option<String>,
    pub participants: Vec<String>,
    pub key_points: Vec<String>,
    pub decisions: Vec<String>,
    pub risks: Vec<String>,
    pub created_at: String,
}

} // verus!
