use vstd::prelude::*;
use crate::text::{decimal, push_decimal};

verus! {

/// GET: the signed-in player's chat profile, as JSON text.
pub const SUMMONER_INFO_PATH: &'static str = "/lol-chat/v1/me";

/// GET: the name of the current gameflow phase, such as `"ChampSelect"`.
pub const GAMEFLOW_PHASE_PATH: &'static str = "/lol-gameflow/v1/gameflow-phase";

/// POST, with no body: accepts the pending ready check.
pub const ACCEPT_READY_CHECK_PATH: &'static str = "/lol-matchmaking/v1/ready-check/accept";

/// GET: the champion select session as a JSON document.
pub const CHAMP_SELECT_SESSION_PATH: &'static str = "/lol-champ-select/v1/session";

pub open spec fn champ_select_action_path_text(action_id: u32) -> Seq<char> {
    "/lol-champ-select/v1/session/actions/"@ + decimal(action_id as nat)
}

/// PATCH: the path of the champion select action `action_id`.
pub fn champ_select_action_path(action_id: u32) -> (r: String)
    ensures
        r@ == champ_select_action_path_text(action_id),
{
    let mut path = String::from_str("/lol-champ-select/v1/session/actions/");
    push_decimal(&mut path, action_id as u64);
    path
}

/// The body of a champion select pick or ban.
#[derive(Debug)]
pub struct ChampSelectAction {
    pub actor_cell_id: u32,
    pub champion_id: u32,
    /// `"pick"` or `"ban"`.
    pub action_type: String,
    pub is_in_progress: bool,
    pub completed: bool,
}

impl ChampSelectAction {
    /// The submission of action `action_id` with `champion_id`: the action is
    /// sent as completed, never as still in progress.
    pub fn completed(action_id: u32, champion_id: u32, action_type: String) -> (r: ChampSelectAction)
        ensures
            r.actor_cell_id == action_id,
            r.champion_id == champion_id,
            r.action_type@ == action_type@,
            !r.is_in_progress,
            r.completed,
    {
        ChampSelectAction {
            actor_cell_id: action_id,
            champion_id,
            action_type,
            is_in_progress: false,
            completed: true,
        }
    }
}

} // verus!
