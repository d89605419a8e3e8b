//! Screen-observation controller for a timing minigame: color and geometry
//! primitives, the hook tracker, the move policy and the macro's state machine.
use vstd::prelude::*;

pub mod checks;
pub mod clickers;
pub mod color;
pub mod control;
pub mod frame;
pub mod geometry;
pub mod hook;
pub mod journal;
pub mod minigame;
pub mod scanline;
pub mod screen;
pub mod session;
pub mod stats;

verus! {

/// The operating systems the game client runs on.
#[derive(Clone, Copy, Debug, PartialEq, Eq, Structural)]
pub enum Platform {
    Linux,
    Windows,
}

/// Name of the game client's process on `platform`.
pub fn get_roblox_executable_name(platform: Platform) -> (r: &'static str)
    ensures
        platform == Platform::Linux ==> r@ == "sober"@,
        platform == Platform::Windows ==> r@ == "RobloxPlayerBeta.exe"@,
{
    match platform {
        Platform::Linux => "sober",
        Platform::Windows => "RobloxPlayerBeta.exe",
    }
}

} // verus!
