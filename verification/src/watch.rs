//! What the live server does when the wiki's files change.
use vstd::prelude::*;

verus! {

/// A step the server takes after a change in the watched files.
#[derive(Clone, Copy, Debug, PartialEq, Eq, Structural)]
pub enum WatchAction {
    /// Compile the wiki again and serve the new pages.
    Compile,
    /// Write the index file for the language server.
    WriteIndex,
    /// Tell the open browser pages to reload.
    Reload,
    /// Watch every file the compilation read.
    WatchDependencies,
    /// Forget the file contents read so far, so the next compilation reads
    /// them afresh.
    ResetFiles,
    /// Drop the change events that queued up meanwhile: one compilation
    /// answers them all.
    DropQueued,
}

/// The steps taken for one change, in order; the index file is written only
/// where one was asked for.
pub open spec fn event_actions(index_configured: bool) -> Seq<WatchAction> {
    if index_configured {
        seq![
            WatchAction::Compile,
            WatchAction::WriteIndex,
            WatchAction::Reload,
            WatchAction::WatchDependencies,
            WatchAction::ResetFiles,
            WatchAction::DropQueued,
        ]
    } else {
        seq![
            WatchAction::Compile,
            WatchAction::Reload,
            WatchAction::WatchDependencies,
            WatchAction::ResetFiles,
            WatchAction::DropQueued,
        ]
    }
}

/// The steps to take for one change in the watched files.
pub fn actions_for_event(index_configured: bool) -> (r: Vec<WatchAction>)
    ensures
        r@ == event_actions(index_configured),
{
    let mut r: Vec<WatchAction> = Vec::new();
    r.push(WatchAction::Compile);
    if index_configured {
        r.push(WatchAction::WriteIndex);
    }
    r.push(WatchAction::Reload);
    r.push(WatchAction::WatchDependencies);
    r.push(WatchAction::ResetFiles);
    r.push(WatchAction::DropQueued);
    proof {
        assert(r@ =~= event_actions(index_configured));
    }
    r
}

} // verus!
