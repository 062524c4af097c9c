//! What the program around the library is asked to do.
use vstd::prelude::*;

use crate::tunnel::{RunView, TunnelId, TunnelRun};

verus! {

/// One thing to do outside.
#[derive(Debug)]
pub enum Effect {
    /// Begin this tunnel.
    Start(TunnelRun),
    /// Tell this tunnel to end.
    Stop(TunnelId),
    /// Open this address in the browser.
    Open(String),
    /// Save the configuration.
    Save,
    /// Read the configuration again.
    Reload,
}

pub enum EffectView {
    Start(RunView),
    Stop(Seq<char>),
    Open(Seq<char>),
    Save,
    Reload,
}

impl View for Effect {
    type V = EffectView;

    open spec fn view(&self) -> EffectView {
        match self {
            Effect::Start(run) => EffectView::Start(run@),
            Effect::Stop(id) => EffectView::Stop(id@),
            Effect::Open(url) => EffectView::Open(url@),
            Effect::Save => EffectView::Save,
            Effect::Reload => EffectView::Reload,
        }
    }
}

} // verus!
