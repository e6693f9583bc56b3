//! IVRDemo(): the skeleton of an interactive voice menu. This module holds
//! the menu's shape.
use crate::DialplanApp;
use vstd::prelude::*;

verus! {

/// One key of a menu.
#[derive(Debug, Clone)]
pub struct IvrOption {
    pub digit: char,
    pub description: String,
    pub action: IvrAction,
}

/// What a key does.
#[derive(Debug, Clone)]
pub enum IvrAction {
    Playback(String),
    SubMenu(String),
    Exit,
}

/// A menu: its prompt and its keys.
#[derive(Debug, Clone)]
pub struct IvrMenu {
    pub name: String,
    pub prompt: String,
    pub options: Vec<IvrOption>,
}

/// The `IVRDemo()` dialplan application.
#[derive(Debug)]
pub struct AppIvrDemo;

impl DialplanApp for AppIvrDemo {
    fn name(&self) -> (r: &str)
        ensures
            r@ == "IVRDemo"@,
    {
        "IVRDemo"
    }

    fn description(&self) -> (r: &str)
        ensures
            r@ == "IVR Demo application skeleton"@,
    {
        "IVR Demo application skeleton"
    }
}

} // verus!
