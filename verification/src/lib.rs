use vstd::prelude::*;

pub mod assets;
pub mod codex;
pub mod editor;
pub mod cutscenes;
pub mod events;
pub mod index;
pub mod items;
pub mod map;
pub mod objectives;
pub mod semantics;
pub mod text;
pub mod validation;

verus! {

} // verus!
