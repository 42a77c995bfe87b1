//! A ready-made rule model for exercising the engine.

use vstd::prelude::*;

use crate::model::{is_game_of_life_model, Model};

verus! {

/// The classic Game of Life rule set; see [`Model::game_of_life`].
pub fn game_of_life_rules() -> (r: Model)
    ensures
        is_game_of_life_model(r),
{
    Model::game_of_life()
}

} // verus!
