//! Mesh indexing and model caching for a small game: face corners are turned
//! into deduplicated vertex buffers with an index sequence, and the results
//! are cached per model identifier. Beside them stand the game's per-frame
//! actions and the routing of its audio requests.

pub mod audio_player;
pub mod game_state;
pub mod indexed_model;
pub mod model_factory;
pub mod obj_source;
