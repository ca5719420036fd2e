//! The logic of a block-game client's interface and renderer.

pub mod block_overlay;
pub mod blur;
pub mod book_model;
pub mod border_laws;
pub mod chunk_borders;
pub mod cloud_laws;
pub mod clouds;
pub mod components;
pub mod death;
pub mod decode;
pub mod entities;
pub mod entity_laws;
pub mod font;
pub mod font_laws;
pub mod friend_laws;
pub mod friends;
pub mod hud;
pub mod hud_laws;
pub mod inventory;
pub mod item_atlas;
pub mod java_random;
pub mod menu;
pub mod mobs;
pub mod model_laws;
pub mod overlay;
pub mod overlay_laws;
pub mod pause;
pub mod pipelines;
pub mod pixels;
pub mod ring;
pub mod seqs;
pub mod server_list;
pub mod server_list_laws;
pub mod shelf;
pub mod skin_model;
pub mod sprites;
pub mod strings;
pub mod swapchain;
pub mod text;
pub mod text_laws;
pub mod version;
pub mod widgets;
