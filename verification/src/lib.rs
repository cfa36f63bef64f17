//! A small game engine: input tracking, host calls, asset bookkeeping,
//! networked event delivery and mesh topology, with their contracts.
pub mod protocol;
pub mod input;
pub mod sfx;
pub mod event;
pub mod laminar;
pub mod controller;
pub mod mesh;
pub mod game;
pub mod assets;
pub mod asset;
pub mod desktop;
pub mod shader;
pub mod graphics;
pub mod executor;
pub mod host;
pub mod server;
pub mod ping;
