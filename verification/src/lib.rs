//! Core data model of the madder video editor: effects, JSON patch
//! pointers, repositories of components and effects, the project layout
//! and the request router of the API server.

pub mod effect;
pub mod text;
pub mod time;
pub mod json;
pub mod parse;
pub mod json_patch;
pub mod repository;
pub mod vec_repository;
pub mod api_server;
pub mod component;
pub mod project;
pub mod madder;
pub mod serde_impl;
pub mod serializer;
pub mod ql;
pub mod property;
pub mod service;
pub mod json_api;
pub mod editor;
pub mod render;
