pub mod cli;
pub mod commands;
pub mod config;
pub mod doctor;
pub mod downloader;
pub mod extractor;
pub mod initializer;
pub mod integrator;
pub mod lock;
pub mod output;
pub mod parser;
pub mod resolvers;
pub mod self_updater;
pub mod state;
pub mod text;
pub mod update;
pub mod validator;
