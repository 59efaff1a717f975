pub mod access;
pub mod account;
pub mod admin;
pub mod annotations;
pub mod acquisition;
pub mod acquisition_api;
pub mod assoc;
pub mod auth;
pub mod authors;
pub mod books;
pub mod calibre_writeback;
pub mod collections;
pub mod config;
pub mod crypto;
pub mod email;
pub mod error;
pub mod files;
pub mod folder;
pub mod import_export;
pub mod kindle;
pub mod kobo;
pub mod login_state;
pub mod media_token;
pub mod metadata;
pub mod model;
pub mod opds;
pub mod providers;
pub mod pagination;
pub mod rate_limit;
pub mod reading;
pub mod scan;
pub mod search_index;
pub mod security_headers;
pub mod server;
pub mod sso;
pub mod stats;
pub mod store;
pub mod text;
pub mod torznab;
pub mod two_factor;
