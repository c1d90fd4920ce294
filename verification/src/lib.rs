pub mod categories;
pub mod entities;
pub mod password;
pub mod text;
pub mod errors;
pub mod articles;
pub mod paging;
pub mod crypto;
pub mod auth;
pub mod api;
pub mod admin_users;
pub mod access_codes;
pub mod contact;
pub mod email;
pub mod engagement;
pub mod albums;
pub mod docx;
pub mod self_service;
pub mod site;
pub mod database;
pub mod moderation;
pub mod access_logs;
