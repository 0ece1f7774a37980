pub mod access;
pub mod accounts;
pub mod grades;
pub mod hash;
pub mod reset;
pub mod store;
