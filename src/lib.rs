//! A single-origin web crawler: it walks the pages of one site from a seed
//! address, keeps the links that stay on the site, and turns each visited page
//! into a job record for a work queue.
//!
//! The crawl's decisions are made here and proved; fetching pages, reading
//! the robots policy and talking to the queue are left to the caller.

pub mod address;
pub mod media;
pub mod page;
pub mod spider;
pub mod args;

pub use crate::address::{UrlError, WebUrl};
pub use crate::args::{fetch_limit, fetch_mime_types};
pub use crate::media::MediaType;
pub use crate::page::{Attribute, Job, JobOptions, Page, PageObject, Tag};
pub use crate::spider::{RobotsPolicy, RobotsRules, Spider};
