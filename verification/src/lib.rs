//! The decisions and text handling of a Discord bot: command bookkeeping,
//! permission checks, argument parsing, and the extraction and formatting of
//! scraped price and weather information. The network, the Discord gateway
//! and the scheduler live around this library.
pub mod chat;
pub mod counter;
pub mod html;
pub mod owner;
pub mod scraping;
pub mod ssh;
pub mod text;
pub mod weather;
