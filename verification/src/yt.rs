pub mod audio_handler;
pub mod scraper;
