use vstd::prelude::*;

verus! {

/// The address of the channel's page of streams.
pub const CHANNEL_URL: &'static str = "https://www.youtube.com/@ParliamentofKenyaChannel/streams";

/// The languages in which the page is asked for: the publication times are
/// read in English.
pub const ACCEPT_LANGUAGE: &'static str = "en-US,en;q=0.9";

} // verus!
