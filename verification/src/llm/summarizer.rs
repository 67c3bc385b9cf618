use vstd::prelude::*;

verus! {

/// What a summarization backend answers.
#[derive(Debug, PartialEq)]
pub struct SummaryResponse {
    pub summary: String,
}

impl View for SummaryResponse {
    type V = Seq<char>;

    open spec fn view(&self) -> Seq<char> {
        self.summary@
    }
}

} // verus!
