use vstd::prelude::*;

verus! {

/// The host-facing handle of the predicate that tells mention links apart;
/// it holds no state.
#[derive(Debug, Default)]
pub struct MentionDetector {}

impl MentionDetector {
    pub fn new() -> (r: MentionDetector) {
        MentionDetector {  }
    }
}

} // verus!
