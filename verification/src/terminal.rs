//! The console's log, as handed to the browser.

use vstd::prelude::*;
use vstd::string::*;

verus! {

/// The body of the answer to a request for the log.
#[derive(Debug, PartialEq, Eq)]
pub struct ResponseData {
    /// The log's text.
    pub content: String,
}

/// The lines of a log, each followed by a line feed.
pub open spec fn joined(lines: Seq<String>) -> Seq<char>
    decreases lines.len(),
{
    if lines.len() == 0 {
        Seq::empty()
    } else {
        joined(lines.drop_last()) + lines.last()@ + "\n"@
    }
}

/// Puts the lines of the log into one text.
pub fn api_more(logs: &Vec<String>) -> (data: ResponseData)
    ensures
        data.content@ == joined(logs@),
{
    let mut buf = String::new();
    let mut i: usize = 0;
    while i < logs.len()
        invariant
            i <= logs.len(),
            buf@ == joined(logs@.subrange(0, i as int)),
        decreases logs.len() - i,
    {
        assert(logs@.subrange(0, i + 1).drop_last() =~= logs@.subrange(0, i as int));
        buf.append(logs[i].as_str());
        buf.append("\n");
        i += 1;
    }
    assert(logs@.subrange(0, i as int) =~= logs@);
    ResponseData { content: buf }
}

} // verus!
