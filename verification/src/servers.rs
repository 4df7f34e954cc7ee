//! A short form of a list of bootstrap servers.

use crate::text::chars_of;
use vstd::prelude::*;
use vstd::string::*;

verus! {

/// How many characters stand before the first comma of `text`: all of them
/// where it has no comma.
pub open spec fn first_comma(text: Seq<char>) -> nat
    decreases text.len(),
{
    if text.len() == 0 || text.first() == ',' {
        0
    } else {
        1 + first_comma(text.drop_first())
    }
}

/// The short form of a comma-separated list: its first element, followed by
/// an ellipsis where there are more.
pub open spec fn first_server_text(servers: Seq<char>) -> Seq<char> {
    if first_comma(servers) < servers.len() {
        servers.take(first_comma(servers) as int) + ", ..."@
    } else {
        servers
    }
}

/// The place of the first comma is within the text, no comma stands before
/// it, and where it is a place of the text a comma stands there.
pub proof fn lemma_first_comma(text: Seq<char>)
    ensures
        first_comma(text) <= text.len(),
        forall|i: int| 0 <= i < first_comma(text) ==> text[i] != ',',
        first_comma(text) < text.len() ==> text[first_comma(text) as int] == ',',
    decreases text.len(),
{
    if text.len() > 0 && text.first() != ',' {
        let rest = text.drop_first();
        lemma_first_comma(rest);
        assert forall|i: int| 0 <= i < first_comma(text) implies text[i] != ',' by {
            if i > 0 {
                assert(text[i] == rest[i - 1]);
            }
        }
    }
}

/// If no comma stands before `at`, and `at` is the end of the text or the
/// place of a comma, then `at` is where the first comma is counted.
pub proof fn lemma_first_comma_at(text: Seq<char>, at: int)
    requires
        0 <= at <= text.len(),
        forall|i: int| 0 <= i < at ==> text[i] != ',',
        at < text.len() ==> text[at] == ',',
    ensures
        first_comma(text) == at,
{
    lemma_first_comma(text);
    let found = first_comma(text) as int;
    if found < at {
        assert(text[found] == ',');
    } else if found > at {
        assert(text[at] != ',');
    }
}

/// Formats the bootstrap servers for the log output with ellipsis for more
/// than one broker.
pub struct FormatBootstrapServers<'a>(pub &'a String);

impl<'a> FormatBootstrapServers<'a> {
    /// The first server of the list, and an ellipsis where more follow.
    pub fn to_string(&self) -> (text: String)
        ensures
            text@ == first_server_text(self.0@),
    {
        let chars = chars_of(self.0.as_str());
        let mut text = String::new();
        let mut i: usize = 0;
        while i < chars.len() && chars[i] != ','
            invariant
                i <= chars.len(),
                chars@ == self.0@,
                text@ == chars@.take(i as int),
                forall|k: int| 0 <= k < i ==> chars@[k] != ',',
            decreases chars.len() - i,
        {
            text.push(chars[i]);
            i += 1;
        }
        proof {
            lemma_first_comma_at(chars@, i as int);
        }
        if i < chars.len() {
            text.append(", ...");
        }
        text
    }
}

} // verus!
