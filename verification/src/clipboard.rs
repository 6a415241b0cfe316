//! The shared clipboard contract, used by both roles, and the rule that
//! keeps content from echoing back to where it came from.
use vstd::prelude::*;
use vstd::string::*;

use crate::text::same;

verus! {

/// Platform clipboard access behind its own lock.
pub trait Clipboard: Send {
    /// Put `data` into the local clipboard (received from a peer).
    fn set(&mut self, mime: &str, data: &[u8]);

    /// Read the current local clipboard, if any.
    fn get(&mut self) -> Option<(String, Vec<u8>)>;

    /// The last clipboard content applied from a *remote* source.
    fn last_injected(&mut self) -> Option<(String, Vec<u8>)>;
}

/// Clipboard content: a type and its bytes.
pub type Content = (String, Vec<u8>);

/// Two contents are the same.
pub open spec fn same_content(a: Content, b: Content) -> bool {
    a.0@ == b.0@ && a.1@ == b.1@
}

/// Local content is news for the peers: it is neither what was last sent
/// nor what last came from a peer.
pub open spec fn is_news(cur: Content, seen: Option<Content>, injected: Option<Content>) -> bool {
    &&& seen matches Some(s) ==> !same_content(cur, s)
    &&& injected matches Some(i) ==> !same_content(cur, i)
}

fn bytes_equal(a: &Vec<u8>, b: &Vec<u8>) -> (r: bool)
    ensures
        r == (a@ == b@),
{
    if a.len() != b.len() {
        return false;
    }
    let mut i: usize = 0;
    while i < a.len()
        invariant
            i <= a@.len() == b@.len(),
            forall|j: int| 0 <= j < i ==> a@[j] == b@[j],
        decreases a@.len() - i,
    {
        if a[i] != b[i] {
            return false;
        }
        i += 1;
    }
    assert(a@ =~= b@);
    true
}

fn equal(a: &Content, b: &Content) -> (r: bool)
    ensures
        r == same_content(*a, *b),
{
    same(a.0.as_str(), b.0.as_str()) && bytes_equal(&a.1, &b.1)
}

/// Should the current local clipboard be sent to the peers? Content that
/// was just applied from a peer, and content that has already been sent,
/// is skipped; an empty clipboard is nothing to send.
pub fn should_send(
    cur: &Option<Content>,
    seen: &Option<Content>,
    injected: &Option<Content>,
) -> (r: bool)
    ensures
        r == (*cur matches Some(c) && is_news(c, *seen, *injected)),
{
    match cur {
        None => false,
        Some(c) => {
            let old: bool = match seen {
                Some(s) => equal(c, s),
                None => false,
            };
            let echo: bool = match injected {
                Some(i) => equal(c, i),
                None => false,
            };
            !old && !echo
        },
    }
}

/// Content that came from a peer is never echoed back to it.
pub proof fn injected_content_is_never_echoed(cur: Content, seen: Option<Content>)
    ensures
        !is_news(cur, seen, Some(cur)),
{
}

/// The same content is sent once: after it has been sent, it is no news.
pub proof fn content_is_sent_once(cur: Content, injected: Option<Content>)
    ensures
        !is_news(cur, Some(cur), injected),
{
}

} // verus!
