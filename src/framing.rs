//! Framing of server messages: each one ends with a sentinel line, and the
//! client gathers lines until it sees that sentinel.

use vstd::prelude::*;

verus! {

/// The sentinel line that ends every server message.
pub open spec fn sentinel() -> Seq<char> {
    "END_OF_MESSAGE\n"@
}

/// A message body as it goes on the wire.
pub fn frame(body: &str) -> (r: String)
    ensures
        r@ == body@ + "\n"@ + sentinel(),
{
    let mut r = String::from_str(body);
    r.append("\n");
    r.append("END_OF_MESSAGE\n");
    r
}

/// Whether `s` ends with the sentinel standing on a line of its own.
pub open spec fn ends_with_sentinel(s: Seq<char>) -> bool {
    let n = sentinel().len();
    &&& s.len() >= n
    &&& s.subrange(s.len() - n, s.len() as int) == sentinel()
    &&& (s.len() == n || s[s.len() - n - 1] == '\n')
}

/// Gathers the lines a client receives into complete server messages.
pub struct MessageAssembler {
    pending: String,
}

impl MessageAssembler {
    /// The text received since the last complete message.
    pub closed spec fn spec_pending(&self) -> Seq<char> {
        self.pending@
    }

    pub fn new() -> (r: MessageAssembler)
        ensures
            r.spec_pending() == Seq::<char>::empty(),
    {
        MessageAssembler { pending: String::new() }
    }

    /// Adds one received line; once the text gathered ends with the sentinel
    /// line, returns everything before the sentinel and starts afresh.
    pub fn push_line(&mut self, line: &str) -> (r: Option<String>)
        ensures
            ({
                let all = old(self).spec_pending() + line@;
                if ends_with_sentinel(all) {
                    &&& r matches Some(m) && m@ == all.subrange(
                        0,
                        all.len() - sentinel().len(),
                    )
                    &&& final(self).spec_pending() == Seq::<char>::empty()
                } else {
                    &&& r is None
                    &&& final(self).spec_pending() == all
                }
            }),
    {
        proof {
            reveal_strlit("END_OF_MESSAGE\n");
        }
        self.pending.append(line);
        let s = self.pending.as_str();
        let n = s.unicode_len();
        let marker = "END_OF_MESSAGE\n";
        let m = marker.unicode_len();
        assert(marker@ == sentinel());
        if n < m {
            return None;
        }
        let mut i: usize = 0;
        while i < m
            invariant
                m == marker@.len(),
                marker@ == sentinel(),
                s@ == old(self).spec_pending() + line@,
                self.pending@ == s@,
                n == s@.len(),
                m <= n,
                0 <= i <= m,
                forall|j: int| 0 <= j < i ==> s@[n - m + j] == marker@[j],
            decreases m - i,
        {
            if s.get_char(n - m + i) != marker.get_char(i) {
                assert(s@.subrange(n - m, n as int)[i as int] != sentinel()[i as int]);
                assert(s@.subrange(n - m, n as int) != sentinel());
                return None;
            }
            i = i + 1;
        }
        assert(s@.subrange(n - m, n as int) =~= sentinel());
        if n > m && s.get_char(n - m - 1) != '\n' {
            return None;
        }
        let body = String::from_str(s.substring_char(0, n - m));
        self.pending = String::new();
        Some(body)
    }
}

} // verus!
