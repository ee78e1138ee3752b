//! The echo area: the last few messages to the user.
//!
//! Taking the time and drawing the area are the caller's part; which
//! messages are kept is decided here.

use crate::constants::ECHO_SIZE;
use vstd::prelude::*;

verus! {

/// The messages that the echo area shows, oldest first.
#[derive(Debug)]
pub struct EchoArea {
    pub messages: Vec<String>,
}

/// The messages as sequences of characters.
pub open spec fn texts(messages: Seq<String>) -> Seq<Seq<char>> {
    Seq::new(messages.len(), |i: int| messages[i]@)
}

/// The last `count` of `messages`, or all of them where they are fewer.
pub open spec fn last_of(messages: Seq<Seq<char>>, count: int) -> Seq<Seq<char>> {
    if messages.len() > count {
        messages.subrange(messages.len() - count, messages.len() as int)
    } else {
        messages
    }
}

/// A message behind the time at which it came, the time in square brackets.
pub open spec fn stamped(stamp: Seq<char>, message: Seq<char>) -> Seq<char> {
    seq!['['] + stamp + seq![']', ' '] + message
}

impl EchoArea {
    /// An echo area that shows `ECHO_SIZE` empty messages.
    pub fn new() -> (area: EchoArea)
        ensures
            area.messages@.len() == ECHO_SIZE,
            forall|i: int| 0 <= i < area.messages@.len() ==> area.messages@[i]@.len() == 0,
    {
        let mut messages: Vec<String> = Vec::new();
        let mut i: i32 = 0;
        while i < ECHO_SIZE
            invariant
                0 <= i <= ECHO_SIZE,
                messages@.len() == i,
                forall|k: int| 0 <= k < messages@.len() ==> messages@[k]@.len() == 0,
            decreases ECHO_SIZE - i,
        {
            messages.push(String::new());
            i += 1;
        }
        EchoArea { messages }
    }

    /// Takes in a message that came at the time `stamp`. The area keeps the
    /// last `ECHO_SIZE` messages.
    pub fn push(&mut self, stamp: &str, message: &str)
        ensures
            texts(final(self).messages@) == last_of(
                texts(old(self).messages@).push(stamped(stamp@, message@)),
                ECHO_SIZE as int,
            ),
    {
        let mut line = String::from_str("[");
        line.append(stamp);
        line.append("] ");
        line.append(message);
        proof {
            reveal_strlit("[");
            reveal_strlit("] ");
            assert(line@ =~= stamped(stamp@, message@));
        }
        let ghost all = texts(self.messages@).push(line@);
        let ghost before = self.messages@;
        self.messages.push(line);
        proof {
            assert(texts(self.messages@) =~= all);
            assert(all.subrange(0, all.len() as int) =~= all);
        }
        while self.messages.len() > ECHO_SIZE as usize
            invariant
                self.messages@.len() <= all.len(),
                all.len() > ECHO_SIZE ==> self.messages@.len() >= ECHO_SIZE,
                all.len() <= ECHO_SIZE ==> self.messages@.len() == all.len(),
                texts(self.messages@) == all.subrange(
                    all.len() - self.messages@.len(),
                    all.len() as int,
                ),
            decreases self.messages@.len(),
        {
            let ghost longer = self.messages@;
            let _ = self.messages.remove(0);
            proof {
                assert(self.messages@ == longer.remove(0));
                assert forall|i: int| 0 <= i < self.messages@.len() implies texts(
                    self.messages@,
                )[i] == all[all.len() - self.messages@.len() + i] by {
                    assert(self.messages@[i] == longer[i + 1]);
                    assert(texts(longer)[i + 1] == all[all.len() - longer.len() + i + 1]);
                }
                assert(texts(self.messages@) =~= all.subrange(
                    all.len() - self.messages@.len(),
                    all.len() as int,
                ));
            }
        }
    }
}

} // verus!
